use champ::commands::{
    check_language, check_php_known, check_php_switch, check_project_folder, database_tool_files,
    database_tool_skip_list, find_database_tool, installed_php_version, package_name_slug, php_version_skip_list,
    project_dir_for, project_entry_file, project_template_files, project_template_id, scaffold_result,
    selected_database_files, tool_still_missing_message, validate_project_name, web_stack_was_running,
    InstalledPhpVersionDto, ProjectTemplate,
};
use champ::packages::{GenericPackage, PackagesConfig, PhpMyAdminPackage};
use champ::service::ServiceType;

#[test]
fn validate_project_name_rejects_path_traversal() {
    assert!(validate_project_name("..").is_err());
    assert!(validate_project_name("../outside").is_err());
    assert!(validate_project_name("nested\\outside").is_err());
}

#[test]
fn package_name_slug_keeps_npm_safe_ascii() {
    assert_eq!(package_name_slug("My Node App"), "my-node-app");
    assert_eq!(package_name_slug("โปรเจกต์"), "champ-node-project");
}

#[test]
fn create_static_project_writes_expected_files() {
    let (name, dir) = project_dir_for("/tmp/projects", "demo").expect("valid project");
    assert_eq!(name, "demo");
    assert_eq!(dir, "/tmp/projects/demo");
    let files = project_template_files(ProjectTemplate::Static, &name);
    let paths: Vec<&str> = files.iter().map(|(p, _)| p.as_str()).collect();
    assert_eq!(paths, vec!["index.html", "styles.css", "script.js"]);
    let result = scaffold_result(name, ProjectTemplate::Static, dir);
    assert_eq!(result.name, "demo");
    assert_eq!(result.template, "static");
    assert_eq!(result.entry_file, "/tmp/projects/demo/index.html");
}

#[test]
fn create_project_does_not_overwrite_non_empty_directory() {
    let r = check_project_folder("demo", true, true);
    assert_eq!(r, Err("Project 'demo' already exists and is not empty".to_string()));
    assert_eq!(check_project_folder("demo", true, false), Ok(false));
    assert_eq!(check_project_folder("demo", false, false), Ok(true));
}

#[test]
fn project_name_is_trimmed_and_checked() {
    assert_eq!(validate_project_name("  blog  "), Ok("blog".to_string()));
    assert_eq!(validate_project_name("   "), Err("Project name is required".to_string()));
    assert_eq!(validate_project_name("."), Err("Project name cannot be '.' or '..'".to_string()));
    assert_eq!(
        validate_project_name("a:b"),
        Err("Project name contains characters that are not valid in a folder name".to_string())
    );
    assert!(validate_project_name("tab\there").is_err());
}

#[test]
fn slug_collapses_runs_and_trims_dashes() {
    assert_eq!(package_name_slug("--Hello,  World!--"), "hello-world");
    assert_eq!(package_name_slug("API_v2"), "api-v2");
    assert_eq!(package_name_slug(""), "champ-node-project");
}

#[test]
fn templates_name_their_files() {
    assert_eq!(project_template_id(ProjectTemplate::Go), "go");
    assert_eq!(project_entry_file(ProjectTemplate::Php), "index.php");
    assert_eq!(project_entry_file(ProjectTemplate::Ruby), "README.md");
    let php = project_template_files(ProjectTemplate::Php, "Shop");
    assert_eq!(php.len(), 1);
    assert!(php[0].1.starts_with("<?php\n$projectName = \"Shop\";\n"));
    let node = project_template_files(ProjectTemplate::Node, "My Node App");
    assert_eq!(node[0].0, "package.json");
    assert!(node[0].1.contains("\"name\": \"my-node-app\""));
    let go = project_template_files(ProjectTemplate::Go, "Web Tool");
    assert_eq!(go[1].1, "module web-tool\n\ngo 1.21\n");
    let python = project_template_files(ProjectTemplate::Python, "x");
    assert_eq!(python.len(), 2);
}

#[test]
fn database_tools_choose_their_files_and_skips() {
    assert_eq!(database_tool_files("adminer-5"), vec!["adminer/index.php", "adminer.php"]);
    assert_eq!(database_tool_files("phpmyadmin-5.2"), vec!["phpmyadmin/index.php"]);
    assert_eq!(selected_database_files("adminer")[0], "postgresql_installed.txt");
    assert_eq!(selected_database_files("phpmyadmin")[4], "bin/mysqld");
    assert_eq!(database_tool_skip_list("adminer"), vec!["caddy", "php", "mysql", "phpmyadmin"]);
    assert_eq!(database_tool_skip_list("phpmyadmin"), vec!["caddy", "php", "postgresql", "adminer"]);
    assert_eq!(php_version_skip_list(), vec!["caddy", "mysql", "postgresql", "adminer", "phpmyadmin"]);
    assert_eq!(
        tool_still_missing_message("Adminer", "/rt"),
        "Adminer was downloaded, but CHAMP could not find all required files in /rt"
    );
}

fn php(id: &str, version: &str) -> GenericPackage {
    GenericPackage {
        id: id.to_string(),
        version: version.to_string(),
        display_name: format!("PHP {}", version),
        windows_x64: String::new(),
        windows_arm64: String::new(),
        linux_x64: String::new(),
        linux_arm64: String::new(),
        macos_x64: String::new(),
        macos_arm64: String::new(),
        eol: false,
        lts: false,
        recommended: true,
    }
}

fn catalog() -> PackagesConfig {
    PackagesConfig {
        php: vec![php("php-8.4", "8.4.1"), php("php-8.3", "8.3.9")],
        mysql: vec![],
        postgresql: vec![],
        phpmyadmin: vec![PhpMyAdminPackage {
            id: "adminer-5".to_string(),
            version: "5.0".to_string(),
            display_name: "Adminer 5".to_string(),
            url: "https://example.invalid/adminer.php".to_string(),
            eol: false,
            lts: false,
            recommended: true,
        }],
        node: vec![],
        python: vec![],
        go: vec![],
        ruby: vec![],
    }
}

#[test]
fn php_versions_are_listed_and_checked_before_switching() {
    let p = php("php-8.3", "8.3.9");
    let own = Some("version=8.3.10\ninstalled_at=now\n".to_string());
    let d = installed_php_version(&p, &own, &None, "php-8.3", Some("/rt/php_versions/php-8.3".to_string()));
    assert_eq!(d.version, "8.3.10");
    assert!(d.installed && d.active);
    let legacy = Some("version=8.3.9\n".to_string());
    let d2 = installed_php_version(&p, &None, &legacy, "php-8.4", None);
    assert!(d2.installed);
    assert!(!d2.active);
    assert_eq!(d2.version, "8.3.9");
    let d3 = installed_php_version(&p, &None, &Some("version=8.4.1".to_string()), "php-8.4", None);
    assert!(!d3.installed);

    let cat = catalog();
    assert_eq!(check_php_known(&cat, "php-7.4"), Err("Unknown PHP version: php-7.4".to_string()));
    assert_eq!(check_php_known(&cat, "php-8.4"), Ok(()));
    let listed: Vec<InstalledPhpVersionDto> = vec![d, d3];
    assert_eq!(check_php_switch(&cat, &listed, "php-8.3"), Ok(()));
    assert_eq!(
        check_php_switch(&cat, &vec![d2_not_installed()], "php-8.4"),
        Err("PHP 8.4.1 is not installed yet. Install it before switching.".to_string())
    );
    assert_eq!(check_php_switch(&cat, &vec![], "php-8.4"), Err("Unknown PHP version: php-8.4".to_string()));
}

fn d2_not_installed() -> InstalledPhpVersionDto {
    installed_php_version(&php("php-8.4", "8.4.1"), &None, &None, "php-8.3", None)
}

#[test]
fn settings_commands_check_their_inputs() {
    assert_eq!(check_language("th"), Ok(()));
    assert_eq!(check_language("fr"), Err("Unsupported language: fr".to_string()));
    assert!(web_stack_was_running(&vec![ServiceType::MySQL, ServiceType::PhpFpm]));
    assert!(!web_stack_was_running(&vec![ServiceType::MySQL, ServiceType::PostgreSQL]));
    let cat = catalog();
    assert_eq!(find_database_tool(&cat, "adminer-5").map(|p| p.display_name), Ok("Adminer 5".to_string()));
    assert_eq!(
        find_database_tool(&cat, "phpmyadmin-5").map(|p| p.display_name),
        Err("Unknown database tool: phpmyadmin-5".to_string())
    );
}
