use champ::db_tool::{
    blowfish_secret, database_tool_roots, find_database_tool_source, keep_installed_tool, phpmyadmin_config,
    placeholder_page, random_alphanumeric, tool_install_plan, ToolInstallPlan, ToolRoot, BLOWFISH_SECRET_LEN,
};
use champ::downloader::{
    archive_kind, calculate_checksum_from_bytes, check_downloaded_bytes, components_to_download,
    install_dir_for_component, marker_version, verify_checksum, ArchiveKind, BinaryComponent,
};
use champ::locator::{
    app_data_paths, detect_caddy_binary, detect_mysql_binary, detect_php_binary_in_dir, locate_runtime_binaries,
    parent_path, resolve_runtime_dir, terminal_command, terminal_runtime_dirs, verify_runtime_binaries, DirEntry,
    HostOs, RuntimePaths,
};
use champ::packages::{runtime_config_search_paths, ConfigSearchInputs};
use champ::platform::{
    caddy_cleanup_notice, lsof_line_names, mysql_cleanup_plan, mysql_single_check, process_query_script,
    tasklist_args, tasklist_lists, verified_pids, MysqlCleanup,
};

fn dir(name: &str) -> DirEntry {
    DirEntry { name: name.to_string(), is_dir: true, is_file: false }
}

fn plain(name: &str) -> DirEntry {
    DirEntry { name: name.to_string(), is_dir: false, is_file: true }
}

fn paths_with(caddy: &str, php: &str, mysql: &str) -> RuntimePaths {
    RuntimePaths {
        caddy: caddy.to_string(),
        php_cgi: php.to_string(),
        php_ini: "/d/config/php.ini".to_string(),
        php_ext_dir: "/d/php/ext".to_string(),
        mysql: mysql.to_string(),
        postgresql: "/d/runtime/postgresql/bin/postgres".to_string(),
        adminer: "/d/config/adminer".to_string(),
        node: None,
        python: Some("/opt/py/bin/python3".to_string()),
        go: None,
        ruby: None,
        mysql_data_dir: "/d/mysql/data".to_string(),
        postgresql_data_dir: "/d/postgresql/data".to_string(),
        logs_dir: "/d/logs".to_string(),
        config_dir: "/d/config".to_string(),
        projects_dir: "/d/projects".to_string(),
    }
}

#[test]
fn test_runtime_paths_structure() {
    let paths = paths_with("/t/caddy.exe", "/t/php/php.exe", "/t/mysql/bin/mysqld.exe");
    assert!(paths.caddy.ends_with("caddy.exe"));
    assert!(paths.php_cgi.ends_with("php.exe"));
    assert!(paths.php_ini.ends_with("php.ini"));
    assert!(paths.mysql.ends_with("mysqld.exe"));
    assert!(paths.adminer.ends_with("adminer"));
}

#[test]
fn test_runtime_paths_clone() {
    let paths1 = paths_with("/t/caddy.exe", "/t/php/php.exe", "/t/mysql/bin/mysqld.exe");
    let paths2 = paths1.clone();
    assert_eq!(paths1.caddy, paths2.caddy);
    assert_eq!(paths1.php_cgi, paths2.php_cgi);
    assert_eq!(paths1.mysql, paths2.mysql);
}

#[test]
fn test_app_data_paths_clone() {
    let paths1 = app_data_paths(Some("/home/u/.local/share".to_string())).expect("paths");
    let paths2 = paths1.clone();
    assert_eq!(paths1.base_dir, paths2.base_dir);
    assert_eq!(paths1.runtime_dir, paths2.runtime_dir);
    assert_eq!(paths1.config_dir, paths2.config_dir);
}

#[test]
fn app_paths_live_in_a_champ_folder() {
    let p = app_data_paths(Some("/home/u/.local/share".to_string())).expect("paths");
    assert_eq!(p.base_dir, "/home/u/.local/share/CHAMP");
    assert_eq!(p.runtime_dir, "/home/u/.local/share/CHAMP/runtime");
    assert_eq!(p.mysql_data_dir, "/home/u/.local/share/CHAMP/mysql/data");
    assert_eq!(app_data_paths(None).unwrap_err(), "Cannot find a writable user data directory");
}

#[test]
fn binaries_are_found_in_search_order() {
    let present = |p: &str| p == "/rt/caddy/caddy" || p == "/rt/caddy";
    assert_eq!(detect_caddy_binary(HostOs::Linux, "/rt", &present), Ok("/rt/caddy".to_string()));
    let none = |_p: &str| false;
    assert_eq!(
        detect_caddy_binary(HostOs::Windows, "C:/rt", &none),
        Err("Caddy binary not found in C:/rt. Please ensure runtime binaries are downloaded.".to_string())
    );
    let entries = vec![plain("mysql.txt"), dir("mariadb-11.4-linux"), dir("mysql-8.4")];
    let present = |p: &str| p == "/rt/mariadb-11.4-linux/bin/mariadbd" || p == "/rt/mysql-8.4/bin/mysqld";
    assert_eq!(
        detect_mysql_binary(HostOs::Linux, "/rt", &entries, &present),
        Ok("/rt/mysql-8.4/bin/mysqld".to_string())
    );
    let present = |p: &str| p == "/rt/mariadb-11.4-linux/bin/mariadbd";
    assert_eq!(
        detect_mysql_binary(HostOs::Linux, "/rt", &entries, &present),
        Ok("/rt/mariadb-11.4-linux/bin/mariadbd".to_string())
    );
}

#[test]
fn windows_php_is_found_in_versioned_folders() {
    let entries = vec![dir("php-8.4.16-Win32-vs17-x64"), dir("php-8.3")];
    let present = |p: &str| p == "C:/rt/php-8.4.16-Win32-vs17-x64/php.exe" || p == "C:/rt/php/php-cgi.exe";
    assert_eq!(
        detect_php_binary_in_dir(HostOs::Windows, "C:/rt", &entries, &present),
        Ok("C:/rt/php-8.4.16-Win32-vs17-x64/php.exe".to_string())
    );
    let wrong = |p: &str| p == "/rt/php-cgi.exe";
    assert_eq!(
        detect_php_binary_in_dir(HostOs::Linux, "/rt", &vec![], &wrong),
        Err("Wrong platform: Windows PHP binaries found in /rt but this is Linux. Please delete the runtime directory and re-download: /rt".to_string())
    );
}

#[test]
fn runtime_is_located_and_verified() {
    let app = app_data_paths(Some("/d".to_string())).expect("paths");
    let rt = app.runtime_dir.clone();
    let present = move |p: &str| {
        p == "/d/CHAMP/runtime"
            || p == "/d/CHAMP/runtime/caddy"
            || p == "/d/CHAMP/runtime/php_versions/php-8.4"
            || p == "/d/CHAMP/runtime/php_versions/php-8.4/php-fpm"
            || p == "/d/CHAMP/runtime/bin/mysqld"
    };
    let located = locate_runtime_binaries(HostOs::Linux, &app, &rt, "php-8.4", &vec![], &vec![], &present)
        .expect("located");
    assert_eq!(located.caddy, "/d/CHAMP/runtime/caddy");
    assert_eq!(located.php_cgi, "/d/CHAMP/runtime/php_versions/php-8.4/php-fpm");
    assert_eq!(located.php_ext_dir, "/d/CHAMP/runtime/php_versions/php-8.4/php/lib/php/extensions");
    assert_eq!(located.mysql, "/d/CHAMP/runtime/bin/mysqld");
    assert_eq!(located.php_ini, "/d/CHAMP/config/php.ini");
    assert_eq!(located.adminer, "/d/CHAMP/config/adminer");

    let runnable = |p: &str| p != "/d/CHAMP/runtime/bin/mysqld";
    assert_eq!(
        verify_runtime_binaries(HostOs::Linux, &app, &rt, "php-8.4", &vec![], &vec![], &present, &runnable).unwrap_err(),
        "MariaDB binary not found or not executable: /d/CHAMP/runtime/bin/mysqld"
    );
    let missing = |_p: &str| false;
    assert_eq!(
        locate_runtime_binaries(HostOs::Linux, &app, &rt, "php-8.4", &vec![], &vec![], &missing).unwrap_err(),
        "Runtime directory not found. Please download runtime binaries first. Expected: /d/CHAMP/runtime"
    );
}

#[test]
fn legacy_runtime_folders_are_tried() {
    let app = app_data_paths(Some("/d".to_string())).expect("paths");
    let present = |p: &str| p == "/old/campp/runtime";
    assert_eq!(
        resolve_runtime_dir(&app, HostOs::Linux, Some("/opt/champ".to_string()), Some("/old".to_string()), &present),
        Ok("/old/campp/runtime".to_string())
    );
}

#[test]
fn terminal_gets_runtime_folders_first() {
    let paths = paths_with("/rt/caddy", "/rt/php/bin/php-fpm", "/rt/mysql/bin/mysqld");
    assert_eq!(
        terminal_runtime_dirs(&paths),
        vec!["/rt/php/bin", "/rt/mysql/bin", "/opt/py/bin", "/opt/py/bin/Scripts"]
    );
    assert_eq!(parent_path("caddy"), Some(String::new()));
    assert_eq!(parent_path("/"), None);
    assert_eq!(parent_path("/x"), Some("/".to_string()));
    let (prog, args, set_path) = terminal_command(HostOs::Linux, "/p").expect("terminal");
    assert_eq!(prog, "x-terminal-emulator");
    assert_eq!(args, vec!["--working-directory", "/p"]);
    assert!(set_path);
    assert!(terminal_command(HostOs::Other, "/p").is_none());
}

#[test]
fn catalog_search_places_are_listed_once() {
    let inputs = ConfigSearchInputs {
        app_dirs: Some(("/d/CHAMP/config".to_string(), "/d/CHAMP".to_string())),
        champ_data_dir: None,
        champ_portable_dir: None,
        data_local_dir: Some("/d".to_string()),
        resource_dir: Some("/app/resources".to_string()),
        exe_path: Some("/app/bin/champ".to_string()),
        linux: true,
        xdg_data_home: None,
        xdg_data_dirs: Some("/usr/share::/usr/local/share".to_string()),
    };
    let places = runtime_config_search_paths(&inputs);
    assert_eq!(places[0], "/d/CHAMP/config/runtime-config.json");
    assert_eq!(places[1], "/d/CHAMP/runtime-config.json");
    assert_eq!(places[2], "/d/campp/runtime-config.json");
    assert!(places.contains(&"/app/resources/runtime-config.json".to_string()));
    assert!(places.contains(&"src-tauri/runtime-config.json".to_string()));
    assert!(places.contains(&"/app/bin/resources/runtime-config.json".to_string()));
    assert!(places.contains(&"/usr/local/share/champ/runtime-config.json".to_string()));
    let mut sorted = places.clone();
    sorted.sort();
    sorted.dedup();
    assert_eq!(sorted.len(), places.len());
}

#[test]
fn secrets_are_drawn_and_reused() {
    let a = random_alphanumeric(12345, 32);
    assert_eq!(a.len(), 32);
    assert!(a.chars().all(|c| c.is_ascii_alphanumeric()));
    assert_eq!(random_alphanumeric(12345, 32), a);
    assert_ne!(random_alphanumeric(12346, 32), a);
    assert_eq!(random_alphanumeric(0, 4).len(), 4);
    let stored = format!("  {}\n", a);
    assert_eq!(blowfish_secret(&Some(stored), 9), (a.clone(), false));
    let (fresh, write) = blowfish_secret(&Some("short".to_string()), 9);
    assert!(write);
    assert_eq!(fresh.len(), BLOWFISH_SECRET_LEN);
    assert_eq!(blowfish_secret(&None, 9), (fresh, true));
}

#[test]
fn phpmyadmin_is_configured_for_the_ports() {
    let c = phpmyadmin_config("abc", 8080, 3307);
    assert!(c.starts_with("<?php\n$cfg['blowfish_secret'] = 'abc';\n"));
    assert!(c.contains("$cfg['PmaAbsoluteUri'] = 'http://localhost:8080/phpmyadmin/';"));
    assert!(c.contains("$cfg['Servers'][$i]['port'] = '3307';"));
    assert!(c.ends_with("$cfg['TempDir'] = __DIR__ . '/tmp';\n"));
    let page = placeholder_page("adminer-5", 3306, 5433);
    assert!(page.contains("<title>Adminer is not installed</title>"));
    assert!(page.contains("<code>/adminer</code>"));
    assert!(page.contains("server <code>127.0.0.1:5433</code>, user <code>postgres</code>"));
    let page = placeholder_page("phpmyadmin-5", 3306, 5433);
    assert!(page.contains("<h1>phpMyAdmin is not installed</h1>"));
}

#[test]
fn installed_tools_are_kept_by_marker() {
    assert_eq!(keep_installed_tool(true, &Some("phpmyadmin-5.2\n".to_string()), "phpmyadmin-5.2"), Some(true));
    assert_eq!(keep_installed_tool(true, &Some("adminer-5".to_string()), "adminer-5"), Some(false));
    assert_eq!(keep_installed_tool(false, &Some("adminer-5".to_string()), "adminer-5"), None);
    assert_eq!(keep_installed_tool(true, &Some("adminer-4".to_string()), "adminer-5"), None);
    assert_eq!(tool_install_plan(None, None, false, "adminer-5"), ToolInstallPlan::Placeholder);
    assert_eq!(
        tool_install_plan(None, Some("/s/phpmyadmin".to_string()), false, "phpmyadmin-5"),
        ToolInstallPlan::Install { source: "/s/phpmyadmin".to_string(), source_is_file: false, write_config: true }
    );
}

#[test]
fn bundled_tools_are_found_beside_the_runtime() {
    assert_eq!(database_tool_roots("/d/CHAMP/config", "/d/CHAMP/runtime/caddy"), vec![
        "/d/CHAMP/runtime",
        "/d/CHAMP/runtime",
        "/d/CHAMP",
    ]);
    let roots = vec![
        ToolRoot { dir: "/missing".to_string(), entries: vec![] },
        ToolRoot { dir: "/rt".to_string(), entries: vec![plain("README"), plain("Adminer-5.0.php")] },
    ];
    let present = |p: &str| p == "/rt";
    let is_file = |_p: &str| false;
    assert_eq!(find_database_tool_source(&roots, "adminer-5", &present, &is_file), Some("/rt/Adminer-5.0.php".to_string()));
    let roots = vec![ToolRoot { dir: "/rt".to_string(), entries: vec![dir("phpMyAdmin-5.2-all")] }];
    let present = |p: &str| p == "/rt" || p == "/rt/phpMyAdmin-5.2-all/index.php";
    assert_eq!(
        find_database_tool_source(&roots, "phpmyadmin-5", &present, &is_file),
        Some("/rt/phpMyAdmin-5.2-all".to_string())
    );
    let present = |p: &str| p == "/rt" || p == "/rt/phpmyadmin/index.php";
    assert_eq!(find_database_tool_source(&roots, "phpmyadmin-5", &present, &is_file), Some("/rt/phpmyadmin".to_string()));
}

#[test]
fn stray_processes_are_found_and_reported() {
    let script = process_query_script("C:\\rt\\caddy.exe", "C:\\O'Neil\\rt\\caddy.exe");
    assert!(script.starts_with("$target = 'C:\\O''Neil\\rt\\caddy.exe'; Get-CimInstance Win32_Process -Filter \"Name = 'caddy.exe'\""));
    assert!(script.ends_with("ForEach-Object { $_.ProcessId }"));
    assert_eq!(verified_pids(&vec![10, 11, 12, 13], 11, &|p: u32| p != 13), vec![10, 12]);
    assert!(lsof_line_names("mysqld 4242 me txt REG 1,4 1234 5678 /rt/bin/mysqld", "/rt/bin/mysqld"));
    assert!(!lsof_line_names("mysqld 4242 me cwd DIR 1,4 1234 5678 /rt/bin/mysqld", "/rt/bin/mysqld"));
    assert_eq!(tasklist_args(42), vec!["/FI", "PID eq 42", "/FO", "CSV", "/NH"]);
    assert!(tasklist_lists("\"caddy.exe\",\"42\",\"Console\"", 42));
    assert!(!tasklist_lists("\"caddy.exe\",\"420\"", 42));
    assert_eq!(caddy_cleanup_notice(&vec![]), None);
    assert_eq!(
        caddy_cleanup_notice(&vec![7]),
        Some("Found a stale Caddy process (pid 7). Stopping it before re-launch...".to_string())
    );
    assert_eq!(
        caddy_cleanup_notice(&vec![7, 8]),
        Some("WARNING: Found 2 Caddy processes running. Cleaning up duplicates...".to_string())
    );
    assert_eq!(mysql_cleanup_plan(&vec![5]), MysqlCleanup::CheckOne(5));
    assert_eq!(mysql_cleanup_plan(&vec![5, 6]), MysqlCleanup::StopAll);
    assert_eq!(mysql_single_check(5, false, false), Some("Found stale MySQL PID 5 (process not running)".to_string()));
    assert_eq!(mysql_single_check(5, true, false), None);
}

#[test]
fn downloads_are_checked_and_installed() {
    let sum = calculate_checksum_from_bytes(b"abc");
    assert_eq!(sum, "ba7816bf8f01cfea414140de5dae2223b00361a396177a9cb410ff61f20015ad");
    assert!(verify_checksum(BinaryComponent::Caddy, b"abc", &Some(sum.to_uppercase())).is_ok());
    assert!(verify_checksum(BinaryComponent::Caddy, b"abc", &None).is_ok());
    let e = verify_checksum(BinaryComponent::Caddy, b"abd", &Some(sum.clone())).unwrap_err();
    assert!(e.starts_with("Checksum verification failed for Caddy.\nExpected: ba7816bf"));
    assert!(check_downloaded_bytes("zip", b"PK\x03\x04rest").is_ok());
    assert!(check_downloaded_bytes("zip", b"<html>").is_err());
    assert!(check_downloaded_bytes("gz", b"ab").is_err());
    assert_eq!(archive_kind("caddy_2.11.2_linux_amd64.tar.gz", BinaryComponent::Caddy), Ok(ArchiveKind::TarGz));
    assert_eq!(archive_kind("adminer-5.php", BinaryComponent::PhpMyAdmin), Ok(ArchiveKind::AdminerPage));
    assert_eq!(install_dir_for_component(BinaryComponent::Php, "/rt", "php-8.4"), "/rt/php_versions/php-8.4");
    assert_eq!(install_dir_for_component(BinaryComponent::MySQL, "/rt", "php-8.4"), "/rt");
    assert_eq!(marker_version("installed_at=x\nversion=8.4.1\n"), Some("8.4.1".to_string()));
    let skip = vec!["php".to_string(), "mysql".to_string()];
    assert_eq!(components_to_download(&skip, false), vec![
        BinaryComponent::Caddy,
        BinaryComponent::Php,
        BinaryComponent::PhpMyAdmin,
    ]);
    assert_eq!(components_to_download(&skip, true), vec![BinaryComponent::Caddy, BinaryComponent::PhpMyAdmin]);
}

#[test]
fn download_extensions_default_to_zip() {
    use_extension_cases();
}

fn use_extension_cases() {
    assert_eq!(champ::downloader::get_extension_from_url("https://h/a/php-8.5.7.tar.gz"), "tar.gz");
    assert_eq!(champ::downloader::get_extension_from_url("https://h/a/mysql.tar.xz"), "xz");
    assert_eq!(champ::downloader::get_extension_from_url("https://h/a/caddy"), "zip");
    assert_eq!(champ::downloader::get_extension_from_url("https://h/a.b/caddy"), "zip");
}
