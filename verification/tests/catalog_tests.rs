use champ::catalog::{
    adminer_version, apply_catalog_updates, caddy_version, go_stable_versions, go_version, mysql_version,
    node_release_lines, node_version_with_label, php_version, phpmyadmin_version, postgresql_version, python_version,
    replace_version_list, replace_versions, ruby_version, ruby_version_from_tag, sort_versions_newest_first,
    upsert_selected_single_url, upsert_selected_version, version_after_marker, version_from_tag, version_major,
    version_major_minor, CatalogUpdates, GoRelease, NodeRelease,
};
use champ::packages::{get_database_display_name, selected_version_id};
use champ::downloader::get_default_config;

fn updates() -> CatalogUpdates {
    CatalogUpdates {
        caddy_tag: Some("v2.12.0".to_string()),
        php_page: Some("<p>Current downloads of PHP 8.5.3 are here</p>".to_string()),
        mysql_page: Some("MySQL Community Server 9.5.0 Innovation".to_string()),
        postgresql_page: Some("PostgreSQL Version 18.1 released".to_string()),
        phpmyadmin_page: Some("Download phpMyAdmin 5.2.3".to_string()),
        adminer_page: Some("5.4.2".to_string()),
        node_releases: Some(vec![
            NodeRelease { version: "v25.1.0".to_string(), lts: false },
            NodeRelease { version: "v24.11.0".to_string(), lts: true },
            NodeRelease { version: "v24.10.0".to_string(), lts: true },
            NodeRelease { version: "v22.21.0".to_string(), lts: true },
        ]),
        python_page: Some("Download Python 3.14.1".to_string()),
        go_releases: Some(vec![
            GoRelease { version: "go1.26rc1".to_string(), stable: false },
            GoRelease { version: "go1.25.4".to_string(), stable: true },
            GoRelease { version: "go1.24.10".to_string(), stable: true },
        ]),
        ruby_tag: Some("RubyInstaller-3.4.7-1".to_string()),
    }
}

#[test]
fn refresh_folds_upstream_versions_in() {
    let mut config = get_default_config();
    let changes = apply_catalog_updates(&mut config, &updates());
    assert!(changes.any());
    assert!(changes.caddy && changes.php && changes.mysql && changes.postgresql);
    let b = &config.binaries;
    assert_eq!(b.caddy.versions.len(), 1);
    assert_eq!(b.caddy.versions[0].version, "2.12.0");
    assert_eq!(b.php.versions[0].version, "8.5.3");
    assert!(b.php.versions[0].selected);
    assert_eq!(b.mysql.versions[0].version, "9.5.0");
    assert_eq!(b.mysql.versions[1].version, "8.4.10");
    assert!(!b.mysql.versions[1].selected);
    assert_eq!(b.postgresql.versions[0].version, "18.1");
    assert_eq!(b.postgresql.versions.len(), 3);
    let go = b.go.as_ref().expect("Go is listed");
    assert_eq!(go.versions.len(), 2);
    assert_eq!(go.versions[0].version, "1.25.4");
    assert!(go.versions[0].selected && !go.versions[1].selected);
    let ruby = b.ruby.as_ref().expect("Ruby is listed");
    assert_eq!(ruby.versions[0].version, "3.4.7");
    let node = b.node.as_ref().expect("Node.js is listed");
    assert_eq!(node.versions[0].version, "25.1.0");
    assert!(!node.versions[0].selected);
    assert_eq!(node.versions[1].version, "24.11.0");
    assert!(node.versions[1].selected);
    assert!(b.phpmyadmin.versions.iter().any(|t| t.version == "5.2.3"));
    assert!(b.phpmyadmin.versions.iter().any(|t| t.version == "5.4.2"));
}

#[test]
fn refresh_with_the_same_data_again_changes_nothing() {
    let mut config = get_default_config();
    let _ = apply_catalog_updates(&mut config, &updates());
    let again = apply_catalog_updates(&mut config, &updates());
    assert!(!again.any());
}

#[test]
fn refresh_without_data_changes_nothing() {
    let mut config = get_default_config();
    let none = CatalogUpdates {
        caddy_tag: None,
        php_page: None,
        mysql_page: None,
        postgresql_page: None,
        phpmyadmin_page: None,
        adminer_page: None,
        node_releases: None,
        python_page: None,
        go_releases: None,
        ruby_tag: None,
    };
    let changes = apply_catalog_updates(&mut config, &none);
    assert!(!changes.any());
    assert_eq!(config.binaries.caddy.versions[0].version, "2.11.2");
}

fn chars(s: &str) -> Vec<char> {
    s.chars().collect()
}

#[test]
fn version_families() {
    assert_eq!(version_major_minor(&chars("8.5.3")), chars("8.5"));
    assert_eq!(version_major_minor(&chars("9")), chars("9"));
    assert_eq!(version_major(&chars("18.1")), chars("18"));
    assert_eq!(version_from_tag("v2.12.0"), "2.12.0");
    assert_eq!(version_from_tag("2.12.0"), "2.12.0");
    assert_eq!(ruby_version_from_tag("RubyInstaller-3.4.7-1").as_deref(), Some("3.4.7"));
    assert_eq!(ruby_version_from_tag("v3.4.7"), None);
}

#[test]
fn versions_are_read_after_a_marker() {
    assert_eq!(version_after_marker("x downloads of PHP 8.5.3.", "downloads of PHP ").as_deref(), Some("8.5.3"));
    assert_eq!(version_after_marker("Adminer 5.4.2 (2025)", "").as_deref(), Some("5.4.2"));
    assert_eq!(version_after_marker("build 7 then 1.2", "").as_deref(), Some("1.2"));
    assert_eq!(version_after_marker("no marker here 1.2", "PHP "), None);
    assert_eq!(version_after_marker("PHP 8 only", "PHP "), None);
}

#[test]
fn catalog_entries_of_releases() {
    let c = caddy_version("2.12.0");
    assert_eq!(c.id, "caddy-2.12");
    assert_eq!(c.display_name, "Caddy 2.12.0");
    assert!(c.selected && c.lts && !c.eol);
    assert_eq!(
        c.urls.linux_x64.as_deref(),
        Some("https://github.com/caddyserver/caddy/releases/download/v2.12.0/caddy_2.12.0_linux_amd64.tar.gz")
    );
    let p = php_version("8.5.3");
    assert_eq!(p.id, "php-8.5");
    assert_eq!(p.display_name, "PHP 8.5");
    assert_eq!(p.urls.windows_arm64, None);
    assert_eq!(
        p.urls.macos_arm64.as_deref(),
        Some("https://dl.static-php.dev/static-php-cli/bulk/php-8.5.3-fpm-macos-aarch64.tar.gz")
    );
    let m = mysql_version("9.5.0");
    assert_eq!(m.id, "mysql-9.5");
    assert_eq!(
        m.urls.windows_x64.as_deref(),
        Some("https://cdn.mysql.com/Downloads/MySQL-9.5/mysql-9.5.0-winx64.zip")
    );
    let pg = postgresql_version("18.1");
    assert_eq!(pg.id, "postgresql-18");
    assert_eq!(
        pg.urls.linux_arm64.as_deref(),
        Some("https://downloads.percona.com/downloads/postgresql-distribution-18/18.1/binary/tarball/percona-postgresql-18.1-ssl3-linux-aarch64.tar.gz")
    );
    let pma = phpmyadmin_version("5.2.3");
    assert_eq!(pma.id, "phpmyadmin-5.2");
    assert!(pma.selected);
    assert_eq!(pma.url, "https://files.phpmyadmin.net/phpMyAdmin/5.2.3/phpMyAdmin-5.2.3-all-languages.zip");
    let adm = adminer_version("5.4.2");
    assert_eq!(adm.id, "adminer-5.4");
    assert!(!adm.selected);
    assert_eq!(adm.url, "https://www.adminer.org/static/download/5.4.2/adminer-5.4.2.php");
    let n = node_version_with_label("24.11.0", true, true, "LTS");
    assert_eq!(n.id, "node-24");
    assert_eq!(n.display_name, "Node.js 24.11.0 (LTS)");
    assert_eq!(n.urls.linux_x64.as_deref(), Some("https://nodejs.org/dist/v24.11.0/node-v24.11.0-linux-x64.tar.xz"));
    let py = python_version("3.14.1");
    assert_eq!(py.id, "python-3.14");
    assert_eq!(
        py.urls.linux_x64.as_deref(),
        Some("https://github.com/astral-sh/python-build-standalone/releases/download/20260623/cpython-3.14.1+20260623-x86_64-unknown-linux-gnu-install_only.tar.gz")
    );
    let go = go_version("1.25.4");
    assert_eq!(go.id, "go-1.25");
    assert_eq!(go.urls.macos_x64.as_deref(), Some("https://go.dev/dl/go1.25.4.darwin-amd64.tar.gz"));
    let rb = ruby_version("3.4.7");
    assert_eq!(rb.id, "ruby-3.4");
    assert_eq!(
        rb.urls.windows_x64.as_deref(),
        Some("https://github.com/oneclick/rubyinstaller2/releases/download/RubyInstaller-3.4.7-1/rubyinstaller-3.4.7-1-x64.7z")
    );
    assert_eq!(rb.urls.linux_x64.as_deref(), Some("https://cache.ruby-lang.org/pub/ruby/3.4/ruby-3.4.7.tar.xz"));
}

#[test]
fn node_and_go_release_lines() {
    let releases = vec![
        NodeRelease { version: "v25.1.0".to_string(), lts: false },
        NodeRelease { version: "v25.0.0".to_string(), lts: false },
        NodeRelease { version: "v24.11.0".to_string(), lts: true },
        NodeRelease { version: "v22.21.0".to_string(), lts: true },
        NodeRelease { version: "v20.19.5".to_string(), lts: true },
        NodeRelease { version: "v18.20.8".to_string(), lts: true },
    ];
    let lines = node_release_lines(&releases).expect("release lines");
    let ids: Vec<&str> = lines.iter().map(|v| v.id.as_str()).collect();
    assert_eq!(ids, vec!["node-25", "node-24", "node-22", "node-20"]);
    assert!(!lines[0].selected && lines[1].selected && !lines[2].selected);
    assert_eq!(lines[0].display_name, "Node.js 25.1.0 (Stable)");
    assert!(node_release_lines(&Vec::new()).is_none());

    let go = go_stable_versions(&vec![
        GoRelease { version: "go1.26rc1".to_string(), stable: false },
        GoRelease { version: "go1.25.4".to_string(), stable: true },
        GoRelease { version: "go1.24.10".to_string(), stable: true },
        GoRelease { version: "go1.23.9".to_string(), stable: true },
    ])
    .expect("stable releases");
    assert_eq!(go.len(), 2);
    assert_eq!(go[1].version, "1.24.10");
    assert!(go[0].selected && !go[1].selected);
    assert!(go_stable_versions(&vec![GoRelease { version: "go1.26rc1".to_string(), stable: false }]).is_none());
}

#[test]
fn version_lists_are_replaced_and_upserted() {
    let mut caddy = vec![caddy_version("2.11.2")];
    caddy[0].selected = false;
    assert!(!replace_versions(&mut caddy, caddy_version("2.11.2")));
    assert!(caddy[0].selected);
    assert!(replace_versions(&mut caddy, caddy_version("2.12.0")));
    assert_eq!(caddy[0].version, "2.12.0");

    let mut mysql = vec![mysql_version("9.5.0")];
    assert!(!replace_version_list(&mut mysql, vec![mysql_version("9.5.0")]));
    assert!(replace_version_list(&mut mysql, vec![mysql_version("9.6.0")]));
    assert_eq!(mysql[0].version, "9.6.0");

    let mut php = vec![php_version("8.4.2"), php_version("8.3.9")];
    assert!(upsert_selected_version(&mut php, php_version("8.5.3")));
    let versions: Vec<&str> = php.iter().map(|v| v.version.as_str()).collect();
    assert_eq!(versions, vec!["8.5.3", "8.4.2", "8.3.9"]);
    assert!(php[0].selected && !php[1].selected && !php[2].selected);
    assert!(!upsert_selected_version(&mut php, php_version("8.5.3")));

    let mut tools = vec![adminer_version("5.4.1")];
    assert!(upsert_selected_single_url(&mut tools, adminer_version("5.4.2"), false));
    assert_eq!(tools.len(), 1);
    assert_eq!(tools[0].version, "5.4.2");
    assert!(upsert_selected_single_url(&mut tools, phpmyadmin_version("5.2.3"), false));
    assert_eq!(tools.len(), 2);
    assert!(!tools[1].selected);
}

#[test]
fn sorting_and_selection_helpers() {
    let sorted = sort_versions_newest_first(vec![php_version("8.3.9"), php_version("8.5.1"), php_version("8.4.2")]);
    let versions: Vec<&str> = sorted.iter().map(|v| v.version.as_str()).collect();
    assert_eq!(versions, vec!["8.5.1", "8.4.2", "8.3.9"]);
    let mut list = vec![php_version("8.5.1"), php_version("8.4.2")];
    list[0].selected = false;
    list[1].selected = false;
    assert_eq!(selected_version_id(&list).as_deref(), Some("php-8.5"));
    list[1].selected = true;
    assert_eq!(selected_version_id(&list).as_deref(), Some("php-8.4"));
    assert_eq!(selected_version_id(&Vec::new()), None);
    assert_eq!(get_database_display_name("MariaDB 11.4"), "MySQL 11.4");
}
