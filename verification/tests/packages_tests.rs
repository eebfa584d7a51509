use champ::downloader::get_default_config;
use champ::packages::{
    config_or_builtin, get_available_packages, get_config, get_node_package, get_postgresql_package,
    get_selected_package_ids, reload_runtime_config, selected_caddy_version, set_tauri_resource_dir,
    tauri_resource_dir, RuntimeCatalog,
};

#[test]
fn builtin_catalog_answers_until_one_is_loaded() {
    let mut catalog = RuntimeCatalog::new(None, get_default_config());
    assert!(get_config(&catalog).is_none());
    assert_eq!(selected_caddy_version(&catalog), "2.11.2");
    assert_eq!(config_or_builtin(&catalog).binaries.php.versions[0].id, "php-8.5");

    let mut loaded = get_default_config();
    loaded.binaries.caddy.versions[0].version = "2.12.0".to_string();
    reload_runtime_config(&mut catalog, Some(loaded));
    assert_eq!(get_config(&catalog).unwrap().binaries.caddy.versions[0].version, "2.12.0");
    assert_eq!(selected_caddy_version(&catalog), "2.12.0");

    reload_runtime_config(&mut catalog, None);
    assert_eq!(selected_caddy_version(&catalog), "2.11.2");
}

#[test]
fn resource_dir_is_set_once() {
    let mut catalog = RuntimeCatalog::new(None, get_default_config());
    assert_eq!(tauri_resource_dir(&catalog), None);
    set_tauri_resource_dir(&mut catalog, "/app/resources".to_string());
    set_tauri_resource_dir(&mut catalog, "/elsewhere".to_string());
    assert_eq!(tauri_resource_dir(&catalog).as_deref(), Some("/app/resources"));
}

#[test]
fn builtin_packages_and_selection() {
    let catalog = RuntimeCatalog::new(None, get_default_config());
    let packages = get_available_packages(&catalog);
    let pg = get_postgresql_package(&packages, "postgresql-17").expect("built-in PostgreSQL");
    assert_eq!(pg.version, "17.10");
    assert!(get_postgresql_package(&packages, "postgresql-9").is_none());
    assert!(get_node_package(&packages, "node-22").is_none());

    let selection = get_selected_package_ids(&catalog);
    assert_eq!(selection.php, "php-8.5");
    assert_eq!(selection.mysql, "mysql-8.4");
    assert_eq!(selection.postgresql, "postgresql-17");
    assert_eq!(selection.phpmyadmin, "adminer-5.4");
    assert_eq!(selection.node, None);
}
