use champ::service::{ServiceInfo, ServiceMap, ServiceState, ServiceType};
use std::collections::HashSet;

#[test]
fn mod_test_service_type_display_names() {
    assert_eq!(ServiceType::Caddy.display_name(), "Caddy");
    assert_eq!(ServiceType::PhpFpm.display_name(), "PHP-FPM 8.5");
    assert_eq!(ServiceType::MySQL.display_name(), "MySQL");
}

#[test]
fn test_service_type_binary_names() {
    assert_eq!(ServiceType::Caddy.binary_name(), "caddy");
    assert_eq!(ServiceType::PhpFpm.binary_name(), "php-cgi");
    assert_eq!(ServiceType::MySQL.binary_name(), "mysqld");
}

#[test]
fn mod_test_service_state_is_running() {
    assert!(!ServiceState::Stopped.is_running());
    assert!(!ServiceState::Starting.is_running());
    assert!(ServiceState::Running.is_running());
    assert!(!ServiceState::Stopping.is_running());
    assert!(!ServiceState::Error.is_running());
}

#[test]
fn mod_test_service_state_is_transitioning() {
    assert!(!ServiceState::Stopped.is_transitioning());
    assert!(ServiceState::Starting.is_transitioning());
    assert!(!ServiceState::Running.is_transitioning());
    assert!(ServiceState::Stopping.is_transitioning());
    assert!(!ServiceState::Error.is_transitioning());
}

#[test]
fn test_service_info_new() {
    let info = ServiceInfo::new(ServiceType::Caddy);
    assert_eq!(info.service_type, ServiceType::Caddy);
    assert_eq!(info.state, ServiceState::Stopped);
    assert_eq!(info.port, 8080);
    assert!(info.error_message.is_none());
}

#[test]
fn mod_test_service_map_operations() {
    let mut map: ServiceMap = ServiceMap::new();

    let caddy_info = ServiceInfo::new(ServiceType::Caddy);
    map.insert(ServiceType::Caddy, caddy_info);

    let php_info = ServiceInfo::new(ServiceType::PhpFpm);
    map.insert(ServiceType::PhpFpm, php_info);

    assert_eq!(map.len(), 2);
    assert!(map.contains_key(&ServiceType::PhpFpm));
}

#[test]
fn mod_test_all_service_types_hashable() {

    let mut set = HashSet::new();
    set.insert(ServiceType::Caddy);
    set.insert(ServiceType::PhpFpm);
    set.insert(ServiceType::MySQL);

    assert_eq!(set.len(), 3);
}

#[test]
fn ui_commands_test_service_type_display_names() {
    assert_eq!(ServiceType::Caddy.display_name(), "Caddy");
    assert_eq!(ServiceType::PhpFpm.display_name(), "PHP-FPM 8.5");
    assert_eq!(ServiceType::MySQL.display_name(), "MySQL");
}

#[test]
fn test_service_type_ports() {
    assert_eq!(ServiceType::Caddy.default_port(), 8080);
    assert_eq!(ServiceType::PhpFpm.default_port(), 9000);
    assert_eq!(ServiceType::MySQL.default_port(), 3306);
}

#[test]
fn test_service_type_default_ports() {
    // The database listens on 3306, the port that the README's service list and
    // the settings defaults give.
    assert_eq!(ServiceType::Caddy.default_port(), 8080);
    assert_eq!(ServiceType::PhpFpm.default_port(), 9000);
    assert_eq!(ServiceType::MySQL.default_port(), 3306);
}

#[test]
fn test_service_type_descriptions() {
    assert_eq!(ServiceType::Caddy.description(), "Web Server");
    assert_eq!(ServiceType::PhpFpm.description(), "PHP Runtime");
    assert_eq!(ServiceType::MySQL.description(), "Database Server");
}

#[test]
fn test_service_info_creation() {
    let info = ServiceInfo::new(ServiceType::Caddy);
    assert_eq!(info.service_type, ServiceType::Caddy);
    assert_eq!(info.state, ServiceState::Stopped);
    assert_eq!(info.port, 8080);
    assert!(info.error_message.is_none());
}

#[test]
fn ui_commands_test_all_service_types_hashable() {
    let mut set = HashSet::new();
    set.insert(ServiceType::Caddy);
    set.insert(ServiceType::PhpFpm);
    set.insert(ServiceType::MySQL);
    assert_eq!(set.len(), 3);
}

#[test]
fn ui_commands_test_service_map_operations() {
    let mut map: ServiceMap = ServiceMap::new();
    map.insert(ServiceType::Caddy, ServiceInfo::new(ServiceType::Caddy));
    map.insert(ServiceType::PhpFpm, ServiceInfo::new(ServiceType::PhpFpm));
    map.insert(ServiceType::MySQL, ServiceInfo::new(ServiceType::MySQL));
    assert_eq!(map.len(), 3);
    assert!(map.contains_key(&ServiceType::Caddy));
    assert!(map.contains_key(&ServiceType::PhpFpm));
    assert!(map.contains_key(&ServiceType::MySQL));
}

#[test]
fn ui_commands_test_service_state_is_running() {
    assert!(ServiceState::Running.is_running());
    assert!(!ServiceState::Stopped.is_running());
    assert!(!ServiceState::Starting.is_running());
    assert!(!ServiceState::Stopping.is_running());
    assert!(!ServiceState::Error.is_running());
}

#[test]
fn ui_commands_test_service_state_is_transitioning() {
    assert!(ServiceState::Starting.is_transitioning());
    assert!(ServiceState::Stopping.is_transitioning());
    assert!(!ServiceState::Stopped.is_transitioning());
    assert!(!ServiceState::Running.is_transitioning());
    assert!(!ServiceState::Error.is_transitioning());
}

#[test]
fn postgresql_has_its_own_port_and_binary() {
    assert_eq!(ServiceType::PostgreSQL.default_port(), 5432);
    assert_eq!(ServiceType::PostgreSQL.binary_name(), "postgres");
    assert_eq!(ServiceType::PostgreSQL.display_name(), "PostgreSQL");
    assert_eq!(ServiceType::PostgreSQL.description(), "Database Server");
}
