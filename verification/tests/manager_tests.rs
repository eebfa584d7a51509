use champ::manager::{active_database_service, stack_start_services};
use champ::ports::select_caddy_port;
use champ::manager::{
    format_exit_status, format_process_exit_error, read_log_tail, Attachment, ExitStatusInfo, HealthProbe,
    ProcessManager, StopPlan,
};
use champ::packages::PackageSelection;
use champ::ports::{find_available_port, find_available_port_excluding, first_fallback_port, select_available_port};
use champ::service::{ServiceState, ServiceType};
use champ::settings::{default_ports, AppSettings};
use champ::manager::HealthObservation;

fn selection() -> PackageSelection {
    PackageSelection {
        php: "php-8.4".to_string(),
        mysql: "mysql-8.4".to_string(),
        postgresql: "postgresql-17".to_string(),
        phpmyadmin: "phpmyadmin-5.2".to_string(),
        node: None,
        python: None,
        go: None,
        ruby: None,
    }
}

fn new_manager() -> ProcessManager {
    ProcessManager::with_settings(AppSettings::defaults("/srv/projects".to_string(), selection()))
}

fn nonzero_exit_status() -> ExitStatusInfo {
    ExitStatusInfo { code: Some(7), signal: None, debug: "ExitStatus(unix_wait_status(1792))".to_string() }
}

#[test]
fn test_mysql_default_fallback_does_not_use_first_adjacent_port() {
    assert_eq!(
        first_fallback_port(ServiceType::MySQL, default_ports().mysql),
        default_ports().mysql + 2
    );
}

#[test]
fn test_find_available_port_returns_preferred_if_available() {
    let test_port = 59998;
    let found = find_available_port(test_port, &|_p: u16| true);
    assert_eq!(found, test_port);
}

#[test]
fn test_find_available_port_skips_busy_preferred_port() {
    let preferred_port = 41234;
    let selected = find_available_port_excluding(ServiceType::Caddy, preferred_port, &[], &|p: u16| {
        p != preferred_port
    })
    .expect("expected fallback port");
    assert_ne!(selected, preferred_port);
    assert_eq!(selected, preferred_port + 1);
}

#[test]
fn test_find_available_port_skips_reserved_stack_ports() {
    let preferred_port = 41234;
    let selected =
        find_available_port_excluding(ServiceType::PhpFpm, preferred_port, &[preferred_port], &|_p: u16| true)
            .expect("expected fallback port");
    assert_ne!(selected, preferred_port);
}

#[test]
fn no_free_port_is_reported() {
    let r = select_available_port(ServiceType::MySQL, 3306, &[], &|_p: u16| false);
    assert_eq!(r, Err("No available fallback port found for MySQL near 3306.".to_string()));
}

#[test]
fn test_format_exit_status_human_readable() {
    let status = nonzero_exit_status();
    let formatted = format_exit_status(&status);
    assert!(formatted.contains("7"), "unexpected format: {}", formatted);
    assert!(!formatted.contains("ExitStatus("), "status should be user-friendly: {}", formatted);
}

#[test]
fn test_format_process_exit_error_includes_log_tail() {
    let status = nonzero_exit_status();
    let message = format_process_exit_error(
        "Service exited unexpectedly",
        &status,
        &Some("/tmp/champ-process-error.log".to_string()),
        &Some("line 1\nline 2\nline 3\nfatal startup error on line 4\n".to_string()),
    );
    assert!(message.contains("exit code 7"));
    assert!(message.contains("Log file:"));
    assert!(message.contains("fatal startup error on line 4"));
}

#[test]
fn log_tail_keeps_the_last_lines() {
    assert_eq!(read_log_tail("a\nb\nc\n", 2), Some("b\nc".to_string()));
    assert_eq!(read_log_tail("  \n", 5), None);
}

#[test]
fn mod_test_process_manager_new() {
    let manager = new_manager();
    assert_eq!(manager.service_count(), 4);
    assert_eq!(manager.status(ServiceType::Caddy), ServiceState::Stopped);
    assert_eq!(manager.port(ServiceType::Caddy), 8080);
    assert!(!manager.has_child(ServiceType::Caddy));
    assert_eq!(manager.status(ServiceType::PostgreSQL), ServiceState::Stopped);
    assert_eq!(manager.port(ServiceType::PostgreSQL), 5432);
}

#[test]
fn mod_test_process_manager_default() {
    let manager = new_manager();
    assert_eq!(manager.service_count(), 4);
    assert!(manager.runtime_paths().is_none());
}

#[test]
fn mod_test_status_of_service() {
    let manager = new_manager();
    assert_eq!(manager.status(ServiceType::Caddy), ServiceState::Stopped);
    assert_eq!(manager.status(ServiceType::PhpFpm), ServiceState::Stopped);
    assert_eq!(manager.status(ServiceType::MySQL), ServiceState::Stopped);
    assert_eq!(manager.status(ServiceType::PostgreSQL), ServiceState::Stopped);
}

#[test]
fn mod_test_get_all_statuses() {
    let manager = new_manager();
    let statuses = manager.get_all_statuses();
    assert_eq!(statuses.len(), 4);
    let caddy_info = statuses.get(&ServiceType::Caddy).unwrap();
    assert_eq!(caddy_info.service_type, ServiceType::Caddy);
    assert_eq!(caddy_info.state, ServiceState::Stopped);
    assert_eq!(caddy_info.port, 8080);
}

#[test]
fn mod_test_stop_already_stopped_service() {
    let mut manager = new_manager();
    let plan = manager.begin_stop(ServiceType::Caddy);
    assert!(matches!(plan, StopPlan::NotRunning));
    assert_eq!(manager.status(ServiceType::Caddy), ServiceState::Stopped);
}

#[test]
fn mod_test_service_error_state_handling() {
    let mut manager = new_manager();
    let r = manager.finish_start(ServiceType::MySQL, Err("Test error".to_string()));
    assert!(r.is_err());
    assert_eq!(manager.status(ServiceType::MySQL), ServiceState::Error);
    let statuses = manager.get_all_statuses();
    let mysql_info = statuses.get(&ServiceType::MySQL).unwrap();
    assert_eq!(mysql_info.state, ServiceState::Error);
    assert_eq!(mysql_info.error_message, Some("Test error".to_string()));
}

#[test]
fn mod_test_update_health_with_no_processes() {
    let manager = new_manager();
    for t in [ServiceType::Caddy, ServiceType::PhpFpm, ServiceType::MySQL, ServiceType::PostgreSQL] {
        assert_eq!(manager.health_probe(t), HealthProbe::Nothing);
        assert_eq!(manager.status(t), ServiceState::Stopped);
    }
}

#[test]
fn mod_test_port_assignment_for_services() {
    let manager = new_manager();
    assert_eq!(manager.port(ServiceType::Caddy), 8080);
    assert_eq!(manager.port(ServiceType::PhpFpm), 9000);
    assert_eq!(manager.port(ServiceType::MySQL), 3306);
    assert_eq!(manager.port(ServiceType::PostgreSQL), 5432);
}

fn located_paths() -> champ::locator::RuntimePaths {
    champ::locator::RuntimePaths {
        caddy: "/d/runtime/caddy/caddy".to_string(),
        php_cgi: "/d/runtime/php/php-cgi".to_string(),
        php_ini: "/d/config/php.ini".to_string(),
        php_ext_dir: "/d/runtime/php/ext".to_string(),
        mysql: "/d/runtime/mysql/bin/mysqld".to_string(),
        postgresql: "/d/runtime/postgresql/bin/postgres".to_string(),
        adminer: "/d/config/adminer".to_string(),
        node: None,
        python: None,
        go: None,
        ruby: None,
        mysql_data_dir: "/d/mysql/data".to_string(),
        postgresql_data_dir: "/d/postgresql/data".to_string(),
        logs_dir: "/d/logs".to_string(),
        config_dir: "/d/config".to_string(),
        projects_dir: "/d/projects".to_string(),
    }
}

#[test]
fn mod_test_multiple_services_have_independent_states() {
    let mut manager = new_manager();
    manager.set_runtime_paths(located_paths());

    let _ = manager.finish_start(ServiceType::Caddy, Ok(Attachment::Child { log_file: "caddy.log".to_string() }));
    let plan = manager.prepare_start(ServiceType::PhpFpm, &|_port: u16| true, || Ok(0));
    assert!(plan.is_ok());

    assert_eq!(manager.status(ServiceType::Caddy), ServiceState::Running);
    assert_eq!(manager.status(ServiceType::PhpFpm), ServiceState::Starting);
    assert_eq!(manager.status(ServiceType::MySQL), ServiceState::Stopped);
}

#[test]
fn mod_test_all_services_use_correct_binary_names() {
    let manager = new_manager();

    for (service_type, info) in manager.get_all_statuses() {
        assert_eq!(info.service_type, service_type);
        assert_eq!(info.service_type.binary_name(), service_type.binary_name());
    }
}

#[test]
fn every_service_names_its_binary() {
    assert_eq!(ServiceType::Caddy.binary_name(), "caddy");
    assert_eq!(ServiceType::PhpFpm.binary_name(), "php-cgi");
    assert_eq!(ServiceType::MySQL.binary_name(), "mysqld");
    assert_eq!(ServiceType::PostgreSQL.binary_name(), "postgres");
}

#[test]
fn test_service_port_assignment() {
    let manager = new_manager();
    let statuses = manager.get_all_statuses();
    assert_eq!(statuses[&ServiceType::Caddy].port, 8080);
    assert_eq!(statuses[&ServiceType::PhpFpm].port, 9000);
    assert_eq!(statuses[&ServiceType::MySQL].port, 3306);
}

#[test]
fn test_status_check_returns_correct_state() {
    let manager = new_manager();
    assert_eq!(manager.status(ServiceType::Caddy), ServiceState::Stopped);
}

#[test]
fn test_stop_stopped_service_is_ok() {
    let mut manager = new_manager();
    assert!(matches!(manager.begin_stop(ServiceType::Caddy), StopPlan::NotRunning));
}

#[test]
fn test_initial_service_state_is_stopped() {
    let manager = new_manager();
    for (_t, info) in manager.get_all_statuses().iter() {
        assert_eq!(info.state, ServiceState::Stopped);
    }
}

#[test]
fn stopping_an_adopted_database_terminates_it() {
    let mut manager = new_manager();
    let _ = manager.finish_start(ServiceType::MySQL, Ok(Attachment::Adopted { pid: 42, log_file: "m.log".to_string() }));
    match manager.begin_stop(ServiceType::MySQL) {
        StopPlan::Stop { kill_child, terminate_pid, wait, .. } => {
            assert!(!kill_child);
            assert_eq!(terminate_pid, Some(42));
            assert!(wait.is_none(), "without located binaries nothing is waited for");
        },
        StopPlan::NotRunning => panic!("MySQL was running"),
    }
    assert_eq!(manager.status(ServiceType::MySQL), ServiceState::Stopping);
    manager.finish_stop(ServiceType::MySQL);
    assert_eq!(manager.status(ServiceType::MySQL), ServiceState::Stopped);
    assert_eq!(manager.adopted_pid(ServiceType::MySQL), None);
}

#[test]
fn php_always_waits_for_its_port() {
    let mut manager = new_manager();
    let _ = manager.finish_start(ServiceType::PhpFpm, Ok(Attachment::Child { log_file: "php.log".to_string() }));
    match manager.begin_stop(ServiceType::PhpFpm) {
        StopPlan::Stop { kill_child, wait, .. } => {
            assert!(kill_child);
            let (port, timeout) = wait.expect("PHP waits for its port");
            assert_eq!(port, 9000);
            assert_eq!(timeout.as_secs(), 4);
        },
        StopPlan::NotRunning => panic!("PHP was running"),
    }
}

#[test]
fn running_services_follow_the_manager_order() {
    let mut manager = new_manager();
    assert!(manager.running_services().is_empty());
    let _ = manager.finish_start(ServiceType::MySQL, Ok(Attachment::Child { log_file: "m.log".to_string() }));
    let _ = manager.finish_start(ServiceType::Caddy, Ok(Attachment::Child { log_file: "c.log".to_string() }));
    assert_eq!(manager.running_services(), vec![ServiceType::Caddy, ServiceType::MySQL]);
}

#[test]
fn updated_settings_move_every_port() {
    let mut manager = new_manager();
    let mut settings = AppSettings::defaults("/srv/projects".to_string(), selection());
    settings.web_port = 8181;
    settings.php_port = 9101;
    settings.mysql_port = 3310;
    settings.postgresql_port = 5440;
    manager.update_ports(&settings);
    assert_eq!(manager.web_port(), 8181);
    assert_eq!(manager.php_port(), 9101);
    assert_eq!(manager.mysql_port(), 3310);
    assert_eq!(manager.postgresql_port(), 5440);
    assert_eq!(manager.status(ServiceType::Caddy), ServiceState::Stopped);
}

#[test]
fn health_of_a_child_process() {
    let mut manager = new_manager();
    let _ = manager.finish_start(ServiceType::Caddy, Ok(Attachment::Child { log_file: "c.log".to_string() }));
    assert_eq!(manager.health_probe(ServiceType::Caddy), HealthProbe::Child);
    manager.apply_health(ServiceType::Caddy, HealthObservation::ChildRunning);
    assert_eq!(manager.status(ServiceType::Caddy), ServiceState::Running);
    manager.apply_health(ServiceType::Caddy, HealthObservation::ChildCheckFailed);
    assert_eq!(manager.status(ServiceType::Caddy), ServiceState::Error);
    assert_eq!(manager.error_message(ServiceType::Caddy).as_deref(), Some("Failed to check process status"));
    manager.apply_health(
        ServiceType::Caddy,
        HealthObservation::ChildExited { status: nonzero_exit_status(), log_content: None },
    );
    assert_eq!(manager.status(ServiceType::Caddy), ServiceState::Error);
    assert!(!manager.has_child(ServiceType::Caddy));
    let message = manager.error_message(ServiceType::Caddy).unwrap();
    assert!(message.starts_with("Caddy process exited unexpectedly"));
    assert_eq!(manager.health_probe(ServiceType::Caddy), HealthProbe::Nothing);
}

#[test]
fn health_of_an_adopted_process() {
    let mut manager = new_manager();
    let _ = manager.finish_start(ServiceType::MySQL, Ok(Attachment::Adopted { pid: 77, log_file: "m.log".to_string() }));
    assert_eq!(manager.health_probe(ServiceType::MySQL), HealthProbe::Adopted(77));
    manager.apply_health(ServiceType::MySQL, HealthObservation::ChildRunning);
    assert_eq!(manager.status(ServiceType::MySQL), ServiceState::Running);
    manager.apply_health(ServiceType::MySQL, HealthObservation::AdoptedGone);
    assert_eq!(manager.status(ServiceType::MySQL), ServiceState::Error);
    assert_eq!(manager.adopted_pid(ServiceType::MySQL), None);
    assert_eq!(
        manager.error_message(ServiceType::MySQL).as_deref(),
        Some("MySQL process exited unexpectedly (pid 77)")
    );
    assert_eq!(manager.status(ServiceType::Caddy), ServiceState::Stopped);
}

#[test]
fn port_bookkeeping_of_the_manager() {
    let settings = AppSettings::defaults("/srv/projects".to_string(), selection());
    assert_eq!(ProcessManager::port_for_service(ServiceType::PostgreSQL, &settings), 5432);
    let mut manager = new_manager();
    assert_eq!(manager.reserved_ports_except(ServiceType::MySQL), vec![8080, 9000, 5432]);
    manager.set_runtime_port(ServiceType::MySQL, 3310);
    assert_eq!(manager.mysql_port(), 3310);
    assert_eq!(manager.settings().mysql_port, 3310);
    let m = manager.record_port_fallback(ServiceType::Caddy, 8080, 8081);
    assert_eq!(m, "Caddy port 8080 is in use; using fallback port 8081.");
    assert_eq!(manager.web_port(), 8081);
    assert_eq!(manager.error_message(ServiceType::Caddy).as_deref(), Some(m.as_str()));
    assert_eq!(active_database_service("adminer-5.4"), ServiceType::PostgreSQL);
    assert_eq!(active_database_service("phpmyadmin-5.2"), ServiceType::MySQL);
    assert_eq!(
        stack_start_services("adminer-5.4"),
        vec![ServiceType::PhpFpm, ServiceType::PostgreSQL, ServiceType::Caddy]
    );
}

#[test]
fn caddy_port_prefers_stopping_stale_servers() {
    let free_after_stop = std::cell::Cell::new(false);
    let probe = |p: u16| p != 8080 || free_after_stop.get();
    let chosen = select_caddy_port(8080, &[9000, 3306], &probe, || {
        free_after_stop.set(true);
        Ok(1)
    });
    assert_eq!(chosen, Ok(8080));
    let busy = |p: u16| p != 8080;
    assert_eq!(select_caddy_port(8080, &[9000, 3306], &busy, || Ok(0)), Ok(8081));
    assert_eq!(
        select_caddy_port(8080, &[], &busy, || Err("Failed to inspect Caddy processes".to_string())),
        Err("Failed to inspect Caddy processes".to_string())
    );
    assert_eq!(select_caddy_port(9000, &[9000], &|_p: u16| true, || Ok(0)), Ok(9001));
}

#[test]
fn stack_ports_move_in_start_order() {
    let mut manager = new_manager();
    manager.set_runtime_paths(located_paths());
    let busy = |p: u16| p != 9000 && p != 8080;
    let messages = manager.prepare_stack_ports("phpmyadmin-5.2", &busy, || Ok(0)).expect("ports found");
    assert_eq!(
        messages,
        vec![
            "PHP-FPM 8.5 port 9000 is in use; using fallback port 9001.".to_string(),
            "Caddy port 8080 is in use; using fallback port 8081.".to_string(),
        ]
    );
    assert_eq!(manager.php_port(), 9001);
    assert_eq!(manager.mysql_port(), 3306);
    assert_eq!(manager.web_port(), 8081);
}

#[test]
fn the_last_port_is_returned_when_free_or_busy() {
    assert_eq!(find_available_port(65535, &|_p: u16| true), 65535);
    assert_eq!(find_available_port(65535, &|_p: u16| false), 65535);
    assert_eq!(find_available_port(65534, &|p: u16| p == 65535), 65534);
}

#[test]
fn stack_ports_need_runtime_paths() {
    let mut manager = new_manager();
    let busy = |p: u16| p != 9000 && p != 8080;
    assert_eq!(
        manager.prepare_stack_ports("phpmyadmin-5.2", &busy, || Ok(0)),
        Err("Runtime paths not initialized".to_string())
    );
    assert_eq!(manager.php_port(), 9000);
    assert_eq!(manager.web_port(), 8080);
}
