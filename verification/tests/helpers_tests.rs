use champ::launch::file_extension;
use champ::launch::{database_start_step, DatabaseKind, DatabaseStartAction, DatabaseStartStep};
use champ::launch::{stale_pid_files, DirFile};
use champ::launch::{mysql_lock_files, mysql_system_dir_missing};
use champ::launch::{
    caddy_port_still_busy, exited_immediately, initdb_missing, postgresql_pid_file, postgresql_port_busy_line,
    postgresql_port_still_busy, postgresql_reuse_line,
};
use champ::downloader::{
    complete_progress, extracting_progress, installed_version_inserts, selected_php_id, BinaryComponent,
    DownloadStep, MarkerFile, Platform,
};
use champ::downloader::{installed_component_markers, listed_version_markers};
use champ::locator::php_version_marker;
use champ::launch::{database_client_binary, mysql_login_args, read_postgresql_pid};
use champ::packages::PackageSelection;
use champ::platform::{caddy_cleaned_line, caddy_stopped_line, mysql_cleaned_line, mysql_duplicates_line, mysql_stopped_line};

fn marker(component: &str, content: Option<&str>) -> MarkerFile {
    MarkerFile { component: component.to_string(), content: content.map(|c| c.to_string()) }
}

fn pair(a: &str, b: &str) -> (String, String) {
    (a.to_string(), b.to_string())
}

#[test]
fn installed_versions_come_from_markers_with_caddy_default() {
    let markers = vec![
        marker("php", Some("component=php\nversion=8.4.1\n")),
        marker("mysql", None),
        marker("phpmyadmin", Some("version=5.2.1")),
        marker("node", Some("no version here")),
    ];
    assert_eq!(
        installed_version_inserts(&markers, true, "2.11.2"),
        vec![pair("php", "8.4.1"), pair("adminer", "5.2.1"), pair("caddy", "2.11.2")]
    );
    assert_eq!(
        installed_version_inserts(&markers, false, "2.11.2"),
        vec![pair("php", "8.4.1"), pair("phpmyadmin", "5.2.1"), pair("caddy", "2.11.2")]
    );
}

#[test]
fn installed_caddy_marker_wins_over_the_default() {
    let markers = vec![marker("caddy", Some("version=2.10.0"))];
    assert_eq!(installed_version_inserts(&markers, true, "2.11.2"), vec![pair("caddy", "2.10.0")]);
}

#[test]
fn php_id_comes_from_the_selection_first() {
    let selection = PackageSelection {
        php: "php-8.3".to_string(),
        mysql: "mysql-8.4".to_string(),
        postgresql: "postgresql-17".to_string(),
        phpmyadmin: "adminer-5".to_string(),
        node: None,
        python: None,
        go: None,
        ruby: None,
    };
    assert_eq!(selected_php_id(&Some(selection), "php-8.4"), "php-8.3");
    assert_eq!(selected_php_id(&None, "php-8.4"), "php-8.4");
}

#[test]
fn progress_reports() {
    let p = extracting_progress(BinaryComponent::MySQL, "MySQL".to_string(), "8.4.3".to_string(), 3);
    assert!(matches!(p.step, DownloadStep::Extracting));
    assert_eq!(p.percent, 0);
    assert_eq!(p.current_component, "MySQL");
    assert_eq!(p.version, "8.4.3");
    assert_eq!(p.total_components, 3);
    let p = complete_progress(4);
    assert!(matches!(p.step, DownloadStep::Complete));
    assert_eq!(p.percent, 100);
    assert_eq!(p.current_component, "All");
    assert_eq!(p.component_display, "All Components");
    assert_eq!(p.version, "");
    assert_eq!(p.total_components, 4);
}

#[test]
fn platform_keys() {
    assert_eq!(Platform::current("windows", "x86_64").url_key(), "windowsX64");
    assert_eq!(Platform::current("macos", "aarch64").url_key(), "macOSArm64");
    assert_eq!(Platform::current("linux", "aarch64").url_key(), "linuxArm64");
    assert_eq!(Platform::current("freebsd", "riscv64").url_key(), "linuxX64");
}

#[test]
fn database_client_lies_beside_the_server() {
    assert_eq!(database_client_binary("/opt/mysql/bin/mysqld", false), "/opt/mysql/bin/mysql");
    assert_eq!(database_client_binary("C:\\mysql\\bin\\mysqld.exe", true), "C:\\mysql\\bin/mysql.exe");
}

#[test]
fn mysql_login_check_arguments() {
    assert_eq!(
        mysql_login_args(3307),
        vec![
            "--protocol=TCP", "-h", "127.0.0.1", "-P", "3307", "-u", "root", "--password=", "--connect-timeout=2", "-e",
            "SELECT 1",
        ]
    );
}

#[test]
fn postgresql_pid_is_the_first_line() {
    assert_eq!(read_postgresql_pid(" 4242 \n/var/lib/postgresql\n"), Some(4242));
    assert_eq!(read_postgresql_pid(""), None);
    assert_eq!(read_postgresql_pid("not-a-pid\n12"), None);
}

#[test]
fn stale_process_log_lines() {
    assert_eq!(caddy_stopped_line(77), "Stopped stale Caddy process (pid 77)");
    assert_eq!(caddy_cleaned_line(2), "Cleaned up 2 stale Caddy process(es)");
    assert_eq!(mysql_duplicates_line(3), "WARNING: Found 3 MySQL processes running. Cleaning up duplicates...");
    assert_eq!(mysql_stopped_line(9), "Stopped duplicate MySQL process (pid 9)");
    assert_eq!(mysql_cleaned_line(0), "Cleaned up 0 duplicate MySQL process(es)");
}

#[test]
fn marker_lists_and_paths() {
    assert_eq!(installed_component_markers(), vec!["caddy", "php", "mysql", "adminer", "phpmyadmin"]);
    let listed = listed_version_markers();
    assert_eq!(listed.len(), 11);
    assert_eq!(listed[3], "postgresql");
    assert_eq!(listed[10], "cloudflared");
    assert_eq!(php_version_marker("/rt", "php-8.4"), "/rt/php_versions/php-8.4_installed.txt");
}

#[test]
fn file_extensions_are_compared_exactly() {
    assert_eq!(file_extension("mysqld.pid"), Some(vec!['p', 'i', 'd']));
    assert_eq!(file_extension("host.PID"), Some(vec!['P', 'I', 'D']));
    assert_eq!(file_extension(".pid"), None);
    assert_eq!(file_extension("noext"), None);
}

#[test]
fn stale_pid_files_are_those_of_gone_processes() {
    let files = vec![
        DirFile { name: "a.pid".to_string(), content: Some(" 100\n".to_string()) },
        DirFile { name: "b.pid".to_string(), content: Some("200".to_string()) },
        DirFile { name: "c.PID".to_string(), content: Some("300".to_string()) },
        DirFile { name: "d.pid".to_string(), content: Some("junk".to_string()) },
        DirFile { name: "e.err".to_string(), content: Some("400".to_string()) },
        DirFile { name: "f.pid".to_string(), content: None },
    ];
    let alive = |pid: u32| pid == 200;
    assert_eq!(stale_pid_files(&files, &alive), vec!["a.pid".to_string()]);
}

#[test]
fn mysql_integrity_files_and_messages() {
    assert_eq!(
        mysql_lock_files("/d/mysql/data"),
        vec!["/d/mysql/data/ibdata1.lock", "/d/mysql/data/ib_logfile0.lock", "/d/mysql/data/mysql.sock.lock"]
    );
    assert_eq!(
        mysql_system_dir_missing("\"/d/mysql/data/mysql\""),
        "MySQL system directory not found at \"/d/mysql/data/mysql\". The data directory may be corrupted. Try stopping all services and restarting CHAMP."
    );
}

#[test]
fn postgresql_start_messages() {
    assert_eq!(postgresql_pid_file("/d/pg"), "/d/pg/postmaster.pid");
    assert_eq!(
        initdb_missing("/d/pg/bin/initdb"),
        "PostgreSQL initdb binary not found at /d/pg/bin/initdb. Please ensure the PostgreSQL runtime was downloaded correctly."
    );
    assert_eq!(
        postgresql_reuse_line(12, 5432),
        "CHAMP found an existing PostgreSQL process (pid 12) on 127.0.0.1:5432 and will reuse it."
    );
    assert_eq!(
        postgresql_port_busy_line(5432),
        "Port 5432 is in use. Attempting to stop conflicting PostgreSQL processes..."
    );
    assert_eq!(
        postgresql_port_still_busy(5433),
        "Port 5433 is still in use after cleanup. PostgreSQL cannot start. You can change the PostgreSQL port in Settings."
    );
    assert_eq!(exited_immediately("Caddy"), "Caddy exited immediately");
    assert_eq!(
        caddy_port_still_busy(8080),
        "Port 8080 is still in use. Stop the existing web server on this port and try again."
    );
}

#[test]
fn a_running_database_server_is_adopted() {
    assert_eq!(
        database_start_step(DatabaseKind::MySql, 3306, DatabaseStartStep::Looked(Some(77))),
        DatabaseStartAction::Adopt {
            pid: 77,
            log_line: "CHAMP found an existing MySQL process (pid 77) on 127.0.0.1:3306 and will reuse it.".to_string(),
        }
    );
    assert_eq!(
        database_start_step(DatabaseKind::PostgreSql, 5432, DatabaseStartStep::Looked(None)),
        DatabaseStartAction::CheckPort
    );
    assert_eq!(
        database_start_step(DatabaseKind::PostgreSql, 5432, DatabaseStartStep::PortChecked(true)),
        DatabaseStartAction::Launch
    );
}

#[test]
fn a_taken_database_port_is_cleared_or_refused() {
    assert_eq!(
        database_start_step(DatabaseKind::MySql, 3306, DatabaseStartStep::PortChecked(false)),
        DatabaseStartAction::StopConflicts {
            log_line: "Port 3306 is in use. Attempting to stop conflicting MySQL processes...".to_string(),
        }
    );
    assert_eq!(
        database_start_step(DatabaseKind::MySql, 3306, DatabaseStartStep::ConflictsStopped(2)),
        DatabaseStartAction::RecheckPort {
            log_line: Some("Stopped 2 conflicting MySQL process(es)".to_string()),
            wait: true,
        }
    );
    assert_eq!(
        database_start_step(DatabaseKind::PostgreSql, 5432, DatabaseStartStep::ConflictsStopped(2)),
        DatabaseStartAction::RecheckPort { log_line: None, wait: true }
    );
    assert_eq!(
        database_start_step(DatabaseKind::MySql, 3306, DatabaseStartStep::ConflictsStopped(0)),
        DatabaseStartAction::RecheckPort { log_line: None, wait: false }
    );
    assert_eq!(
        database_start_step(DatabaseKind::PostgreSql, 5432, DatabaseStartStep::PortRechecked(false)),
        DatabaseStartAction::Fail(
            "Port 5432 is still in use after cleanup. PostgreSQL cannot start. You can change the PostgreSQL port in Settings."
                .to_string()
        )
    );
    assert_eq!(
        database_start_step(DatabaseKind::MySql, 3306, DatabaseStartStep::PortRechecked(true)),
        DatabaseStartAction::Launch
    );
}
