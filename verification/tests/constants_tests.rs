use champ::constants::{
    default_port_release_timeout, log_file_retry_delay, mysql_init_check_delay, mysql_port_release_timeout,
    port_check_timeout, process_stop_wait_timeout, DEFAULT_PORT_RELEASE_TIMEOUT_SECS, LOG_FILE_RETRY_DELAY_MS,
    MAX_LOG_FILE_RETRY, MAX_LOG_TAIL_LINES, MYSQL_INIT_CHECK_DELAY_MS, MYSQL_PORT_RELEASE_TIMEOUT_SECS,
    PORT_CHECK_TIMEOUT_MS, PROCESS_STOP_WAIT_TIMEOUT_SECS,
};

#[test]
fn test_constants_are_reasonable() {
    assert!(MAX_LOG_FILE_RETRY > 0);
    assert!(LOG_FILE_RETRY_DELAY_MS > 0);
    assert!(MAX_LOG_TAIL_LINES > 0);
    assert!(MYSQL_PORT_RELEASE_TIMEOUT_SECS > DEFAULT_PORT_RELEASE_TIMEOUT_SECS);
    assert!(PORT_CHECK_TIMEOUT_MS < 1000);
}

#[test]
fn test_duration_helpers() {
    assert_eq!(mysql_port_release_timeout().as_secs(), MYSQL_PORT_RELEASE_TIMEOUT_SECS);
    assert_eq!(default_port_release_timeout().as_secs(), DEFAULT_PORT_RELEASE_TIMEOUT_SECS);
    assert_eq!(port_check_timeout().as_millis(), PORT_CHECK_TIMEOUT_MS as u128);
}

#[test]
fn other_timeouts_match_their_constants() {
    assert_eq!(process_stop_wait_timeout().as_secs(), PROCESS_STOP_WAIT_TIMEOUT_SECS);
    assert_eq!(mysql_init_check_delay().as_millis(), MYSQL_INIT_CHECK_DELAY_MS as u128);
    assert_eq!(log_file_retry_delay().as_millis(), LOG_FILE_RETRY_DELAY_MS as u128);
    assert_eq!(mysql_port_release_timeout().as_millis(), 8000);
}
