//! The PHP configuration written before PHP starts: `php.ini` and the
//! PHP-FPM pool configuration.

use vstd::prelude::*;
use crate::locator::{join_path, join_spec, parent_path, parent_spec};
use crate::text::{chars_of, decimal, decimal_string, push_str, replace_char, replace_char_chars, string_from_chars};

verus! {

broadcast use vstd::string::group_string_axioms;

/// A path with backslashes turned into slashes, as PHP accepts on every
/// platform.
pub open spec fn slashed(p: Seq<char>) -> Seq<char> {
    replace_char(p, '\\', '/')
}

/// A path with backslashes turned into slashes.
fn to_slashes(p: &str) -> (r: String)
    ensures
        r@ == slashed(p@),
{
    string_from_chars(replace_char_chars(chars_of(p).as_slice(), '\\', '/').as_slice())
}

/// The `php.ini` for development: errors logged to `error_log`, extensions
/// loaded from `ext_dir`, sessions and uploads kept in `session`.
pub open spec fn php_ini_text(error_log: Seq<char>, ext_dir: Seq<char>, session: Seq<char>) -> Seq<char> {
    "; CHAMP PHP Configuration\n; Basic PHP settings for development\n\n[PHP]\n; Error reporting - tuned for local development\nerror_reporting = E_ALL & ~E_DEPRECATED & ~E_WARNING\ndisplay_errors = On\ndisplay_startup_errors = Off\nlog_errors = On\nerror_log = \""@ + error_log + "\"\n\n; Maximum execution time\nmax_execution_time = 300\nmax_input_time = 300\n\n; Memory limit\nmemory_limit = 256M\n\n; POST data limit\npost_max_size = 100M\nupload_max_filesize = 100M\nmax_input_vars = 5000\n\n; Date timezone\ndate.timezone = UTC\n\n; Extensions - use absolute path for reliability\n; Note: zlib and session are built-in to PHP 8.3 and cannot be loaded as extensions\nextension_dir = \""@ + ext_dir + "\"\nextension=curl\nextension=mbstring\nextension=mysqli\nextension=openssl\nextension=pdo\nextension=pdo_mysql\n\n; Session settings - use absolute path for Windows compatibility\nsession.save_path = \""@ + session + "\"\nsession.cookie_httponly = 1\nsession.use_strict_mode = 1\nsession.use_cookies = 1\nsession.use_trans_sid = 0\n\n; File uploads\nupload_tmp_dir = \""@ + session + "\"\n\n; CGI settings\ncgi.force_redirect = 0\ncgi.fix_pathinfo = 1\n\n; Security settings\nexpose_php = Off\n\n; OPcache settings optimized for local PHP projects\nzend_extension=opcache\nopcache.enable=1\nopcache.memory_consumption=256\nopcache.interned_strings_buffer=16\nopcache.max_accelerated_files=40000\nopcache.revalidate_freq=60\nopcache.fast_shutdown=1\nopcache.enable_cli=0\nopcache.validate_timestamps=1\nopcache.save_comments=1\nopcache.jit=tracing\nopcache.jit_buffer_size=128M\n\n; Realpath cache for better file path resolution (doubled)\nrealpath_cache_size=8192K\nrealpath_cache_ttl=300\n"@
}

/// The `php.ini` for a PHP binary, with its logs in `logs_dir`: extensions
/// in the `ext` folder beside the binary; a binary in no folder is refused.
pub open spec fn php_ini_for(php_binary: Seq<char>, logs_dir: Seq<char>) -> Result<Seq<char>, Seq<char>> {
    match parent_spec(php_binary) {
        None => Err("Cannot determine PHP directory"@),
        Some(dir) => Ok(
            php_ini_text(
                slashed(join_spec(logs_dir, "php-errors.log"@)),
                slashed(join_spec(dir, "ext"@)),
                slashed(join_spec(logs_dir, "php-sessions"@)),
            ),
        ),
    }
}

/// The `php.ini` for a PHP binary, with its logs in `logs_dir`.
pub fn php_ini_content(php_binary: &str, logs_dir: &str) -> (r: Result<String, String>)
    ensures
        match php_ini_for(php_binary@, logs_dir@) {
            Ok(t) => r matches Ok(x) && x@ == t,
            Err(e) => r matches Err(x) && x@ == e,
        },
{
    let dir = match parent_path(php_binary) {
        Some(d) => d,
        None => {
            return Err("Cannot determine PHP directory".to_string());
        },
    };
    let error_log = to_slashes(join_path(logs_dir, "php-errors.log").as_str());
    let ext_dir = to_slashes(join_path(dir.as_str(), "ext").as_str());
    let session = to_slashes(join_path(logs_dir, "php-sessions").as_str());
    let mut r = String::new();
    push_str(&mut r, "; CHAMP PHP Configuration\n; Basic PHP settings for development\n\n[PHP]\n; Error reporting - tuned for local development\nerror_reporting = E_ALL & ~E_DEPRECATED & ~E_WARNING\ndisplay_errors = On\ndisplay_startup_errors = Off\nlog_errors = On\nerror_log = \"");
    push_str(&mut r, error_log.as_str());
    push_str(&mut r, "\"\n\n; Maximum execution time\nmax_execution_time = 300\nmax_input_time = 300\n\n; Memory limit\nmemory_limit = 256M\n\n; POST data limit\npost_max_size = 100M\nupload_max_filesize = 100M\nmax_input_vars = 5000\n\n; Date timezone\ndate.timezone = UTC\n\n; Extensions - use absolute path for reliability\n; Note: zlib and session are built-in to PHP 8.3 and cannot be loaded as extensions\nextension_dir = \"");
    push_str(&mut r, ext_dir.as_str());
    push_str(&mut r, "\"\nextension=curl\nextension=mbstring\nextension=mysqli\nextension=openssl\nextension=pdo\nextension=pdo_mysql\n\n; Session settings - use absolute path for Windows compatibility\nsession.save_path = \"");
    push_str(&mut r, session.as_str());
    push_str(&mut r, "\"\nsession.cookie_httponly = 1\nsession.use_strict_mode = 1\nsession.use_cookies = 1\nsession.use_trans_sid = 0\n\n; File uploads\nupload_tmp_dir = \"");
    push_str(&mut r, session.as_str());
    push_str(&mut r, "\"\n\n; CGI settings\ncgi.force_redirect = 0\ncgi.fix_pathinfo = 1\n\n; Security settings\nexpose_php = Off\n\n; OPcache settings optimized for local PHP projects\nzend_extension=opcache\nopcache.enable=1\nopcache.memory_consumption=256\nopcache.interned_strings_buffer=16\nopcache.max_accelerated_files=40000\nopcache.revalidate_freq=60\nopcache.fast_shutdown=1\nopcache.enable_cli=0\nopcache.validate_timestamps=1\nopcache.save_comments=1\nopcache.jit=tracing\nopcache.jit_buffer_size=128M\n\n; Realpath cache for better file path resolution (doubled)\nrealpath_cache_size=8192K\nrealpath_cache_ttl=300\n");
    Ok(r)
}

/// The PHP-FPM configuration: one pool of ten workers run as `user`,
/// listening on `php_port`, logging under `logs` (slashed).
pub open spec fn php_fpm_conf_text(logs: Seq<char>, user: Seq<char>, php_port: u16) -> Seq<char> {
    "; CHAMP PHP-FPM Configuration\n; Optimized for local PHP development\n\n[global]\nerror_log = "@ + logs + "/php-fpm.log\nlog_level = warning\n\n[www]\nuser = "@ + user + "\ngroup = "@ + user + "\nlisten = 127.0.0.1:"@ + decimal(php_port as nat) + "\nlisten.owner = "@ + user + "\nlisten.group = "@ + user + "\nlisten.mode = 0660\n\n; Process manager - static for better performance (no spawning delays)\npm = static\npm.max_children = 10\n\n; Worker recycling to prevent memory leaks\npm.max_requests = 1000\n\n; Request settings for local tools and projects\nrequest_terminate_timeout = 300\nphp_admin_value[error_log] = "@ + logs + "/php-fpm.log\nphp_admin_flag[log_errors] = on\nphp_value[session.save_path] = "@ + logs + "/php-sessions\n\n; Performance tuning\nphp_value[memory_limit] = 256M\n"@
}

/// The PHP-FPM configuration for the logs folder, the user the workers run
/// as, and the port.
pub fn php_fpm_conf_content(logs_dir: &str, user: &str, php_port: u16) -> (r: String)
    ensures
        r@ == php_fpm_conf_text(slashed(logs_dir@), user@, php_port),
{
    let logs = to_slashes(logs_dir);
    let mut r = String::new();
    push_str(&mut r, "; CHAMP PHP-FPM Configuration\n; Optimized for local PHP development\n\n[global]\nerror_log = ");
    push_str(&mut r, logs.as_str());
    push_str(&mut r, "/php-fpm.log\nlog_level = warning\n\n[www]\nuser = ");
    push_str(&mut r, user);
    push_str(&mut r, "\ngroup = ");
    push_str(&mut r, user);
    push_str(&mut r, "\nlisten = 127.0.0.1:");
    push_str(&mut r, decimal_string(php_port as u64).as_str());
    push_str(&mut r, "\nlisten.owner = ");
    push_str(&mut r, user);
    push_str(&mut r, "\nlisten.group = ");
    push_str(&mut r, user);
    push_str(&mut r, "\nlisten.mode = 0660\n\n; Process manager - static for better performance (no spawning delays)\npm = static\npm.max_children = 10\n\n; Worker recycling to prevent memory leaks\npm.max_requests = 1000\n\n; Request settings for local tools and projects\nrequest_terminate_timeout = 300\nphp_admin_value[error_log] = ");
    push_str(&mut r, logs.as_str());
    push_str(&mut r, "/php-fpm.log\nphp_admin_flag[log_errors] = on\nphp_value[session.save_path] = ");
    push_str(&mut r, logs.as_str());
    push_str(&mut r, "/php-sessions\n\n; Performance tuning\nphp_value[memory_limit] = 256M\n");
    r
}

/// The user PHP-FPM workers run as: `USER`, else `USERNAME`, else `nobody`.
pub fn fpm_user(user: Option<String>, username: Option<String>) -> (r: String)
    ensures
        r@ == match user {
            Some(u) => u@,
            None => match username {
                Some(n) => n@,
                None => "nobody"@,
            },
        },
{
    match user {
        Some(u) => u,
        None => match username {
            Some(n) => n,
            None => "nobody".to_string(),
        },
    }
}

} // verus!
