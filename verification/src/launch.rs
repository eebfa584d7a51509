//! How the service processes are launched: their command lines, the files
//! they leave behind, and the messages shown when they fail.

use vstd::prelude::*;
use crate::packages::texts;
use crate::text::{
    chars_of, decimal, decimal_string, eq_chars, lines, lines_of, lower, lower_chars, parse_u32,
    parse_u32_spec, push_chars, push_str, string_from_chars, trim, trim_chars, trim_end_set,
    trim_end_set_chars,
};

verus! {

broadcast use vstd::string::group_string_axioms;

/// The command line of the web server.
pub fn caddy_args(caddyfile: &str) -> (v: Vec<String>)
    ensures
        texts(v@) == seq!["run"@, "--config"@, caddyfile@],
{
    let v = vec!["run".to_string(), "--config".to_string(), caddyfile.to_string()];
    assert(texts(v@) =~= seq!["run"@, "--config"@, caddyfile@]);
    v
}

/// The last component of a path, separators being `/` and `\`, trailing
/// separators ignored.
pub open spec fn file_name_of(p: Seq<char>) -> Seq<char> {
    let t = trim_end_set(p, seq!['/', '\\']);
    match last_separator(t) {
        Some(i) => t.skip(i + 1),
        None => t,
    }
}

/// The index of the last separator of `t`.
pub open spec fn last_separator(t: Seq<char>) -> Option<int> {
    if exists|i: int| 0 <= i < t.len() && (t[i] == '/' || t[i] == '\\') {
        Some(
            choose|i: int|
                0 <= i < t.len() && (t[i] == '/' || t[i] == '\\') && forall|j: int|
                    i < j < t.len() ==> t[j] != '/' && t[j] != '\\',
        )
    } else {
        None
    }
}

/// The last component of a path.
pub fn file_name(path: &str) -> (r: Vec<char>)
    ensures
        r@ == file_name_of(path@),
{
    let p = chars_of(path);
    let seps = ['/', '\\'];
    let t = trim_end_set_chars(p.as_slice(), &seps);
    assert(seps@ =~= seq!['/', '\\']);
    let mut j: usize = t.len();
    while j > 0 && t[j - 1] != '/' && t[j - 1] != '\\'
        invariant
            j <= t.len(),
            forall|m: int| j <= m < t.len() ==> t@[m] != '/' && t@[m] != '\\',
        decreases j,
    {
        j = j - 1;
    }
    proof {
        let tt = t@;
        if j > 0 {
            let k = (j - 1) as int;
            let c = choose|i: int|
                0 <= i < tt.len() && (tt[i] == '/' || tt[i] == '\\') && forall|m: int|
                    i < m < tt.len() ==> tt[m] != '/' && tt[m] != '\\';
            assert(0 <= k < tt.len() && (tt[k] == '/' || tt[k] == '\\'));
            if c < k {
                assert(tt[k] != '/' && tt[k] != '\\');
            }
            if c > k {
                assert(tt[c] != '/' && tt[c] != '\\');
            }
        } else {
            assert(!exists|i: int| 0 <= i < tt.len() && (tt[i] == '/' || tt[i] == '\\'));
            assert(tt.skip(0) =~= tt);
        }
    }
    let r = crate::text::slice_of(t.as_slice(), j, t.len());
    assert(r@ =~= t@.skip(j as int));
    r
}

/// Whether the PHP binary is PHP-FPM (else it is PHP-CGI).
pub fn is_php_fpm(php_binary: &str) -> (b: bool)
    ensures
        b == (file_name_of(php_binary@) == "php-fpm"@),
{
    let n = file_name(php_binary);
    let f = chars_of("php-fpm");
    eq_chars(n.as_slice(), f.as_slice())
}

/// The command line of PHP-FPM: in the foreground, with its configuration
/// and `php.ini`.
pub fn php_fpm_args(fpm_conf: &str, php_ini: &str) -> (v: Vec<String>)
    ensures
        texts(v@) == seq!["-F"@, "-y"@, fpm_conf@, "-c"@, php_ini@],
{
    let v = vec![
        "-F".to_string(),
        "-y".to_string(),
        fpm_conf.to_string(),
        "-c".to_string(),
        php_ini.to_string(),
    ];
    assert(texts(v@) =~= seq!["-F"@, "-y"@, fpm_conf@, "-c"@, php_ini@]);
    v
}

/// The command line of PHP-CGI: FastCGI on the loopback port, with `php.ini`.
pub fn php_cgi_args(port: u16, php_ini: &str) -> (v: Vec<String>)
    ensures
        texts(v@) == seq!["-b"@, "127.0.0.1:"@ + decimal(port as nat), "-c"@, php_ini@],
{
    let mut bind = String::new();
    push_str(&mut bind, "127.0.0.1:");
    let d = decimal_string(port as u64);
    push_str(&mut bind, d.as_str());
    let v = vec!["-b".to_string(), bind, "-c".to_string(), php_ini.to_string()];
    assert(texts(v@) =~= seq!["-b"@, "127.0.0.1:"@ + decimal(port as nat), "-c"@, php_ini@]);
    v
}

/// A data directory without trailing `\` and then without trailing `/`.
pub open spec fn clean_data_dir(d: Seq<char>) -> Seq<char> {
    trim_end_set(trim_end_set(d, seq!['\\']), seq!['/'])
}

/// The command line of the MySQL server: its data directory and port, on
/// the loopback address only, and the first-run init file where there is one.
pub open spec fn mysqld_args_spec(data_dir: Seq<char>, port: u16, init_file: Option<Seq<char>>) -> Seq<Seq<char>> {
    seq![
        "--datadir"@,
        clean_data_dir(data_dir),
        "--port"@,
        decimal(port as nat),
        "--bind-address=127.0.0.1"@,
        "--console"@,
        "--skip-name-resolve"@,
    ] + match init_file {
        Some(f) => seq!["--init-file"@, f],
        None => Seq::empty(),
    }
}

/// The command line of the MySQL server.
pub fn mysqld_args(data_dir: &str, port: u16, init_file: &Option<String>) -> (v: Vec<String>)
    ensures
        texts(v@) == mysqld_args_spec(data_dir@, port, crate::packages::opt_text_of(*init_file)),
{
    let d = chars_of(data_dir);
    let a = trim_end_set_chars(d.as_slice(), &['\\']);
    let b = trim_end_set_chars(a.as_slice(), &['/']);
    assert(['\\']@ =~= seq!['\\']);
    assert(['/']@ =~= seq!['/']);
    let mut v = vec![
        "--datadir".to_string(),
        string_from_chars(b.as_slice()),
        "--port".to_string(),
        decimal_string(port as u64),
        "--bind-address=127.0.0.1".to_string(),
        "--console".to_string(),
        "--skip-name-resolve".to_string(),
    ];
    match init_file {
        Some(f) => {
            v.push("--init-file".to_string());
            v.push(f.clone());
        },
        None => {},
    }
    assert(texts(v@) =~= mysqld_args_spec(data_dir@, port, crate::packages::opt_text_of(*init_file)));
    v
}

/// The command line of the PostgreSQL server, on the loopback address only.
pub fn postgres_args(data_dir: &str, port: u16) -> (v: Vec<String>)
    ensures
        texts(v@) == seq!["-D"@, data_dir@, "-p"@, decimal(port as nat), "-h"@, "127.0.0.1"@],
{
    let v = vec![
        "-D".to_string(),
        data_dir.to_string(),
        "-p".to_string(),
        decimal_string(port as u64),
        "-h".to_string(),
        "127.0.0.1".to_string(),
    ];
    assert(texts(v@) =~= seq!["-D"@, data_dir@, "-p"@, decimal(port as nat), "-h"@, "127.0.0.1"@]);
    v
}

/// The command line that creates a PostgreSQL data directory: user
/// `postgres`, trust authentication (the server only listens on the loopback
/// address), UTF-8.
pub fn initdb_args(data_dir: &str) -> (v: Vec<String>)
    ensures
        texts(v@) == seq!["-D"@, data_dir@, "-U"@, "postgres"@, "--auth=trust"@, "-E"@, "UTF8"@],
{
    let v = vec![
        "-D".to_string(),
        data_dir.to_string(),
        "-U".to_string(),
        "postgres".to_string(),
        "--auth=trust".to_string(),
        "-E".to_string(),
        "UTF8".to_string(),
    ];
    assert(texts(v@) =~= seq!["-D"@, data_dir@, "-U"@, "postgres"@, "--auth=trust"@, "-E"@, "UTF8"@]);
    v
}

/// The command line that creates a MySQL data directory with an empty root
/// password.
pub fn mysqld_initialize_args(data_dir: &str) -> (v: Vec<String>)
    ensures
        texts(v@) == seq!["--initialize-insecure"@, "--datadir"@, data_dir@, "--console"@],
{
    let v = vec![
        "--initialize-insecure".to_string(),
        "--datadir".to_string(),
        data_dir.to_string(),
        "--console".to_string(),
    ];
    assert(texts(v@) =~= seq!["--initialize-insecure"@, "--datadir"@, data_dir@, "--console"@]);
    v
}

/// The command line of the MariaDB install script, run as the current user.
pub fn mariadb_install_args(data_dir: &str, base_dir: &str) -> (v: Vec<String>)
    ensures
        texts(v@) == seq!["--datadir="@ + data_dir@, "--basedir="@ + base_dir@, "--user="@],
{
    let mut d = String::new();
    push_str(&mut d, "--datadir=");
    push_str(&mut d, data_dir);
    let mut b = String::new();
    push_str(&mut b, "--basedir=");
    push_str(&mut b, base_dir);
    let v = vec![d, b, "--user=".to_string()];
    assert(texts(v@) =~= seq!["--datadir="@ + data_dir@, "--basedir="@ + base_dir@, "--user="@]);
    v
}

/// The command line that checks that root can log in over TCP without a
/// password.
pub fn mysql_login_args(port: u16) -> (v: Vec<String>)
    ensures
        texts(v@) == seq![
            "--protocol=TCP"@,
            "-h"@,
            "127.0.0.1"@,
            "-P"@,
            decimal(port as nat),
            "-u"@,
            "root"@,
            "--password="@,
            "--connect-timeout=2"@,
            "-e"@,
            "SELECT 1"@,
        ],
{
    let v = vec![
        "--protocol=TCP".to_string(),
        "-h".to_string(),
        "127.0.0.1".to_string(),
        "-P".to_string(),
        decimal_string(port as u64),
        "-u".to_string(),
        "root".to_string(),
        "--password=".to_string(),
        "--connect-timeout=2".to_string(),
        "-e".to_string(),
        "SELECT 1".to_string(),
    ];
    assert(texts(v@) =~= seq![
        "--protocol=TCP"@,
        "-h"@,
        "127.0.0.1"@,
        "-P"@,
        decimal(port as nat),
        "-u"@,
        "root"@,
        "--password="@,
        "--connect-timeout=2"@,
        "-e"@,
        "SELECT 1"@,
    ]);
    v
}

/// The statements run on the first start of MySQL: root may also log in
/// from 127.0.0.1.
pub const MYSQL_INIT_USER_SQL: &'static str =
    "CREATE USER IF NOT EXISTS 'root'@'127.0.0.1' IDENTIFIED BY '';\nGRANT ALL PRIVILEGES ON *.* TO 'root'@'127.0.0.1' WITH GRANT OPTION;\nFLUSH PRIVILEGES;\n";

/// The message where MySQL exits at once: the exit message and
/// troubleshooting tips that name the port and the data directory.
pub open spec fn mysql_exit_message(base: Seq<char>, port: u16, data_dir: Seq<char>) -> Seq<char> {
    base + "\n\n=== Troubleshooting Tips ==="@ + "\n1. Check if port "@ + decimal(port as nat)
        + " is already in use by another application"@ + "\n2. Verify data directory permissions at: "@
        + data_dir + "\n3. Try stopping all services and restarting CHAMP"@
        + "\n4. If the problem persists, you may need to reinitialize the database:"@
        + "\n   - Stop CHAMP completely"@ + "\n   - Delete the MySQL data directory"@
        + "\n   - Restart CHAMP to reinitialize"@
}

/// The message where MySQL exits at once.
pub fn mysql_exit_error(base: &str, port: u16, data_dir: &str) -> (m: String)
    ensures
        m@ == mysql_exit_message(base@, port, data_dir@),
{
    let mut m = String::new();
    push_str(&mut m, base);
    push_str(&mut m, "\n\n=== Troubleshooting Tips ===");
    push_str(&mut m, "\n1. Check if port ");
    let d = decimal_string(port as u64);
    push_str(&mut m, d.as_str());
    push_str(&mut m, " is already in use by another application");
    push_str(&mut m, "\n2. Verify data directory permissions at: ");
    push_str(&mut m, data_dir);
    push_str(&mut m, "\n3. Try stopping all services and restarting CHAMP");
    push_str(&mut m, "\n4. If the problem persists, you may need to reinitialize the database:");
    push_str(&mut m, "\n   - Stop CHAMP completely");
    push_str(&mut m, "\n   - Delete the MySQL data directory");
    push_str(&mut m, "\n   - Restart CHAMP to reinitialize");
    assert(m@ =~= mysql_exit_message(base@, port, data_dir@));
    m
}

/// The process id in a PostgreSQL pid file: its first line, trimmed.
pub open spec fn postgresql_pid_spec(content: Seq<char>) -> Option<u32> {
    let ls = lines(content);
    if ls.len() == 0 {
        None
    } else {
        parse_u32_spec(trim(ls[0]))
    }
}

/// The process id in a PostgreSQL pid file.
pub fn read_postgresql_pid(content: &str) -> (r: Option<u32>)
    ensures
        r == postgresql_pid_spec(content@),
{
    let c = chars_of(content);
    let ls = lines_of(c.as_slice());
    if ls.len() == 0 {
        return None;
    }
    assert(ls@[0]@ == lines(c@)[0]);
    let t = trim_chars(ls[0].as_slice());
    parse_u32(t.as_slice())
}

/// The extension of a file name: the text after its last `.`, where that dot
/// is not the first character.
pub open spec fn extension_of(name: Seq<char>) -> Option<Seq<char>> {
    if exists|i: int| 0 < i < name.len() && name[i] == '.' {
        let k = choose|i: int|
            0 < i < name.len() && name[i] == '.' && forall|j: int| i < j < name.len() ==> name[j] != '.';
        Some(name.skip(k + 1))
    } else {
        None
    }
}

/// Whether a file name has the given extension, compared without regard to
/// ASCII case.
pub open spec fn has_extension(name: Seq<char>, ext: Seq<char>) -> bool {
    match extension_of(name) {
        Some(e) => lower(e) == lower(ext),
        None => false,
    }
}

/// Whether a file name has the given extension, ignoring ASCII case.
pub fn has_extension_ignore_case(name: &str, ext: &str) -> (b: bool)
    ensures
        b == has_extension(name@, ext@),
{
    let n = chars_of(name);
    let mut j: usize = n.len();
    while j > 0 && n[j - 1] != '.'
        invariant
            j <= n.len(),
            forall|m: int| j <= m < n.len() ==> n@[m] != '.',
        decreases j,
    {
        j = j - 1;
    }
    proof {
        let s = n@;
        if j > 1 {
            let k = (j - 1) as int;
            let c = choose|i: int|
                0 < i < s.len() && s[i] == '.' && forall|m: int| i < m < s.len() ==> s[m] != '.';
            assert(0 < k < s.len() && s[k] == '.');
            if c < k {
                assert(s[k] != '.');
            }
            if c > k {
                assert(s[c] != '.');
            }
        } else {
            if exists|i: int| 0 < i < s.len() && s[i] == '.' {
                let i = choose|i: int| 0 < i < s.len() && s[i] == '.';
                assert(i < j || j <= i);
            }
        }
    }
    if j <= 1 {
        return false;
    }
    let e = crate::text::slice_of(n.as_slice(), j, n.len());
    assert(e@ =~= n@.skip(j as int));
    let x = chars_of(ext);
    let le = lower_chars(e.as_slice());
    let lx = lower_chars(x.as_slice());
    eq_chars(le.as_slice(), lx.as_slice())
}

/// The process id of the first pid file (by extension `pid`, in any case)
/// whose trimmed content is a number; the files are given by name and
/// content where it could be read.
pub open spec fn mysql_pid_spec(files: Seq<(Seq<char>, Option<Seq<char>>)>) -> Option<u32>
    decreases files.len(),
{
    if files.len() == 0 {
        None
    } else {
        let f = files[0];
        let here = if has_extension(f.0, "pid"@) {
            match f.1 {
                Some(c) => parse_u32_spec(trim(c)),
                None => None,
            }
        } else {
            None
        };
        match here {
            Some(p) => Some(p),
            None => mysql_pid_spec(files.drop_first()),
        }
    }
}

/// A file of a directory: its name and its content where it could be read.
pub struct DirFile {
    pub name: String,
    pub content: Option<String>,
}

/// The files as plain values.
pub open spec fn dir_files_view(files: Seq<DirFile>) -> Seq<(Seq<char>, Option<Seq<char>>)> {
    Seq::new(files.len(), |i: int| (files[i].name@, crate::packages::opt_text_of(files[i].content)))
}

/// The process id found in the pid files of the MySQL data directory.
pub fn read_mysql_pid(files: &Vec<DirFile>) -> (r: Option<u32>)
    ensures
        r == mysql_pid_spec(dir_files_view(files@)),
{
    let ghost fv = dir_files_view(files@);
    assert(fv.skip(0) =~= fv);
    let mut i: usize = 0;
    while i < files.len()
        invariant
            i <= files.len(),
            fv == dir_files_view(files@),
            mysql_pid_spec(fv) == mysql_pid_spec(fv.skip(i as int)),
        decreases files.len() - i,
    {
        assert(fv.skip(i as int).drop_first() =~= fv.skip(i + 1));
        assert(fv.skip(i as int)[0] == fv[i as int]);
        if has_extension_ignore_case(files[i].name.as_str(), "pid") {
            proof {
                reveal_strlit("pid");
            }
            match &files[i].content {
                Some(c) => {
                    let t = trim_chars(chars_of(c.as_str()).as_slice());
                    match parse_u32(t.as_slice()) {
                        Some(p) => {
                            return Some(p);
                        },
                        None => {},
                    }
                },
                None => {},
            }
        }
        i = i + 1;
    }
    assert(fv.skip(files.len() as int) =~= Seq::<(Seq<char>, Option<Seq<char>>)>::empty());
    None
}

/// Whether the MySQL system directory holds table metadata (`.sdi`) files:
/// the data directory is then initialized.
pub fn mysql_data_initialized(mysql_dir_exists: bool, entry_names: &Vec<String>) -> (b: bool)
    ensures
        b == (mysql_dir_exists && exists|i: int|
            0 <= i < entry_names.len() && has_extension(#[trigger] entry_names@[i]@, "sdi"@)),
{
    if !mysql_dir_exists {
        return false;
    }
    let mut i: usize = 0;
    while i < entry_names.len()
        invariant
            i <= entry_names.len(),
            mysql_dir_exists,
            forall|k: int| 0 <= k < i ==> !has_extension(#[trigger] entry_names@[k]@, "sdi"@),
        decreases entry_names.len() - i,
    {
        if has_extension_ignore_case(entry_names[i].as_str(), "sdi") {
            proof {
                reveal_strlit("sdi");
            }
            assert(has_extension(entry_names@[i as int]@, "sdi"@));
            return true;
        }
        proof {
            reveal_strlit("sdi");
        }
        i = i + 1;
    }
    false
}

/// The process ids listed one per line, lines that are not a number skipped.
pub open spec fn pid_lines_spec(ls: Seq<Seq<char>>) -> Seq<u32>
    decreases ls.len(),
{
    if ls.len() == 0 {
        Seq::empty()
    } else {
        let rest = pid_lines_spec(ls.drop_last());
        match parse_u32_spec(trim(ls.last())) {
            Some(p) => rest.push(p),
            None => rest,
        }
    }
}

/// The process ids that a process listing printed, one per line.
pub fn parse_pid_lines(output: &str) -> (r: Vec<u32>)
    ensures
        r@ == pid_lines_spec(lines(output@)),
{
    let c = chars_of(output);
    let ls = lines_of(c.as_slice());
    let ghost lv = lines(c@);
    assert(ls@.map_values(|w: Vec<char>| w@) == lv);
    let mut r: Vec<u32> = Vec::new();
    let mut i: usize = 0;
    while i < ls.len()
        invariant
            i <= ls.len(),
            ls@.map_values(|w: Vec<char>| w@) == lv,
            r@ == pid_lines_spec(lv.take(i as int)),
        decreases ls.len() - i,
    {
        assert(lv.take(i + 1).drop_last() =~= lv.take(i as int));
        assert(lv.take(i + 1).last() == ls@[i as int]@);
        let t = trim_chars(ls[i].as_slice());
        match parse_u32(t.as_slice()) {
            Some(p) => r.push(p),
            None => {},
        }
        i = i + 1;
    }
    assert(lv.take(ls.len() as int) =~= lv);
    r
}

/// Whether the database server binary is MySQL's `mysqld` (else MariaDB's
/// `mariadbd`, initialized by its install script).
pub fn uses_mysql_server(mysql_binary: &str) -> (b: bool)
    ensures
        b == (file_name_of(mysql_binary@) == "mysqld"@),
{
    let n = file_name(mysql_binary);
    let m = chars_of("mysqld");
    crate::text::eq_chars(n.as_slice(), m.as_slice())
}

/// The MariaDB install script beside the server: `scripts/mariadb-install-db`
/// in the folder above its `bin`, else the older `mysql_install_db`.
pub open spec fn install_script_result<F: Fn(&str) -> bool>(
    present: F,
    mysql_binary: Seq<char>,
    r: Result<(Seq<char>, Seq<char>), Seq<char>>,
) -> bool {
    match crate::locator::parent_spec(mysql_binary) {
        None => r == Err::<(Seq<char>, Seq<char>), Seq<char>>("Failed to get MariaDB binary directory"@),
        Some(bin) => match crate::locator::parent_spec(bin) {
            None => r == Err::<(Seq<char>, Seq<char>), Seq<char>>("Failed to get MariaDB base directory"@),
            Some(base) => {
                let first = crate::locator::join_spec(base, "scripts/mariadb-install-db"@);
                let second = crate::locator::join_spec(base, "scripts/mysql_install_db"@);
                ||| crate::locator::said(present, first, true) && r == Ok::<(Seq<char>, Seq<char>), Seq<char>>(
                    (first, base),
                )
                ||| crate::locator::said(present, first, false) && crate::locator::said(present, second, true)
                    && r == Ok::<(Seq<char>, Seq<char>), Seq<char>>((second, base))
                ||| crate::locator::said(present, first, false) && crate::locator::said(present, second, false)
                    && r == Err::<(Seq<char>, Seq<char>), Seq<char>>(
                    "MariaDB installation script not found. Tried:\n  - "@ + first + "\n  - "@ + second
                        + "\nPlease ensure the MariaDB runtime was downloaded correctly."@,
                )
            },
        },
    }
}

/// The MariaDB install script and the MariaDB base folder, for the server
/// binary.
pub fn mariadb_install_script<F: Fn(&str) -> bool>(mysql_binary: &str, present: &F) -> (r: Result<
    (String, String),
    String,
>)
    requires
        forall|s: &str| call_requires(*present, (s,)),
    ensures
        install_script_result(
            *present,
            mysql_binary@,
            match r {
                Ok((a, b)) => Ok((a@, b@)),
                Err(e) => Err(e@),
            },
        ),
{
    let bin = match crate::locator::parent_path(mysql_binary) {
        Some(b) => b,
        None => {
            return Err("Failed to get MariaDB binary directory".to_string());
        },
    };
    let base = match crate::locator::parent_path(bin.as_str()) {
        Some(b) => b,
        None => {
            return Err("Failed to get MariaDB base directory".to_string());
        },
    };
    let first = crate::locator::join_path(base.as_str(), "scripts/mariadb-install-db");
    let found = present(first.as_str());
    assert(crate::locator::said(*present, first@, found));
    if found {
        return Ok((first, base));
    }
    let second = crate::locator::join_path(base.as_str(), "scripts/mysql_install_db");
    let found = present(second.as_str());
    assert(crate::locator::said(*present, second@, found));
    if found {
        return Ok((second, base));
    }
    let mut e = String::new();
    push_str(&mut e, "MariaDB installation script not found. Tried:\n  - ");
    push_str(&mut e, first.as_str());
    push_str(&mut e, "\n  - ");
    push_str(&mut e, second.as_str());
    push_str(&mut e, "\nPlease ensure the MariaDB runtime was downloaded correctly.");
    Err(e)
}

/// `a`, the decimal digits of `n`, `b`.
fn with_number(a: &str, n: u64, b: &str) -> (s: String)
    ensures
        s@ == a@ + decimal(n as nat) + b@,
{
    let mut s = String::new();
    push_str(&mut s, a);
    push_str(&mut s, decimal_string(n).as_str());
    push_str(&mut s, b);
    s
}

/// The log line written when a running MySQL server is adopted.
pub fn mysql_reuse_line(pid: u32, port: u16) -> (s: String)
    ensures
        s@ == "CHAMP found an existing MySQL process (pid "@ + decimal(pid as nat) + ") on 127.0.0.1:"@ + decimal(
            port as nat,
        ) + " and will reuse it."@,
{
    let mut s = with_number("CHAMP found an existing MySQL process (pid ", pid as u64, ") on 127.0.0.1:");
    push_str(&mut s, decimal_string(port as u64).as_str());
    push_str(&mut s, " and will reuse it.");
    s
}

/// The log line written when the MySQL port is taken.
pub fn mysql_port_busy_line(port: u16) -> (s: String)
    ensures
        s@ == "Port "@ + decimal(port as nat) + " is in use. Attempting to stop conflicting MySQL processes..."@,
{
    with_number("Port ", port as u64, " is in use. Attempting to stop conflicting MySQL processes...")
}

/// The log line that counts the conflicting MySQL processes stopped.
pub fn mysql_conflicts_stopped_line(stopped: usize) -> (s: String)
    ensures
        s@ == "Stopped "@ + decimal(stopped as nat) + " conflicting MySQL process(es)"@,
{
    with_number("Stopped ", stopped as u64, " conflicting MySQL process(es)")
}

/// The error where the MySQL port stays taken.
pub fn mysql_port_still_busy(port: u16) -> (s: String)
    ensures
        s@ == "Port "@ + decimal(port as nat)
            + " is still in use after cleanup. MySQL cannot start.\nPlease manually stop any MySQL/MariaDB processes and try again.\nYou can change the MySQL port in Settings."@,
{
    with_number(
        "Port ",
        port as u64,
        " is still in use after cleanup. MySQL cannot start.\nPlease manually stop any MySQL/MariaDB processes and try again.\nYou can change the MySQL port in Settings.",
    )
}

/// A program beside a server binary: in the same folder, else by its bare
/// name.
pub open spec fn beside(server_binary: Seq<char>, name: Seq<char>) -> Seq<char> {
    match crate::locator::parent_spec(server_binary) {
        Some(dir) => crate::locator::join_spec(dir, name),
        None => name,
    }
}

/// The MySQL client beside the server (`mysql.exe` on Windows).
pub fn database_client_binary(server_binary: &str, windows: bool) -> (r: String)
    ensures
        r@ == beside(server_binary@, if windows {
            "mysql.exe"@
        } else {
            "mysql"@
        }),
{
    let name = if windows {
        "mysql.exe"
    } else {
        "mysql"
    };
    match crate::locator::parent_path(server_binary) {
        Some(dir) => crate::locator::join_path(dir.as_str(), name),
        None => name.to_string(),
    }
}

/// The PostgreSQL `initdb` beside the server (`initdb.exe` on Windows).
pub fn postgresql_initdb_binary(server_binary: &str, windows: bool) -> (r: String)
    ensures
        r@ == beside(server_binary@, if windows {
            "initdb.exe"@
        } else {
            "initdb"@
        }),
{
    let name = if windows {
        "initdb.exe"
    } else {
        "initdb"
    };
    match crate::locator::parent_path(server_binary) {
        Some(dir) => crate::locator::join_path(dir.as_str(), name),
        None => name.to_string(),
    }
}

/// The extension of a file name, compared exactly.
pub fn file_extension(name: &str) -> (r: Option<Vec<char>>)
    ensures
        match extension_of(name@) {
            Some(e) => r matches Some(x) && x@ == e,
            None => r is None,
        },
{
    let n = chars_of(name);
    let mut j: usize = n.len();
    while j > 0 && n[j - 1] != '.'
        invariant
            j <= n.len(),
            forall|m: int| j <= m < n.len() ==> n@[m] != '.',
        decreases j,
    {
        j = j - 1;
    }
    proof {
        let s = n@;
        if j > 1 {
            let k = (j - 1) as int;
            let c = choose|i: int|
                0 < i < s.len() && s[i] == '.' && forall|m: int| i < m < s.len() ==> s[m] != '.';
            assert(0 < k < s.len() && s[k] == '.');
            if c < k {
                assert(s[k] != '.');
            }
            if c > k {
                assert(s[c] != '.');
            }
        } else {
            if exists|i: int| 0 < i < s.len() && s[i] == '.' {
                let i = choose|i: int| 0 < i < s.len() && s[i] == '.';
                assert(i < j || j <= i);
            }
        }
    }
    if j <= 1 {
        return None;
    }
    let e = crate::text::slice_of(n.as_slice(), j, n.len());
    assert(e@ =~= n@.skip(j as int));
    Some(e)
}

/// The process id a pid file records: the file has the extension `pid`
/// (exactly) and its trimmed content is a number.
pub open spec fn pid_file_pid(name: Seq<char>, content: Option<Seq<char>>) -> Option<u32> {
    if extension_of(name) == Some("pid"@) {
        match content {
            Some(c) => parse_u32_spec(trim(c)),
            None => None,
        }
    } else {
        None
    }
}

/// `stale` is what looking at the files `f` in order leaves: the names of
/// the pid files whose process `alive` answered is gone.
pub open spec fn stale_list<F: Fn(u32) -> bool>(
    alive: F,
    f: Seq<(Seq<char>, Option<Seq<char>>)>,
    stale: Seq<Seq<char>>,
) -> bool
    decreases f.len(),
{
    if f.len() == 0 {
        stale.len() == 0
    } else {
        let last = f.last();
        match pid_file_pid(last.0, last.1) {
            Some(pid) => {
                ||| call_ensures(alive, (pid,), false) && stale.len() > 0 && stale.last() == last.0
                    && stale_list(alive, f.drop_last(), stale.drop_last())
                ||| call_ensures(alive, (pid,), true) && stale_list(alive, f.drop_last(), stale)
            },
            None => stale_list(alive, f.drop_last(), stale),
        }
    }
}

/// The pid files of the MySQL data directory left by processes that are
/// gone, which are removed before MySQL starts; `alive` is asked about each
/// recorded process, in order.
pub fn stale_pid_files<F: Fn(u32) -> bool>(files: &Vec<DirFile>, alive: &F) -> (r: Vec<String>)
    requires
        forall|p: u32| call_requires(*alive, (p,)),
    ensures
        stale_list(*alive, dir_files_view(files@), texts(r@)),
{
    let ghost fv = dir_files_view(files@);
    let mut r: Vec<String> = Vec::new();
    let mut i: usize = 0;
    while i < files.len()
        invariant
            i <= files.len(),
            fv == dir_files_view(files@),
            forall|p: u32| call_requires(*alive, (p,)),
            stale_list(*alive, fv.take(i as int), texts(r@)),
        decreases files.len() - i,
    {
        assert(fv.take(i + 1).drop_last() =~= fv.take(i as int));
        assert(fv.take(i + 1).last() == fv[i as int]);
        let ghost before = texts(r@);
        let pid = match file_extension(files[i].name.as_str()) {
            Some(e) => {
                let pid_ext = chars_of("pid");
                if eq_chars(e.as_slice(), pid_ext.as_slice()) {
                    match &files[i].content {
                        Some(c) => {
                            let t = trim_chars(chars_of(c.as_str()).as_slice());
                            parse_u32(t.as_slice())
                        },
                        None => None,
                    }
                } else {
                    None
                }
            },
            None => None,
        };
        assert(pid == pid_file_pid(fv[i as int].0, fv[i as int].1));
        match pid {
            Some(p) => {
                if !alive(p) {
                    r.push(files[i].name.clone());
                    assert(texts(r@).drop_last() =~= before);
                } else {
                    assert(texts(r@) == before);
                }
            },
            None => {},
        }
        i = i + 1;
    }
    assert(fv.take(i as int) =~= fv);
    r
}

/// The lock files of the MySQL data directory that are removed before it
/// starts.
pub fn mysql_lock_files(data_dir: &str) -> (r: Vec<String>)
    ensures
        texts(r@) == seq![
            crate::locator::join_spec(data_dir@, "ibdata1.lock"@),
            crate::locator::join_spec(data_dir@, "ib_logfile0.lock"@),
            crate::locator::join_spec(data_dir@, "mysql.sock.lock"@),
        ],
{
    let r = crate::locator::join_all(data_dir, &["ibdata1.lock", "ib_logfile0.lock", "mysql.sock.lock"]);
    proof {
        assert(crate::locator::strs(seq!["ibdata1.lock", "ib_logfile0.lock", "mysql.sock.lock"]) =~= seq![
            "ibdata1.lock"@,
            "ib_logfile0.lock"@,
            "mysql.sock.lock"@,
        ]);
    }
    r
}

/// What is said where the MySQL system directory is missing before a start;
/// the directory is given as the application prints it.
pub fn mysql_system_dir_missing(mysql_dir: &str) -> (s: String)
    ensures
        s@ == "MySQL system directory not found at "@ + mysql_dir@
            + ". The data directory may be corrupted. Try stopping all services and restarting CHAMP."@,
{
    let mut s = String::new();
    push_str(&mut s, "MySQL system directory not found at ");
    push_str(&mut s, mysql_dir);
    push_str(&mut s, ". The data directory may be corrupted. Try stopping all services and restarting CHAMP.");
    s
}

/// The pid file of the PostgreSQL data directory.
pub fn postgresql_pid_file(data_dir: &str) -> (r: String)
    ensures
        r@ == crate::locator::join_spec(data_dir@, "postmaster.pid"@),
{
    crate::locator::join_path(data_dir, "postmaster.pid")
}

/// What is said where `initdb` is missing beside the PostgreSQL server.
pub fn initdb_missing(initdb: &str) -> (s: String)
    ensures
        s@ == "PostgreSQL initdb binary not found at "@ + initdb@
            + ". Please ensure the PostgreSQL runtime was downloaded correctly."@,
{
    let mut s = String::new();
    push_str(&mut s, "PostgreSQL initdb binary not found at ");
    push_str(&mut s, initdb);
    push_str(&mut s, ". Please ensure the PostgreSQL runtime was downloaded correctly.");
    s
}

/// The log line where a running PostgreSQL server is reused.
pub fn postgresql_reuse_line(pid: u32, port: u16) -> (s: String)
    ensures
        s@ == "CHAMP found an existing PostgreSQL process (pid "@ + decimal(pid as nat) + ") on 127.0.0.1:"@
            + decimal(port as nat) + " and will reuse it."@,
{
    let mut s = String::new();
    push_str(&mut s, "CHAMP found an existing PostgreSQL process (pid ");
    push_str(&mut s, decimal_string(pid as u64).as_str());
    push_str(&mut s, ") on 127.0.0.1:");
    push_str(&mut s, decimal_string(port as u64).as_str());
    push_str(&mut s, " and will reuse it.");
    s
}

/// The log line where the PostgreSQL port is taken before a start.
pub fn postgresql_port_busy_line(port: u16) -> (s: String)
    ensures
        s@ == "Port "@ + decimal(port as nat) + " is in use. Attempting to stop conflicting PostgreSQL processes..."@,
{
    let mut s = String::new();
    push_str(&mut s, "Port ");
    push_str(&mut s, decimal_string(port as u64).as_str());
    push_str(&mut s, " is in use. Attempting to stop conflicting PostgreSQL processes...");
    s
}

/// The error where the PostgreSQL port is still taken after the cleanup.
pub fn postgresql_port_still_busy(port: u16) -> (s: String)
    ensures
        s@ == "Port "@ + decimal(port as nat)
            + " is still in use after cleanup. PostgreSQL cannot start. You can change the PostgreSQL port in Settings."@,
{
    let mut s = String::new();
    push_str(&mut s, "Port ");
    push_str(&mut s, decimal_string(port as u64).as_str());
    push_str(
        &mut s,
        " is still in use after cleanup. PostgreSQL cannot start. You can change the PostgreSQL port in Settings.",
    );
    s
}

/// The summary of an error where a launched process exits at once.
pub fn exited_immediately(label: &str) -> (s: String)
    ensures
        s@ == label@ + " exited immediately"@,
{
    let mut s = label.to_string();
    push_str(&mut s, " exited immediately");
    s
}

/// The error where the web server port stays taken before a start.
pub fn caddy_port_still_busy(port: u16) -> (s: String)
    ensures
        s@ == "Port "@ + decimal(port as nat)
            + " is still in use. Stop the existing web server on this port and try again."@,
{
    let mut s = String::new();
    push_str(&mut s, "Port ");
    push_str(&mut s, decimal_string(port as u64).as_str());
    push_str(&mut s, " is still in use. Stop the existing web server on this port and try again.");
    s
}

/// The database servers that are started with a port of their own.
#[derive(Debug, Clone, Copy, PartialEq, Eq, Structural)]
pub enum DatabaseKind {
    MySql,
    PostgreSql,
}

/// What the host reports at each step of clearing the way for a database
/// server.
#[derive(Debug, Clone, Copy, PartialEq, Eq, Structural)]
pub enum DatabaseStartStep {
    /// The server of this runtime that already answers on the port, if any.
    Looked(Option<u32>),
    /// Whether the port can be bound, before any cleanup.
    PortChecked(bool),
    /// How many conflicting processes were stopped.
    ConflictsStopped(usize),
    /// Whether the port can be bound after the cleanup.
    PortRechecked(bool),
}

/// What the host does next.
#[derive(Debug, Clone, PartialEq, Eq)]
pub enum DatabaseStartAction {
    /// Adopt the running server, after writing the line to the server's log.
    Adopt { pid: u32, log_line: String },
    /// Check whether the port can be bound.
    CheckPort,
    /// Write the line to the server's log, then stop the processes of this
    /// runtime.
    StopConflicts { log_line: String },
    /// Write the line to the log where there is one, wait for the port to be
    /// released where `wait` holds, and check the port again.
    RecheckPort { log_line: Option<String>, wait: bool },
    /// The port is clear: launch the server.
    Launch,
    /// Give up with this error.
    Fail(String),
}

/// The log line where a running server is reused.
pub open spec fn reuse_line_text(kind: DatabaseKind, pid: u32, port: u16) -> Seq<char> {
    let name = match kind {
        DatabaseKind::MySql => "MySQL"@,
        DatabaseKind::PostgreSql => "PostgreSQL"@,
    };
    "CHAMP found an existing "@ + name + " process (pid "@ + decimal(pid as nat) + ") on 127.0.0.1:"@
        + decimal(port as nat) + " and will reuse it."@
}

/// The log line where the port is taken before a start.
pub open spec fn busy_line_text(kind: DatabaseKind, port: u16) -> Seq<char> {
    let name = match kind {
        DatabaseKind::MySql => "MySQL"@,
        DatabaseKind::PostgreSql => "PostgreSQL"@,
    };
    "Port "@ + decimal(port as nat) + " is in use. Attempting to stop conflicting "@ + name + " processes..."@
}

/// The error where the port stays taken after the cleanup.
pub open spec fn still_busy_text(kind: DatabaseKind, port: u16) -> Seq<char> {
    match kind {
        DatabaseKind::MySql => "Port "@ + decimal(port as nat)
            + " is still in use after cleanup. MySQL cannot start.\nPlease manually stop any MySQL/MariaDB processes and try again.\nYou can change the MySQL port in Settings."@,
        DatabaseKind::PostgreSql => "Port "@ + decimal(port as nat)
            + " is still in use after cleanup. PostgreSQL cannot start. You can change the PostgreSQL port in Settings."@,
    }
}

/// One step of clearing the way for a database server on `port`: a server of
/// this runtime that already answers is adopted; otherwise a free port lets
/// the server launch; a taken port has the processes of this runtime stopped
/// (the count is logged for MySQL), the port released where any were
/// stopped, and the port checked once more, which either clears the launch or
/// fails.
pub fn database_start_step(kind: DatabaseKind, port: u16, step: DatabaseStartStep) -> (a: DatabaseStartAction)
    ensures
        match step {
            DatabaseStartStep::Looked(Some(pid)) => a matches DatabaseStartAction::Adopt { pid: p, log_line }
                && p == pid && log_line@ == reuse_line_text(kind, pid, port),
            DatabaseStartStep::Looked(None) => a is CheckPort,
            DatabaseStartStep::PortChecked(true) => a is Launch,
            DatabaseStartStep::PortChecked(false) => a matches DatabaseStartAction::StopConflicts { log_line }
                && log_line@ == busy_line_text(kind, port),
            DatabaseStartStep::ConflictsStopped(n) => a matches DatabaseStartAction::RecheckPort {
                log_line,
                wait,
            } && wait == (n > 0) && (if kind == DatabaseKind::MySql && n > 0 {
                log_line matches Some(l) && l@ == "Stopped "@ + decimal(n as nat)
                    + " conflicting MySQL process(es)"@
            } else {
                log_line is None
            }),
            DatabaseStartStep::PortRechecked(true) => a is Launch,
            DatabaseStartStep::PortRechecked(false) => a matches DatabaseStartAction::Fail(e) && e@
                == still_busy_text(kind, port),
        },
{
    proof {
        reveal_strlit("MySQL");
        reveal_strlit("PostgreSQL");
        reveal_strlit("CHAMP found an existing ");
        reveal_strlit(" process (pid ");
        reveal_strlit("CHAMP found an existing MySQL process (pid ");
        reveal_strlit("CHAMP found an existing PostgreSQL process (pid ");
        reveal_strlit(" is in use. Attempting to stop conflicting ");
        reveal_strlit(" processes...");
        reveal_strlit(" is in use. Attempting to stop conflicting MySQL processes...");
        reveal_strlit(" is in use. Attempting to stop conflicting PostgreSQL processes...");
    }
    match step {
        DatabaseStartStep::Looked(Some(pid)) => {
            let log_line = match kind {
                DatabaseKind::MySql => mysql_reuse_line(pid, port),
                DatabaseKind::PostgreSql => postgresql_reuse_line(pid, port),
            };
            assert(log_line@ =~= reuse_line_text(kind, pid, port));
            DatabaseStartAction::Adopt { pid, log_line }
        },
        DatabaseStartStep::Looked(None) => DatabaseStartAction::CheckPort,
        DatabaseStartStep::PortChecked(true) => DatabaseStartAction::Launch,
        DatabaseStartStep::PortChecked(false) => {
            let log_line = match kind {
                DatabaseKind::MySql => mysql_port_busy_line(port),
                DatabaseKind::PostgreSql => postgresql_port_busy_line(port),
            };
            assert(log_line@ =~= busy_line_text(kind, port));
            DatabaseStartAction::StopConflicts { log_line }
        },
        DatabaseStartStep::ConflictsStopped(n) => {
            let log_line = if n > 0 && matches!(kind, DatabaseKind::MySql) {
                Some(mysql_conflicts_stopped_line(n))
            } else {
                None
            };
            DatabaseStartAction::RecheckPort { log_line, wait: n > 0 }
        },
        DatabaseStartStep::PortRechecked(true) => DatabaseStartAction::Launch,
        DatabaseStartStep::PortRechecked(false) => {
            let e = match kind {
                DatabaseKind::MySql => mysql_port_still_busy(port),
                DatabaseKind::PostgreSql => postgresql_port_still_busy(port),
            };
            DatabaseStartAction::Fail(e)
        },
    }
}

} // verus!


