//! Where the runtime binaries and the application data live.
//!
//! Paths are strings here; they are joined with `/`, which every supported
//! platform accepts. Whether a file exists is asked of the file system,
//! which is handed in as a probe.

use vstd::prelude::*;
use crate::packages::texts;
use crate::launch::last_separator;
use crate::text::{
    chars_of, contains, contains_chars, push_str, slice_of, starts_with, starts_with_chars, string_from_chars, trim_end_set,
    trim_end_set_chars,
};

verus! {

broadcast use vstd::string::group_string_axioms;

/// Runtime binary paths and the directories the services use.
#[derive(Debug, Clone)]
pub struct RuntimePaths {
    pub caddy: String,
    pub php_cgi: String,
    pub php_ini: String,
    pub php_ext_dir: String,
    pub mysql: String,
    pub postgresql: String,
    pub adminer: String,
    pub node: Option<String>,
    pub python: Option<String>,
    pub go: Option<String>,
    pub ruby: Option<String>,
    pub mysql_data_dir: String,
    pub postgresql_data_dir: String,
    pub logs_dir: String,
    pub config_dir: String,
    pub projects_dir: String,
}

/// Application data directory structure.
#[derive(Debug, Clone)]
pub struct AppDataPaths {
    pub base_dir: String,
    pub portable: bool,
    pub runtime_dir: String,
    pub config_dir: String,
    pub mysql_data_dir: String,
    pub postgresql_data_dir: String,
    pub logs_dir: String,
    pub projects_dir: String,
}

/// `base` and `name` joined by a separator, unless `base` ends in one or is
/// empty.
pub open spec fn join_spec(base: Seq<char>, name: Seq<char>) -> Seq<char> {
    if base.len() == 0 || base.last() == '/' || base.last() == '\\' {
        base + name
    } else {
        base + "/"@ + name
    }
}

/// `base` and `name` joined by a separator.
pub fn join_path(base: &str, name: &str) -> (r: String)
    ensures
        r@ == join_spec(base@, name@),
{
    let b = chars_of(base);
    let mut r = string_from_chars(b.as_slice());
    if b.len() > 0 && b[b.len() - 1] != '/' && b[b.len() - 1] != '\\' {
        push_str(&mut r, "/");
    }
    push_str(&mut r, name);
    proof {
        reveal_strlit("/");
    }
    r
}

/// The operating system the binaries are looked for on.
#[derive(Debug, Clone, Copy, PartialEq, Eq, Structural)]
pub enum HostOs {
    Windows,
    MacOs,
    Linux,
    Other,
}

/// An entry of a directory listing, in the order the listing gave it.
#[derive(Debug, Clone)]
pub struct DirEntry {
    pub name: String,
    pub is_dir: bool,
    pub is_file: bool,
}

/// A listing as plain values.
pub open spec fn entries_view(v: Seq<DirEntry>) -> Seq<(Seq<char>, bool)> {
    Seq::new(v.len(), |i: int| (v[i].name@, v[i].is_dir))
}

/// The texts of a list of literals.
pub open spec fn strs(v: Seq<&str>) -> Seq<Seq<char>> {
    Seq::new(v.len(), |i: int| v[i]@)
}

/// `base` joined with each of `tails`.
pub open spec fn joined_all(base: Seq<char>, tails: Seq<Seq<char>>) -> Seq<Seq<char>> {
    Seq::new(tails.len(), |i: int| join_spec(base, tails[i]))
}

/// `base` joined with each of `tails`.
pub fn join_all(base: &str, tails: &[&str]) -> (r: Vec<String>)
    ensures
        texts(r@) == joined_all(base@, strs(tails@)),
{
    let mut r: Vec<String> = Vec::new();
    let mut i: usize = 0;
    while i < tails.len()
        invariant
            i <= tails@.len(),
            texts(r@) == joined_all(base@, strs(tails@)).take(i as int),
        decreases tails.len() - i,
    {
        let t = tails[i];
        let p = join_path(base, t);
        assert(strs(tails@)[i as int] == t@);
        let ghost old_r = texts(r@);
        r.push(p);
        assert(texts(r@) =~= old_r.push(p@));
        assert(joined_all(base@, strs(tails@)).take(i + 1) =~= joined_all(base@, strs(tails@)).take(i as int).push(
            join_spec(base@, t@),
        ));
        assert(texts(r@) =~= joined_all(base@, strs(tails@)).take(i + 1));
        i = i + 1;
    }
    assert(joined_all(base@, strs(tails@)).take(i as int) =~= joined_all(base@, strs(tails@)));
    r
}

/// Whether a listed entry is a directory whose name begins with `prefix`
/// and, where `marker` is given, holds it.
pub open spec fn entry_matches(e: (Seq<char>, bool), prefix: Seq<char>, marker: Option<Seq<char>>) -> bool {
    &&& e.1
    &&& starts_with(e.0, prefix)
    &&& match marker {
        Some(m) => contains(e.0, m),
        None => true,
    }
}

/// The paths a scan of a listing of `dir` looks at: for each matching entry
/// in order, the entry joined with each of `tails`.
pub open spec fn scan_candidates(
    dir: Seq<char>,
    entries: Seq<(Seq<char>, bool)>,
    prefix: Seq<char>,
    marker: Option<Seq<char>>,
    tails: Seq<Seq<char>>,
) -> Seq<Seq<char>>
    decreases entries.len(),
{
    if entries.len() == 0 {
        Seq::empty()
    } else {
        let rest = scan_candidates(dir, entries.drop_first(), prefix, marker, tails);
        if entry_matches(entries[0], prefix, marker) {
            joined_all(join_spec(dir, entries[0].0), tails) + rest
        } else {
            rest
        }
    }
}

/// Appends the paths a scan of a listing looks at.
fn push_scan(
    out: &mut Vec<String>,
    dir: &str,
    entries: &Vec<DirEntry>,
    prefix: &str,
    marker: Option<&str>,
    tails: &[&str],
)
    ensures
        texts(final(out)@) == texts(old(out)@) + scan_candidates(
            dir@,
            entries_view(entries@),
            prefix@,
            match marker {
                Some(m) => Some(m@),
                None => None,
            },
            strs(tails@),
        ),
{
    let ghost mk = match marker {
        Some(m) => Some(m@),
        None => None::<Seq<char>>,
    };
    let ghost ev = entries_view(entries@);
    let ghost start = texts(out@);
    let p = chars_of(prefix);
    assert(ev.skip(0) =~= ev);
    assert(start + Seq::empty() =~= start);
    let mut i: usize = 0;
    while i < entries.len()
        invariant
            i <= entries@.len(),
            ev == entries_view(entries@),
            p@ == prefix@,
            mk == (match marker {
                Some(m) => Some(m@),
                None => None::<Seq<char>>,
            }),
            start + scan_candidates(dir@, ev, prefix@, mk, strs(tails@)) == texts(out@) + scan_candidates(
                dir@,
                ev.skip(i as int),
                prefix@,
                mk,
                strs(tails@),
            ),
        decreases entries.len() - i,
    {
        let ghost before = texts(out@);
        assert(ev.skip(i as int).drop_first() =~= ev.skip(i + 1));
        assert(ev.skip(i as int)[0] == ev[i as int]);
        let e = &entries[i];
        let n = chars_of(e.name.as_str());
        let mut ok = e.is_dir && starts_with_chars(n.as_slice(), p.as_slice());
        match marker {
            Some(m) => {
                let mc = chars_of(m);
                ok = ok && contains_chars(n.as_slice(), mc.as_slice());
            },
            None => {},
        }
        if ok {
            let base = join_path(dir, e.name.as_str());
            let mut more = join_all(base.as_str(), tails);
            let ghost mv = more@;
            out.append(&mut more);
            assert(texts(out@) =~= before + texts(mv));
            assert(before + (texts(mv) + scan_candidates(dir@, ev.skip(i + 1), prefix@, mk, strs(tails@)))
                =~= texts(out@) + scan_candidates(dir@, ev.skip(i + 1), prefix@, mk, strs(tails@)));
        }
        i = i + 1;
    }
    assert(ev.skip(i as int) =~= Seq::<(Seq<char>, bool)>::empty());
    assert(texts(out@) + Seq::<Seq<char>>::empty() =~= texts(out@));
}

/// The probe may have answered `answer` for the path `p`.
pub open spec fn said<F: Fn(&str) -> bool>(present: F, p: Seq<char>, answer: bool) -> bool {
    exists|s: &str| s@ == p && #[trigger] call_ensures(present, (s,), answer)
}

/// The probe may have found `cands[i]` present, and every earlier candidate
/// absent.
pub open spec fn picks<F: Fn(&str) -> bool>(present: F, cands: Seq<Seq<char>>, i: int) -> bool {
    &&& 0 <= i < cands.len()
    &&& said(present, cands[i], true)
    &&& forall|j: int| 0 <= j < i ==> said(present, #[trigger] cands[j], false)
}

/// The probe may have found every candidate absent.
pub open spec fn none_present<F: Fn(&str) -> bool>(present: F, cands: Seq<Seq<char>>) -> bool {
    forall|j: int| 0 <= j < cands.len() ==> said(present, #[trigger] cands[j], false)
}

/// The first of `cands` that the probe finds present; it is asked in order,
/// and no further once it answers `true`.
pub fn first_present<F: Fn(&str) -> bool>(cands: &Vec<String>, present: &F) -> (r: Option<usize>)
    requires
        forall|s: &str| call_requires(*present, (s,)),
    ensures
        match r {
            Some(i) => picks(*present, texts(cands@), i as int),
            None => none_present(*present, texts(cands@)),
        },
{
    let ghost c = texts(cands@);
    let mut i: usize = 0;
    while i < cands.len()
        invariant
            i <= cands@.len(),
            c == texts(cands@),
            forall|s: &str| call_requires(*present, (s,)),
            forall|j: int| 0 <= j < i ==> said(*present, #[trigger] c[j], false),
        decreases cands.len() - i,
    {
        let s = cands[i].as_str();
        let b = present(s);
        assert(c[i as int] == s@);
        if b {
            assert(said(*present, c[i as int], true));
            return Some(i);
        }
        assert(said(*present, c[i as int], false));
        i = i + 1;
    }
    None
}

/// A result of strings as plain values.
pub open spec fn rv(r: Result<String, String>) -> Result<Seq<char>, Seq<char>> {
    match r {
        Ok(p) => Ok(p@),
        Err(e) => Err(e@),
    }
}

/// What is said when a binary is not found in a directory.
pub open spec fn not_found_message(what: Seq<char>, dir: Seq<char>) -> Seq<char> {
    what + " binary not found in "@ + dir + ". Please ensure runtime binaries are downloaded."@
}

/// What is said when Windows PHP binaries lie in a Linux runtime directory.
pub open spec fn wrong_platform_message(dir: Seq<char>) -> Seq<char> {
    "Wrong platform: Windows PHP binaries found in "@ + dir
        + " but this is Linux. "@ + "Please delete the runtime directory and re-download: "@ + dir
}

/// What is said when the runtime directory is missing.
pub open spec fn runtime_missing_message(dir: Seq<char>) -> Seq<char> {
    "Runtime directory not found. Please download runtime binaries first. Expected: "@ + dir
}

/// `a`, `x`, `b`.
fn framed(a: &str, x: &str, b: &str) -> (s: String)
    ensures
        s@ == a@ + x@ + b@,
{
    let mut s = String::new();
    push_str(&mut s, a);
    push_str(&mut s, x);
    push_str(&mut s, b);
    s
}

/// What is said when a binary is not found in a directory.
fn not_found(what: &str, dir: &str) -> (s: String)
    ensures
        s@ == not_found_message(what@, dir@),
{
    let mut s = framed(what, " binary not found in ", dir);
    push_str(&mut s, ". Please ensure runtime binaries are downloaded.");
    s
}

/// Where the Caddy binary may be, in the order it is looked for.
pub open spec fn caddy_candidates(os: HostOs, dir: Seq<char>) -> Seq<Seq<char>> {
    if os == HostOs::Windows {
        joined_all(dir, seq!["caddy.exe"@, "caddy/caddy.exe"@])
    } else {
        joined_all(dir, seq!["caddy"@, "caddy/caddy"@])
    }
}

/// Where a PHP binary may be in a directory, in the order it is looked for:
/// on Windows first in the versioned `php-*Win32*` folders of its listing.
pub open spec fn php_candidates(os: HostOs, dir: Seq<char>, entries: Seq<(Seq<char>, bool)>) -> Seq<Seq<char>> {
    match os {
        HostOs::Windows => scan_candidates(dir, entries, "php-"@, Some("Win32"@), seq!["php-cgi.exe"@, "php.exe"@])
            + joined_all(dir, seq!["php-cgi.exe"@, "php/php-cgi.exe"@, "php.exe"@, "php/php.exe"@]),
        HostOs::MacOs => joined_all(
            dir,
            seq![
                "buildroot/bin/php-fpm"@,
                "buildroot/bin/php"@,
                "php/bin/php-fpm"@,
                "php/bin/php-cgi"@,
                "php-fpm"@,
                "php-cgi"@,
                "usr/local/bin/php"@,
                "php/bin/php"@,
                "php"@,
            ],
        ),
        HostOs::Linux => joined_all(
            dir,
            seq![
                "php-fpm"@,
                "buildroot/bin/php-fpm"@,
                "buildroot/bin/php"@,
                "php/bin/php-fpm"@,
                "php/bin/php-cgi"@,
                "php-cgi"@,
                "php/bin/php"@,
                "usr/bin/php"@,
                "php"@,
            ],
        ),
        HostOs::Other => Seq::empty(),
    }
}

/// Where the MySQL or MariaDB server may be, in the order it is looked for:
/// first in the `mysql*` (and on Linux then `mariadb*`) folders of the
/// listing.
pub open spec fn mysql_candidates(os: HostOs, dir: Seq<char>, entries: Seq<(Seq<char>, bool)>) -> Seq<Seq<char>> {
    match os {
        HostOs::Windows => scan_candidates(dir, entries, "mysql"@, None, seq!["bin/mysqld.exe"@]) + joined_all(
            dir,
            seq!["mysql/bin/mysqld.exe"@, "bin/mysqld.exe"@, "mysqld.exe"@],
        ),
        HostOs::MacOs => scan_candidates(dir, entries, "mysql"@, None, seq!["bin/mysqld"@]) + joined_all(
            dir,
            seq!["mysql/bin/mysqld"@, "mysql/bin/mysqld"@, "bin/mysqld"@, "mysqld"@],
        ),
        HostOs::Linux => scan_candidates(dir, entries, "mysql"@, None, seq!["bin/mysqld"@]) + scan_candidates(
            dir,
            entries,
            "mariadb"@,
            None,
            seq!["bin/mariadbd"@, "bin/mysqld"@],
        ) + joined_all(
            dir,
            seq![
                "mysql/bin/mysqld"@,
                "bin/mysqld"@,
                "mariadb/bin/mariadbd"@,
                "bin/mariadbd"@,
                "mariadbd"@,
                "mysqld"@,
            ],
        ),
        HostOs::Other => Seq::empty(),
    }
}

/// Where the PHP extension directory may be, in the order it is looked for.
pub open spec fn ext_candidates(os: HostOs, dir: Seq<char>, entries: Seq<(Seq<char>, bool)>) -> Seq<Seq<char>> {
    if os == HostOs::Windows {
        scan_candidates(dir, entries, "php-"@, Some("Win32"@), seq!["ext"@]) + joined_all(
            dir,
            seq!["php/ext"@, "ext"@],
        )
    } else {
        joined_all(dir, seq!["php/lib/php/extensions"@, "buildroot/lib/php/extensions"@])
    }
}

/// The extension directory assumed where none is found.
pub open spec fn ext_fallback(os: HostOs, dir: Seq<char>) -> Seq<char> {
    if os == HostOs::Windows {
        join_spec(dir, "php/ext"@)
    } else {
        join_spec(dir, "php/lib/php/extensions"@)
    }
}

/// The first candidate found present, or `missing` where none is.
pub open spec fn search_result<F: Fn(&str) -> bool>(
    present: F,
    cands: Seq<Seq<char>>,
    missing: Seq<char>,
    r: Result<Seq<char>, Seq<char>>,
) -> bool {
    match r {
        Ok(p) => exists|i: int| #[trigger] picks(present, cands, i) && p == cands[i],
        Err(e) => none_present(present, cands) && e == missing,
    }
}

/// The first of `cands` found present, or the error `missing`.
fn search<F: Fn(&str) -> bool>(cands: &Vec<String>, present: &F, missing: String) -> (r: Result<String, String>)
    requires
        forall|s: &str| call_requires(*present, (s,)),
    ensures
        search_result(*present, texts(cands@), missing@, rv(r)),
{
    match first_present(cands, present) {
        Some(i) => {
            let p = cands[i].clone();
            assert(picks(*present, texts(cands@), i as int));
            Ok(p)
        },
        None => Err(missing),
    }
}

/// Looks for the Caddy binary in the runtime directory.
pub fn detect_caddy_binary<F: Fn(&str) -> bool>(os: HostOs, runtime_dir: &str, present: &F) -> (r: Result<
    String,
    String,
>)
    requires
        forall|s: &str| call_requires(*present, (s,)),
    ensures
        search_result(*present, caddy_candidates(os, runtime_dir@), not_found_message("Caddy"@, runtime_dir@), rv(r)),
{
    let cands = if os == HostOs::Windows {
        join_all(runtime_dir, &["caddy.exe", "caddy/caddy.exe"])
    } else {
        join_all(runtime_dir, &["caddy", "caddy/caddy"])
    };
    proof {
        assert(strs(seq!["caddy.exe", "caddy/caddy.exe"]) =~= seq!["caddy.exe"@, "caddy/caddy.exe"@]);
        assert(strs(seq!["caddy", "caddy/caddy"]) =~= seq!["caddy"@, "caddy/caddy"@]);
    }
    search(&cands, present, not_found("Caddy", runtime_dir))
}

/// `a` followed by `b`.
fn appended(a: Vec<String>, b: Vec<String>) -> (r: Vec<String>)
    ensures
        texts(r@) == texts(a@) + texts(b@),
{
    let mut a = a;
    let mut b = b;
    let ghost av = a@;
    let ghost bv = b@;
    a.append(&mut b);
    assert(texts(a@) =~= texts(av) + texts(bv));
    a
}

/// Where a PHP binary may be in a directory.
fn php_candidate_list(os: HostOs, dir: &str, entries: &Vec<DirEntry>) -> (r: Vec<String>)
    ensures
        texts(r@) == php_candidates(os, dir@, entries_view(entries@)),
{
    match os {
        HostOs::Windows => {
            let mut out: Vec<String> = Vec::new();
            assert(texts(out@) =~= Seq::<Seq<char>>::empty());
            let tails: &[&str] = &["php-cgi.exe", "php.exe"];
            push_scan(&mut out, dir, entries, "php-", Some("Win32"), tails);
            assert(tails@ =~= seq!["php-cgi.exe", "php.exe"]);
            assert(strs(tails@) =~= seq!["php-cgi.exe"@, "php.exe"@]);
            let rest = join_all(dir, &["php-cgi.exe", "php/php-cgi.exe", "php.exe", "php/php.exe"]);
            proof {
                assert(strs(seq!["php-cgi.exe", "php.exe"]) =~= seq!["php-cgi.exe"@, "php.exe"@]);
                assert(strs(seq!["php-cgi.exe", "php/php-cgi.exe", "php.exe", "php/php.exe"]) =~= seq![
                    "php-cgi.exe"@,
                    "php/php-cgi.exe"@,
                    "php.exe"@,
                    "php/php.exe"@,
                ]);
                assert(texts(Seq::<String>::empty()) =~= Seq::<Seq<char>>::empty());
            }
            let r = appended(out, rest);
            assert(texts(r@) =~= php_candidates(os, dir@, entries_view(entries@)));
            r
        },
        HostOs::MacOs => {
            let r = join_all(
                dir,
                &[
                    "buildroot/bin/php-fpm",
                    "buildroot/bin/php",
                    "php/bin/php-fpm",
                    "php/bin/php-cgi",
                    "php-fpm",
                    "php-cgi",
                    "usr/local/bin/php",
                    "php/bin/php",
                    "php",
                ],
            );
            proof {
                assert(strs(
                    seq![
                        "buildroot/bin/php-fpm",
                        "buildroot/bin/php",
                        "php/bin/php-fpm",
                        "php/bin/php-cgi",
                        "php-fpm",
                        "php-cgi",
                        "usr/local/bin/php",
                        "php/bin/php",
                        "php",
                    ],
                ) =~= seq![
                    "buildroot/bin/php-fpm"@,
                    "buildroot/bin/php"@,
                    "php/bin/php-fpm"@,
                    "php/bin/php-cgi"@,
                    "php-fpm"@,
                    "php-cgi"@,
                    "usr/local/bin/php"@,
                    "php/bin/php"@,
                    "php"@,
                ]);
            }
            r
        },
        HostOs::Linux => {
            let r = join_all(
                dir,
                &[
                    "php-fpm",
                    "buildroot/bin/php-fpm",
                    "buildroot/bin/php",
                    "php/bin/php-fpm",
                    "php/bin/php-cgi",
                    "php-cgi",
                    "php/bin/php",
                    "usr/bin/php",
                    "php",
                ],
            );
            proof {
                assert(strs(
                    seq![
                        "php-fpm",
                        "buildroot/bin/php-fpm",
                        "buildroot/bin/php",
                        "php/bin/php-fpm",
                        "php/bin/php-cgi",
                        "php-cgi",
                        "php/bin/php",
                        "usr/bin/php",
                        "php",
                    ],
                ) =~= seq![
                    "php-fpm"@,
                    "buildroot/bin/php-fpm"@,
                    "buildroot/bin/php"@,
                    "php/bin/php-fpm"@,
                    "php/bin/php-cgi"@,
                    "php-cgi"@,
                    "php/bin/php"@,
                    "usr/bin/php"@,
                    "php"@,
                ]);
            }
            r
        },
        HostOs::Other => {
            let r: Vec<String> = Vec::new();
            assert(texts(r@) =~= Seq::<Seq<char>>::empty());
            r
        },
    }
}

/// What looking for a PHP binary in one directory answers: the first
/// candidate found present; where none is, on Linux a Windows build in the
/// directory is reported as the wrong platform.
pub open spec fn php_in_dir_result<F: Fn(&str) -> bool>(
    present: F,
    os: HostOs,
    dir: Seq<char>,
    entries: Seq<(Seq<char>, bool)>,
    r: Result<Seq<char>, Seq<char>>,
) -> bool {
    let cands = php_candidates(os, dir, entries);
    match r {
        Ok(p) => exists|i: int| #[trigger] picks(present, cands, i) && p == cands[i],
        Err(e) => none_present(present, cands) && if os == HostOs::Linux {
            ||| (said(present, join_spec(dir, "php-cgi.exe"@), true) && e == wrong_platform_message(dir))
            ||| (said(present, join_spec(dir, "php-cgi.exe"@), false) && e == not_found_message("PHP"@, dir))
        } else {
            e == not_found_message("PHP"@, dir)
        },
    }
}

/// Looks for a PHP binary in one directory, whose listing is `entries`.
pub fn detect_php_binary_in_dir<F: Fn(&str) -> bool>(
    os: HostOs,
    dir: &str,
    entries: &Vec<DirEntry>,
    present: &F,
) -> (r: Result<String, String>)
    requires
        forall|s: &str| call_requires(*present, (s,)),
    ensures
        php_in_dir_result(*present, os, dir@, entries_view(entries@), rv(r)),
{
    let cands = php_candidate_list(os, dir, entries);
    match first_present(&cands, present) {
        Some(i) => {
            let p = cands[i].clone();
            assert(picks(*present, texts(cands@), i as int));
            return Ok(p);
        },
        None => {},
    }
    if os == HostOs::Linux {
        let windows_php = join_path(dir, "php-cgi.exe");
        let found = present(windows_php.as_str());
        assert(said(*present, join_spec(dir@, "php-cgi.exe"@), found));
        if found {
            let mut e = framed("Wrong platform: Windows PHP binaries found in ", dir, " but this is Linux. ");
            push_str(&mut e, "Please delete the runtime directory and re-download: ");
            push_str(&mut e, dir);
            assert(e@ =~= wrong_platform_message(dir@));
            return Err(e);
        }
    }
    Err(not_found("PHP", dir))
}

/// Where the MySQL or MariaDB server may be.
fn mysql_candidate_list(os: HostOs, dir: &str, entries: &Vec<DirEntry>) -> (r: Vec<String>)
    ensures
        texts(r@) == mysql_candidates(os, dir@, entries_view(entries@)),
{
    proof {
        assert(texts(Seq::<String>::empty()) =~= Seq::<Seq<char>>::empty());
    }
    match os {
        HostOs::Windows => {
            let mut out: Vec<String> = Vec::new();
            assert(texts(out@) =~= Seq::<Seq<char>>::empty());
            let tails: &[&str] = &["bin/mysqld.exe"];
            push_scan(&mut out, dir, entries, "mysql", None, tails);
            assert(tails@ =~= seq!["bin/mysqld.exe"]);
            assert(strs(tails@) =~= seq!["bin/mysqld.exe"@]);
            assert(texts(out@) =~= scan_candidates(dir@, entries_view(entries@), "mysql"@, None, seq!["bin/mysqld.exe"@]));
            let rest = join_all(dir, &["mysql/bin/mysqld.exe", "bin/mysqld.exe", "mysqld.exe"]);
            proof {
                assert(strs(seq!["mysql/bin/mysqld.exe", "bin/mysqld.exe", "mysqld.exe"]) =~= seq![
                    "mysql/bin/mysqld.exe"@,
                    "bin/mysqld.exe"@,
                    "mysqld.exe"@,
                ]);
            }
            let r = appended(out, rest);
            assert(texts(r@) =~= mysql_candidates(os, dir@, entries_view(entries@)));
            r
        },
        HostOs::MacOs => {
            let mut out: Vec<String> = Vec::new();
            assert(texts(out@) =~= Seq::<Seq<char>>::empty());
            let tails: &[&str] = &["bin/mysqld"];
            push_scan(&mut out, dir, entries, "mysql", None, tails);
            assert(tails@ =~= seq!["bin/mysqld"]);
            assert(strs(tails@) =~= seq!["bin/mysqld"@]);
            assert(strs(seq!["bin/mysqld"]) =~= seq!["bin/mysqld"@]);
            assert(texts(out@) =~= scan_candidates(dir@, entries_view(entries@), "mysql"@, None, seq!["bin/mysqld"@]));
            let rest = join_all(dir, &["mysql/bin/mysqld", "mysql/bin/mysqld", "bin/mysqld", "mysqld"]);
            proof {
                assert(strs(seq!["mysql/bin/mysqld", "mysql/bin/mysqld", "bin/mysqld", "mysqld"]) =~= seq![
                    "mysql/bin/mysqld"@,
                    "mysql/bin/mysqld"@,
                    "bin/mysqld"@,
                    "mysqld"@,
                ]);
            }
            let r = appended(out, rest);
            assert(texts(r@) =~= mysql_candidates(os, dir@, entries_view(entries@)));
            r
        },
        HostOs::Linux => {
            let mut out: Vec<String> = Vec::new();
            assert(texts(out@) =~= Seq::<Seq<char>>::empty());
            let tails: &[&str] = &["bin/mysqld"];
            push_scan(&mut out, dir, entries, "mysql", None, tails);
            assert(tails@ =~= seq!["bin/mysqld"]);
            assert(strs(tails@) =~= seq!["bin/mysqld"@]);
            assert(strs(seq!["bin/mysqld"]) =~= seq!["bin/mysqld"@]);
            assert(texts(out@) =~= scan_candidates(dir@, entries_view(entries@), "mysql"@, None, seq!["bin/mysqld"@]));
            let ghost first = texts(out@);
            let tails: &[&str] = &["bin/mariadbd", "bin/mysqld"];
            push_scan(&mut out, dir, entries, "mariadb", None, tails);
            assert(tails@ =~= seq!["bin/mariadbd", "bin/mysqld"]);
            assert(strs(tails@) =~= seq!["bin/mariadbd"@, "bin/mysqld"@]);
            assert(strs(seq!["bin/mariadbd", "bin/mysqld"]) =~= seq!["bin/mariadbd"@, "bin/mysqld"@]);
            assert(texts(out@) =~= first + scan_candidates(
                dir@,
                entries_view(entries@),
                "mariadb"@,
                None,
                seq!["bin/mariadbd"@, "bin/mysqld"@],
            ));
            let rest = join_all(
                dir,
                &["mysql/bin/mysqld", "bin/mysqld", "mariadb/bin/mariadbd", "bin/mariadbd", "mariadbd", "mysqld"],
            );
            proof {
                assert(strs(seq!["bin/mariadbd", "bin/mysqld"]) =~= seq!["bin/mariadbd"@, "bin/mysqld"@]);
                assert(strs(
                    seq!["mysql/bin/mysqld", "bin/mysqld", "mariadb/bin/mariadbd", "bin/mariadbd", "mariadbd", "mysqld"],
                ) =~= seq![
                    "mysql/bin/mysqld"@,
                    "bin/mysqld"@,
                    "mariadb/bin/mariadbd"@,
                    "bin/mariadbd"@,
                    "mariadbd"@,
                    "mysqld"@,
                ]);
            }
            let r = appended(out, rest);
            assert(texts(r@) =~= mysql_candidates(os, dir@, entries_view(entries@)));
            r
        },
        HostOs::Other => Vec::new(),
    }
}

/// Looks for the MySQL (or, on Linux, MariaDB) server in the runtime
/// directory, whose listing is `entries`.
pub fn detect_mysql_binary<F: Fn(&str) -> bool>(
    os: HostOs,
    runtime_dir: &str,
    entries: &Vec<DirEntry>,
    present: &F,
) -> (r: Result<String, String>)
    requires
        forall|s: &str| call_requires(*present, (s,)),
    ensures
        search_result(
            *present,
            mysql_candidates(os, runtime_dir@, entries_view(entries@)),
            not_found_message("MariaDB"@, runtime_dir@),
            rv(r),
        ),
{
    let cands = mysql_candidate_list(os, runtime_dir, entries);
    search(&cands, present, not_found("MariaDB", runtime_dir))
}

/// What looking for the PHP extension directory answers: the first
/// candidate found present, else the usual place.
pub open spec fn ext_result<F: Fn(&str) -> bool>(
    present: F,
    os: HostOs,
    dir: Seq<char>,
    entries: Seq<(Seq<char>, bool)>,
    r: Seq<char>,
) -> bool {
    let cands = ext_candidates(os, dir, entries);
    ||| exists|i: int| #[trigger] picks(present, cands, i) && r == cands[i]
    ||| none_present(present, cands) && r == ext_fallback(os, dir)
}

/// Looks for the PHP extension directory in a directory whose listing is
/// `entries`.
pub fn detect_php_ext_dir<F: Fn(&str) -> bool>(os: HostOs, dir: &str, entries: &Vec<DirEntry>, present: &F) -> (r:
    String)
    requires
        forall|s: &str| call_requires(*present, (s,)),
    ensures
        ext_result(*present, os, dir@, entries_view(entries@), r@),
{
    let cands = if os == HostOs::Windows {
        let mut out: Vec<String> = Vec::new();
        assert(texts(out@) =~= Seq::<Seq<char>>::empty());
        let tails: &[&str] = &["ext"];
        push_scan(&mut out, dir, entries, "php-", Some("Win32"), tails);
        assert(tails@ =~= seq!["ext"]);
        assert(strs(tails@) =~= seq!["ext"@]);
        assert(strs(seq!["ext"]) =~= seq!["ext"@]);
        assert(texts(Seq::<String>::empty()) =~= Seq::<Seq<char>>::empty());
        assert(texts(out@) =~= scan_candidates(dir@, entries_view(entries@), "php-"@, Some("Win32"@), seq!["ext"@]));
        let rest = join_all(dir, &["php/ext", "ext"]);
        proof {
            assert(strs(seq!["ext"]) =~= seq!["ext"@]);
            assert(strs(seq!["php/ext", "ext"]) =~= seq!["php/ext"@, "ext"@]);
            assert(texts(Seq::<String>::empty()) =~= Seq::<Seq<char>>::empty());
        }
        appended(out, rest)
    } else {
        let r = join_all(dir, &["php/lib/php/extensions", "buildroot/lib/php/extensions"]);
        proof {
            assert(strs(seq!["php/lib/php/extensions", "buildroot/lib/php/extensions"]) =~= seq![
                "php/lib/php/extensions"@,
                "buildroot/lib/php/extensions"@,
            ]);
        }
        r
    };
    proof {
        if os == HostOs::Windows {
            assert(texts(cands@) =~= ext_candidates(os, dir@, entries_view(entries@)));
        } else {
            assert(texts(cands@) =~= ext_candidates(os, dir@, entries_view(entries@)));
        }
    }
    match first_present(&cands, present) {
        Some(i) => {
            assert(picks(*present, texts(cands@), i as int));
            cands[i].clone()
        },
        None => if os == HostOs::Windows {
            join_path(dir, "php/ext")
        } else {
            join_path(dir, "php/lib/php/extensions")
        },
    }
}

/// The folder of one PHP version among several installed.
pub open spec fn version_dir_spec(runtime_dir: Seq<char>, php_id: Seq<char>) -> Seq<char> {
    join_spec(join_spec(runtime_dir, "php_versions"@), php_id)
}

/// The marker left by installing one PHP version among several.
pub open spec fn version_marker_spec(runtime_dir: Seq<char>, php_id: Seq<char>) -> Seq<char> {
    join_spec(join_spec(runtime_dir, "php_versions"@), php_id + "_installed.txt"@)
}

/// The folder of the selected PHP version, where it or its marker is found.
pub open spec fn active_result<F: Fn(&str) -> bool>(
    present: F,
    runtime_dir: Seq<char>,
    php_id: Seq<char>,
    r: Option<Seq<char>>,
) -> bool {
    let d = version_dir_spec(runtime_dir, php_id);
    let m = version_marker_spec(runtime_dir, php_id);
    match r {
        Some(x) => x == d && (said(present, d, true) || (said(present, d, false) && said(present, m, true))),
        None => said(present, d, false) && said(present, m, false),
    }
}

/// The marker left by installing one PHP version among several.
pub fn php_version_marker(runtime_dir: &str, php_id: &str) -> (r: String)
    ensures
        r@ == version_marker_spec(runtime_dir@, php_id@),
{
    let versions = join_path(runtime_dir, "php_versions");
    let mut name = php_id.to_string();
    push_str(&mut name, "_installed.txt");
    join_path(versions.as_str(), name.as_str())
}

/// The folder of one PHP version among several installed.
pub fn php_version_dir(runtime_dir: &str, php_id: &str) -> (r: String)
    ensures
        r@ == version_dir_spec(runtime_dir@, php_id@),
{
    let versions = join_path(runtime_dir, "php_versions");
    join_path(versions.as_str(), php_id)
}

/// The folder of the selected PHP version, where it or its marker is found.
pub fn active_php_runtime_dir<F: Fn(&str) -> bool>(runtime_dir: &str, php_id: &str, present: &F) -> (r: Option<
    String,
>)
    requires
        forall|s: &str| call_requires(*present, (s,)),
    ensures
        active_result(*present, runtime_dir@, php_id@, match r {
            Some(x) => Some(x@),
            None => None,
        }),
{
    let versions = join_path(runtime_dir, "php_versions");
    let dir = join_path(versions.as_str(), php_id);
    let mut marker_name = String::new();
    push_str(&mut marker_name, php_id);
    push_str(&mut marker_name, "_installed.txt");
    let marker = join_path(versions.as_str(), marker_name.as_str());
    let has_dir = present(dir.as_str());
    assert(said(*present, dir@, has_dir));
    if has_dir {
        return Some(dir);
    }
    let has_marker = present(marker.as_str());
    assert(said(*present, marker@, has_marker));
    if has_marker {
        Some(dir)
    } else {
        None
    }
}

/// What looking for the PHP binary answers: in the folder of the selected
/// version where that is found, and failing that in the runtime directory.
pub open spec fn php_result<F: Fn(&str) -> bool>(
    present: F,
    os: HostOs,
    runtime_dir: Seq<char>,
    php_id: Seq<char>,
    runtime_entries: Seq<(Seq<char>, bool)>,
    active_entries: Seq<(Seq<char>, bool)>,
    r: Result<Seq<char>, Seq<char>>,
) -> bool {
    exists|a: Option<Seq<char>>|
        #[trigger] active_result(present, runtime_dir, php_id, a) && match a {
            None => php_in_dir_result(present, os, runtime_dir, runtime_entries, r),
            Some(d) => exists|first: Result<Seq<char>, Seq<char>>|
                #[trigger] php_in_dir_result(present, os, d, active_entries, first) && if first is Ok {
                    r == first
                } else {
                    php_in_dir_result(present, os, runtime_dir, runtime_entries, r)
                },
        }
}

/// Looks for the PHP binary: in the folder of the selected version where
/// that is found (listed in `active_entries`), else in the runtime
/// directory (listed in `runtime_entries`).
pub fn detect_php_binary<F: Fn(&str) -> bool>(
    os: HostOs,
    runtime_dir: &str,
    php_id: &str,
    runtime_entries: &Vec<DirEntry>,
    active_entries: &Vec<DirEntry>,
    present: &F,
) -> (r: Result<String, String>)
    requires
        forall|s: &str| call_requires(*present, (s,)),
    ensures
        php_result(
            *present,
            os,
            runtime_dir@,
            php_id@,
            entries_view(runtime_entries@),
            entries_view(active_entries@),
            rv(r),
        ),
{
    let active = active_php_runtime_dir(runtime_dir, php_id, present);
    match active {
        Some(d) => {
            assert(active_result(*present, runtime_dir@, php_id@, Some(d@)));
            let first = detect_php_binary_in_dir(os, d.as_str(), active_entries, present);
            assert(php_in_dir_result(*present, os, d@, entries_view(active_entries@), rv(first)));
            if first.is_ok() {
                return first;
            }
            detect_php_binary_in_dir(os, runtime_dir, runtime_entries, present)
        },
        None => {
            assert(active_result(*present, runtime_dir@, php_id@, None));
            detect_php_binary_in_dir(os, runtime_dir, runtime_entries, present)
        },
    }
}

/// What looking for the PHP extension directory answers: in the folder of
/// the selected version where that is found, else in the runtime directory.
pub open spec fn ext_dir_result<F: Fn(&str) -> bool>(
    present: F,
    os: HostOs,
    runtime_dir: Seq<char>,
    php_id: Seq<char>,
    runtime_entries: Seq<(Seq<char>, bool)>,
    active_entries: Seq<(Seq<char>, bool)>,
    r: Seq<char>,
) -> bool {
    exists|a: Option<Seq<char>>|
        #[trigger] active_result(present, runtime_dir, php_id, a) && match a {
            None => ext_result(present, os, runtime_dir, runtime_entries, r),
            Some(d) => ext_result(present, os, d, active_entries, r),
        }
}

/// Looks for the PHP extension directory of the selected version.
fn locate_php_ext_dir<F: Fn(&str) -> bool>(
    os: HostOs,
    runtime_dir: &str,
    php_id: &str,
    runtime_entries: &Vec<DirEntry>,
    active_entries: &Vec<DirEntry>,
    present: &F,
) -> (r: String)
    requires
        forall|s: &str| call_requires(*present, (s,)),
    ensures
        ext_dir_result(
            *present,
            os,
            runtime_dir@,
            php_id@,
            entries_view(runtime_entries@),
            entries_view(active_entries@),
            r@,
        ),
{
    match active_php_runtime_dir(runtime_dir, php_id, present) {
        Some(d) => {
            assert(active_result(*present, runtime_dir@, php_id@, Some(d@)));
            detect_php_ext_dir(os, d.as_str(), active_entries, present)
        },
        None => {
            assert(active_result(*present, runtime_dir@, php_id@, None));
            detect_php_ext_dir(os, runtime_dir, runtime_entries, present)
        },
    }
}

/// Where the PostgreSQL server of the runtime directory is.
pub open spec fn postgresql_binary_spec(os: HostOs, runtime_dir: Seq<char>) -> Seq<char> {
    if os == HostOs::Windows {
        join_spec(runtime_dir, "postgresql/bin/postgres.exe"@)
    } else {
        join_spec(runtime_dir, "postgresql/bin/postgres"@)
    }
}

/// What a successful search of the runtime directory finds.
pub open spec fn located<F: Fn(&str) -> bool>(
    present: F,
    os: HostOs,
    app: AppDataPaths,
    runtime_dir: Seq<char>,
    php_id: Seq<char>,
    runtime_entries: Seq<(Seq<char>, bool)>,
    active_entries: Seq<(Seq<char>, bool)>,
    p: RuntimePaths,
) -> bool {
    &&& said(present, runtime_dir, true)
    &&& search_result(present, caddy_candidates(os, runtime_dir), not_found_message("Caddy"@, runtime_dir), Ok(p.caddy@))
    &&& php_result(present, os, runtime_dir, php_id, runtime_entries, active_entries, Ok(p.php_cgi@))
    &&& p.php_ini@ == join_spec(app.config_dir@, "php.ini"@)
    &&& ext_dir_result(present, os, runtime_dir, php_id, runtime_entries, active_entries, p.php_ext_dir@)
    &&& search_result(
        present,
        mysql_candidates(os, runtime_dir, runtime_entries),
        not_found_message("MariaDB"@, runtime_dir),
        Ok(p.mysql@),
    )
    &&& p.postgresql@ == postgresql_binary_spec(os, runtime_dir)
    &&& p.adminer@ == join_spec(app.config_dir@, "adminer"@)
    &&& p.node is None && p.python is None && p.go is None && p.ruby is None
    &&& p.mysql_data_dir@ == app.mysql_data_dir@
    &&& p.postgresql_data_dir@ == app.postgresql_data_dir@
    &&& p.logs_dir@ == app.logs_dir@
    &&& p.config_dir@ == app.config_dir@
    &&& p.projects_dir@ == app.projects_dir@
}

/// Why a search of the runtime directory fails: the directory is missing,
/// or the first binary not found says so (the earlier ones found).
pub open spec fn locate_failed<F: Fn(&str) -> bool>(
    present: F,
    os: HostOs,
    runtime_dir: Seq<char>,
    php_id: Seq<char>,
    runtime_entries: Seq<(Seq<char>, bool)>,
    active_entries: Seq<(Seq<char>, bool)>,
    e: Seq<char>,
) -> bool {
    ||| said(present, runtime_dir, false) && e == runtime_missing_message(runtime_dir)
    ||| said(present, runtime_dir, true) && {
        let caddy = caddy_candidates(os, runtime_dir);
        let caddy_missing = not_found_message("Caddy"@, runtime_dir);
        ||| search_result(present, caddy, caddy_missing, Err(e))
        ||| exists|c: Seq<char>|
            #[trigger] search_result(present, caddy, caddy_missing, Ok(c)) && {
                ||| php_result(present, os, runtime_dir, php_id, runtime_entries, active_entries, Err(e))
                ||| exists|ph: Seq<char>, x: Seq<char>|
                    #[trigger] php_result(present, os, runtime_dir, php_id, runtime_entries, active_entries, Ok(ph))
                        && #[trigger] ext_dir_result(
                        present,
                        os,
                        runtime_dir,
                        php_id,
                        runtime_entries,
                        active_entries,
                        x,
                    ) && search_result(
                        present,
                        mysql_candidates(os, runtime_dir, runtime_entries),
                        not_found_message("MariaDB"@, runtime_dir),
                        Err(e),
                    )
            }
    }
}

/// Locates the runtime binaries in `runtime_dir` (listed in
/// `runtime_entries`), with the selected PHP version `php_id` (its folder
/// listed in `active_entries`), asking `present` which paths exist.
pub fn locate_runtime_binaries<F: Fn(&str) -> bool>(
    os: HostOs,
    app_paths: &AppDataPaths,
    runtime_dir: &str,
    php_id: &str,
    runtime_entries: &Vec<DirEntry>,
    active_entries: &Vec<DirEntry>,
    present: &F,
) -> (r: Result<RuntimePaths, String>)
    requires
        forall|s: &str| call_requires(*present, (s,)),
    ensures
        match r {
            Ok(p) => located(
                *present,
                os,
                *app_paths,
                runtime_dir@,
                php_id@,
                entries_view(runtime_entries@),
                entries_view(active_entries@),
                p,
            ),
            Err(e) => locate_failed(
                *present,
                os,
                runtime_dir@,
                php_id@,
                entries_view(runtime_entries@),
                entries_view(active_entries@),
                e@,
            ),
        },
{
    let ghost rte = entries_view(runtime_entries@);
    let ghost ace = entries_view(active_entries@);
    let here = present(runtime_dir);
    assert(said(*present, runtime_dir@, here));
    if !here {
        let e = framed("Runtime directory not found. Please download runtime binaries first. Expected: ", runtime_dir, "");
        assert(e@ =~= runtime_missing_message(runtime_dir@)) by {
            reveal_strlit("");
        }
        return Err(e);
    }
    let caddy = detect_caddy_binary(os, runtime_dir, present);
    let caddy = match caddy {
        Ok(c) => c,
        Err(e) => {
            return Err(e);
        },
    };
    let ghost caddy_ok = search_result(
        *present,
        caddy_candidates(os, runtime_dir@),
        not_found_message("Caddy"@, runtime_dir@),
        Ok(caddy@),
    );
    assert(caddy_ok);
    let php = detect_php_binary(os, runtime_dir, php_id, runtime_entries, active_entries, present);
    let php = match php {
        Ok(p) => p,
        Err(e) => {
            return Err(e);
        },
    };
    assert(php_result(*present, os, runtime_dir@, php_id@, rte, ace, Ok(php@)));
    let php_ini = join_path(app_paths.config_dir.as_str(), "php.ini");
    let ext = locate_php_ext_dir(os, runtime_dir, php_id, runtime_entries, active_entries, present);
    assert(ext_dir_result(*present, os, runtime_dir@, php_id@, rte, ace, ext@));
    let mysql = detect_mysql_binary(os, runtime_dir, runtime_entries, present);
    let mysql = match mysql {
        Ok(m) => m,
        Err(e) => {
            return Err(e);
        },
    };
    let postgresql = if os == HostOs::Windows {
        join_path(runtime_dir, "postgresql/bin/postgres.exe")
    } else {
        join_path(runtime_dir, "postgresql/bin/postgres")
    };
    Ok(RuntimePaths {
        caddy,
        php_cgi: php,
        php_ini,
        php_ext_dir: ext,
        mysql,
        postgresql,
        adminer: join_path(app_paths.config_dir.as_str(), "adminer"),
        node: None,
        python: None,
        go: None,
        ruby: None,
        mysql_data_dir: app_paths.mysql_data_dir.clone(),
        postgresql_data_dir: app_paths.postgresql_data_dir.clone(),
        logs_dir: app_paths.logs_dir.clone(),
        config_dir: app_paths.config_dir.clone(),
        projects_dir: app_paths.projects_dir.clone(),
    })
}

/// What is said when a located binary is missing or cannot be run.
pub open spec fn not_runnable_message(what: Seq<char>, path: Seq<char>) -> Seq<char> {
    what + " binary not found or not executable: "@ + path
}

/// The located binaries can all be run, as `runnable` answered.
pub open spec fn all_runnable<G: Fn(&str) -> bool>(runnable: G, p: RuntimePaths) -> bool {
    said(runnable, p.caddy@, true) && said(runnable, p.php_cgi@, true) && said(runnable, p.mysql@, true)
}

/// Why the located binaries are refused: the first of Caddy, PHP and the
/// database server that `runnable` rejects is reported.
pub open spec fn not_runnable<G: Fn(&str) -> bool>(runnable: G, p: RuntimePaths, e: Seq<char>) -> bool {
    ||| said(runnable, p.caddy@, false) && e == not_runnable_message("Caddy"@, p.caddy@)
    ||| said(runnable, p.caddy@, true) && said(runnable, p.php_cgi@, false) && e == not_runnable_message(
        "PHP"@,
        p.php_cgi@,
    )
    ||| said(runnable, p.caddy@, true) && said(runnable, p.php_cgi@, true) && said(runnable, p.mysql@, false) && e
        == not_runnable_message("MariaDB"@, p.mysql@)
}

/// What is said when a located binary is missing or cannot be run.
fn not_runnable_text(what: &str, path: &str) -> (s: String)
    ensures
        s@ == not_runnable_message(what@, path@),
{
    framed(what, " binary not found or not executable: ", path)
}

/// Checks that the located Caddy, PHP and database binaries can be run,
/// asking `runnable` of each in that order.
pub fn check_runtime_binaries<G: Fn(&str) -> bool>(paths: &RuntimePaths, runnable: &G) -> (r: Result<(), String>)
    requires
        forall|s: &str| call_requires(*runnable, (s,)),
    ensures
        match r {
            Ok(()) => all_runnable(*runnable, *paths),
            Err(e) => not_runnable(*runnable, *paths, e@),
        },
{
    let ok = runnable(paths.caddy.as_str());
    assert(said(*runnable, paths.caddy@, ok));
    if !ok {
        return Err(not_runnable_text("Caddy", paths.caddy.as_str()));
    }
    let ok = runnable(paths.php_cgi.as_str());
    assert(said(*runnable, paths.php_cgi@, ok));
    if !ok {
        return Err(not_runnable_text("PHP", paths.php_cgi.as_str()));
    }
    let ok = runnable(paths.mysql.as_str());
    assert(said(*runnable, paths.mysql@, ok));
    if !ok {
        return Err(not_runnable_text("MariaDB", paths.mysql.as_str()));
    }
    Ok(())
}

/// Locates the runtime binaries and checks that Caddy, PHP and the database
/// server can be run.
pub fn verify_runtime_binaries<F: Fn(&str) -> bool, G: Fn(&str) -> bool>(
    os: HostOs,
    app_paths: &AppDataPaths,
    runtime_dir: &str,
    php_id: &str,
    runtime_entries: &Vec<DirEntry>,
    active_entries: &Vec<DirEntry>,
    present: &F,
    runnable: &G,
) -> (r: Result<RuntimePaths, String>)
    requires
        forall|s: &str| call_requires(*present, (s,)),
        forall|s: &str| call_requires(*runnable, (s,)),
    ensures
        match r {
            Ok(p) => located(
                *present,
                os,
                *app_paths,
                runtime_dir@,
                php_id@,
                entries_view(runtime_entries@),
                entries_view(active_entries@),
                p,
            ) && all_runnable(*runnable, p),
            Err(e) => locate_failed(
                *present,
                os,
                runtime_dir@,
                php_id@,
                entries_view(runtime_entries@),
                entries_view(active_entries@),
                e@,
            ) || exists|p: RuntimePaths|
                located(
                    *present,
                    os,
                    *app_paths,
                    runtime_dir@,
                    php_id@,
                    entries_view(runtime_entries@),
                    entries_view(active_entries@),
                    p,
                ) && #[trigger] not_runnable(*runnable, p, e@),
        },
{
    let paths = locate_runtime_binaries(os, app_paths, runtime_dir, php_id, runtime_entries, active_entries, present)?;
    match check_runtime_binaries(&paths, runnable) {
        Ok(()) => Ok(paths),
        Err(e) => {
            assert(not_runnable(*runnable, paths, e@));
            Err(e)
        },
    }
}

/// The application directories under a user data directory, in a `CHAMP`
/// folder of it.
pub open spec fn app_paths_under(data_dir: Seq<char>, p: AppDataPaths) -> bool {
    let base = join_spec(data_dir, "CHAMP"@);
    &&& p.base_dir@ == base
    &&& !p.portable
    &&& p.runtime_dir@ == join_spec(base, "runtime"@)
    &&& p.config_dir@ == join_spec(base, "config"@)
    &&& p.mysql_data_dir@ == join_spec(base, "mysql/data"@)
    &&& p.postgresql_data_dir@ == join_spec(base, "postgresql/data"@)
    &&& p.logs_dir@ == join_spec(base, "logs"@)
    &&& p.projects_dir@ == join_spec(base, "projects"@)
}

/// The application directories, under the user data directory the system
/// gave (`None` where it gave none).
pub fn app_data_paths(data_dir: Option<String>) -> (r: Result<AppDataPaths, String>)
    ensures
        match data_dir {
            Some(d) => r matches Ok(p) && app_paths_under(d@, p),
            None => r matches Err(e) && e@ == "Cannot find a writable user data directory"@,
        },
{
    match data_dir {
        None => Err("Cannot find a writable user data directory".to_string()),
        Some(d) => {
            let base = join_path(d.as_str(), "CHAMP");
            Ok(AppDataPaths {
                runtime_dir: join_path(base.as_str(), "runtime"),
                config_dir: join_path(base.as_str(), "config"),
                mysql_data_dir: join_path(base.as_str(), "mysql/data"),
                postgresql_data_dir: join_path(base.as_str(), "postgresql/data"),
                logs_dir: join_path(base.as_str(), "logs"),
                projects_dir: join_path(base.as_str(), "projects"),
                portable: false,
                base_dir: base,
            })
        },
    }
}

/// Where the runtime directory may be, in the order it is looked for: the
/// application's own, then (on Windows) beside the executable, then the one
/// an earlier release kept in the user data directory.
pub open spec fn runtime_dir_candidates(
    app: AppDataPaths,
    os: HostOs,
    exe_dir: Option<Seq<char>>,
    local_data_dir: Option<Seq<char>>,
) -> Seq<Seq<char>> {
    seq![app.runtime_dir@] + (match exe_dir {
        Some(x) => if os == HostOs::Windows {
            seq![join_spec(x, "runtime"@)]
        } else {
            Seq::empty()
        },
        None => Seq::empty(),
    }) + (match local_data_dir {
        Some(l) => seq![join_spec(join_spec(l, "campp"@), "runtime"@)],
        None => Seq::empty(),
    })
}

/// Finds the runtime directory among the places it may be.
pub fn resolve_runtime_dir<F: Fn(&str) -> bool>(
    app_paths: &AppDataPaths,
    os: HostOs,
    exe_dir: Option<String>,
    local_data_dir: Option<String>,
    present: &F,
) -> (r: Result<String, String>)
    requires
        forall|s: &str| call_requires(*present, (s,)),
    ensures
        search_result(
            *present,
            runtime_dir_candidates(
                *app_paths,
                os,
                match exe_dir {
                    Some(x) => Some(x@),
                    None => None,
                },
                match local_data_dir {
                    Some(l) => Some(l@),
                    None => None,
                },
            ),
            runtime_missing_message(app_paths.runtime_dir@),
            rv(r),
        ),
{
    let mut cands: Vec<String> = Vec::new();
    cands.push(app_paths.runtime_dir.clone());
    if os == HostOs::Windows {
        match &exe_dir {
            Some(x) => cands.push(join_path(x.as_str(), "runtime")),
            None => {},
        }
    }
    match &local_data_dir {
        Some(l) => {
            let legacy = join_path(l.as_str(), "campp");
            cands.push(join_path(legacy.as_str(), "runtime"));
        },
        None => {},
    }
    assert(texts(cands@) =~= runtime_dir_candidates(
        *app_paths,
        os,
        match exe_dir {
            Some(x) => Some(x@),
            None => None,
        },
        match local_data_dir {
            Some(l) => Some(l@),
            None => None,
        },
    ));
    let e = framed(
        "Runtime directory not found. Please download runtime binaries first. Expected: ",
        app_paths.runtime_dir.as_str(),
        "",
    );
    assert(e@ =~= runtime_missing_message(app_paths.runtime_dir@)) by {
        reveal_strlit("");
    }
    search(&cands, present, e)
}

/// The directory a path lies in (`Path::parent`, for paths without repeated
/// separators): `None` for an empty path or a root, the empty path for a
/// bare name.
pub open spec fn parent_spec(p: Seq<char>) -> Option<Seq<char>> {
    let seps = seq!['/', '\\'];
    let t = trim_end_set(p, seps);
    if t.len() == 0 {
        None
    } else {
        match last_separator(t) {
            Some(i) => {
                let q = trim_end_set(t.take(i), seps);
                if q.len() == 0 {
                    Some(t.take(1))
                } else {
                    Some(q)
                }
            },
            None => Some(Seq::empty()),
        }
    }
}

/// The directory a path lies in.
pub fn parent_path(p: &str) -> (r: Option<String>)
    ensures
        match parent_spec(p@) {
            Some(x) => r matches Some(y) && y@ == x,
            None => r is None,
        },
{
    let v = chars_of(p);
    let seps = ['/', '\\'];
    assert(seps@ =~= seq!['/', '\\']);
    let t = trim_end_set_chars(v.as_slice(), &seps);
    if t.len() == 0 {
        return None;
    }
    let mut j: usize = t.len();
    while j > 0 && t[j - 1] != '/' && t[j - 1] != '\\'
        invariant
            j <= t.len(),
            forall|m: int| j <= m < t.len() ==> t@[m] != '/' && t@[m] != '\\',
        decreases j,
    {
        j = j - 1;
    }
    proof {
        let tt = t@;
        if j > 0 {
            let k = (j - 1) as int;
            let c = choose|i: int|
                0 <= i < tt.len() && (tt[i] == '/' || tt[i] == '\\') && forall|m: int|
                    i < m < tt.len() ==> tt[m] != '/' && tt[m] != '\\';
            assert(0 <= k < tt.len() && (tt[k] == '/' || tt[k] == '\\'));
            if c < k {
                assert(tt[k] != '/' && tt[k] != '\\');
            }
            if c > k {
                assert(tt[c] != '/' && tt[c] != '\\');
            }
            assert(last_separator(tt) == Some(k));
        } else {
            assert(last_separator(tt) is None);
        }
    }
    if j == 0 {
        return Some(String::new());
    }
    let head = slice_of(t.as_slice(), 0, j - 1);
    assert(head@ =~= t@.take(j - 1));
    let q = trim_end_set_chars(head.as_slice(), &seps);
    if q.len() == 0 {
        let first = slice_of(t.as_slice(), 0, 1);
        assert(first@ =~= t@.take(1));
        Some(string_from_chars(first.as_slice()))
    } else {
        Some(string_from_chars(q.as_slice()))
    }
}

/// The directory of a path, where it has one.
pub open spec fn dir_of(x: Seq<char>) -> Seq<Seq<char>> {
    match parent_spec(x) {
        Some(d) => seq![d],
        None => Seq::empty(),
    }
}

/// The directory of a runtime located, where there is one.
pub open spec fn opt_dir_of(o: Option<String>) -> Seq<Seq<char>> {
    match o {
        Some(x) => dir_of(x@),
        None => Seq::empty(),
    }
}

/// The directories of a Python runtime located: its own and `Scripts` in it.
pub open spec fn python_dirs(o: Option<String>) -> Seq<Seq<char>> {
    match o {
        Some(y) => match parent_spec(y@) {
            Some(d) => seq![d, join_spec(d, "Scripts"@)],
            None => Seq::empty(),
        },
        None => Seq::empty(),
    }
}

/// The directories put in front of `PATH` for a project terminal: those of
/// PHP and the database server, and of each language runtime located, with
/// the `Scripts` folder of Python.
pub open spec fn terminal_dirs_spec(p: RuntimePaths) -> Seq<Seq<char>> {
    dir_of(p.php_cgi@) + dir_of(p.mysql@) + opt_dir_of(p.node) + python_dirs(p.python) + opt_dir_of(p.go)
        + opt_dir_of(p.ruby)
}

/// Appends the directory of a path, where it has one.
fn push_parent(out: &mut Vec<String>, path: &str)
    ensures
        texts(final(out)@) == texts(old(out)@) + dir_of(path@),
{
    let ghost before = texts(out@);
    match parent_path(path) {
        Some(d) => {
            out.push(d);
        },
        None => {},
    }
    assert(texts(out@) =~= before + dir_of(path@));
}

/// Appends the directory of a runtime located, where there is one.
fn push_opt_parent(out: &mut Vec<String>, o: &Option<String>)
    ensures
        texts(final(out)@) == texts(old(out)@) + opt_dir_of(*o),
{
    match o {
        Some(x) => push_parent(out, x.as_str()),
        None => {
            assert(texts(out@) =~= texts(out@) + Seq::<Seq<char>>::empty());
        },
    }
}

/// Appends the directories of a Python runtime located.
fn push_python(out: &mut Vec<String>, o: &Option<String>)
    ensures
        texts(final(out)@) == texts(old(out)@) + python_dirs(*o),
{
    let ghost before = texts(out@);
    match o {
        Some(y) => {
            match parent_path(y.as_str()) {
                Some(d) => {
                    let scripts = join_path(d.as_str(), "Scripts");
                    out.push(d);
                    out.push(scripts);
                },
                None => {},
            }
        },
        None => {},
    }
    assert(texts(out@) =~= before + python_dirs(*o));
}

/// The directories put in front of `PATH` for a project terminal.
pub fn terminal_runtime_dirs(paths: &RuntimePaths) -> (r: Vec<String>)
    ensures
        texts(r@) == terminal_dirs_spec(*paths),
{
    let mut out: Vec<String> = Vec::new();
    assert(texts(out@) =~= Seq::<Seq<char>>::empty());
    push_parent(&mut out, paths.php_cgi.as_str());
    push_parent(&mut out, paths.mysql.as_str());
    push_opt_parent(&mut out, &paths.node);
    push_python(&mut out, &paths.python);
    push_opt_parent(&mut out, &paths.go);
    push_opt_parent(&mut out, &paths.ruby);
    assert(Seq::<Seq<char>>::empty() + dir_of(paths.php_cgi@) =~= dir_of(paths.php_cgi@));
    out
}

/// The program and arguments that open a terminal in `dir`, and whether
/// `PATH` is handed to it; `None` on a system with no known terminal.
pub open spec fn terminal_command_spec(os: HostOs, dir: Seq<char>) -> Option<(Seq<char>, Seq<Seq<char>>, bool)> {
    match os {
        HostOs::Windows => Some(("cmd.exe"@, seq!["/c"@, "start"@, "cmd.exe"@], true)),
        HostOs::MacOs => Some(("open"@, seq!["-a"@, "Terminal"@, dir], false)),
        HostOs::Linux => Some(("x-terminal-emulator"@, seq!["--working-directory"@, dir], true)),
        HostOs::Other => None,
    }
}

/// The program and arguments that open a terminal in `dir` (on Windows the
/// directory is the working directory of the program), and whether `PATH`
/// is handed to it.
pub fn terminal_command(os: HostOs, dir: &str) -> (r: Option<(String, Vec<String>, bool)>)
    ensures
        match terminal_command_spec(os, dir@) {
            Some((prog, args, set_path)) => r matches Some(x) && x.0@ == prog && texts(x.1@) == args && x.2
                == set_path,
            None => r is None,
        },
{
    match os {
        HostOs::Windows => {
            let args = vec!["/c".to_string(), "start".to_string(), "cmd.exe".to_string()];
            assert(texts(args@) =~= seq!["/c"@, "start"@, "cmd.exe"@]);
            Some(("cmd.exe".to_string(), args, true))
        },
        HostOs::MacOs => {
            let args = vec!["-a".to_string(), "Terminal".to_string(), dir.to_string()];
            assert(texts(args@) =~= seq!["-a"@, "Terminal"@, dir@]);
            Some(("open".to_string(), args, false))
        },
        HostOs::Linux => {
            let args = vec!["--working-directory".to_string(), dir.to_string()];
            assert(texts(args@) =~= seq!["--working-directory"@, dir@]);
            Some(("x-terminal-emulator".to_string(), args, true))
        },
        HostOs::Other => None,
    }
}

} // verus!
