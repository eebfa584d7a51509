//! Keeping the runtime catalog current: reading version numbers out of
//! upstream release pages, building catalog entries for them, and folding
//! them into the catalog.

use vstd::prelude::*;
use crate::packages::{
    same_text, copy_versions, opt_versions, BinaryConfig, Checksums, RuntimeConfig, RuntimeConfigView, Urls, VersionInfo,
    VersionInfoSingleUrl,
};
use crate::text::{
    char_index, char_index_from, chars_of, eq_chars, find, find_chars, is_ascii_digit,
    is_ascii_digit_spec, push_chars, push_str, slice_of, starts_with, starts_with_chars,
    string_from_chars, strip_prefixes, strip_prefixes_chars, trim_end_set, trim_end_set_chars,
    trim_start_set, trim_start_set_chars,
};

verus! {

broadcast use vstd::string::group_string_axioms;

// ---------------------------------------------------------------------------
// Version numbers in text.
// ---------------------------------------------------------------------------

/// `v` up to its first `.`, or all of it.
pub open spec fn before_dot(v: Seq<char>) -> Seq<char> {
    match char_index_from(v, '.', 0) {
        Some(i) => v.take(i),
        None => v,
    }
}

/// The first two dot-separated parts of a version, or the version itself
/// where it has no dot.
pub open spec fn major_minor(v: Seq<char>) -> Seq<char> {
    match char_index_from(v, '.', 0) {
        Some(i) => v.take(i) + "."@ + before_dot(v.skip(i + 1)),
        None => v,
    }
}

/// The text before the first `.` of `v`.
pub fn version_major(v: &[char]) -> (r: Vec<char>)
    ensures
        r@ == before_dot(v@),
{
    match char_index(v, '.') {
        Some(i) => slice_of(v, 0, i),
        None => slice_of(v, 0, v.len()),
    }
}

/// The first two dot-separated parts of a version.
pub fn version_major_minor(version: &[char]) -> (r: Vec<char>)
    ensures
        r@ == major_minor(version@),
{
    match char_index(version, '.') {
        Some(i) => {
            let mut r = slice_of(version, 0, i);
            r.push('.');
            let rest = slice_of(version, i + 1, version.len());
            let minor = version_major(rest.as_slice());
            let mut k: usize = 0;
            let ghost r0 = r@;
            while k < minor.len()
                invariant
                    k <= minor.len(),
                    r@ == r0 + minor@.take(k as int),
                decreases minor.len() - k,
            {
                r.push(minor[k]);
                assert(r0 + minor@.take(k + 1) =~= r0 + minor@.take(k as int) + seq![minor@[k as int]]);
                k = k + 1;
            }
            assert(minor@.take(minor.len() as int) =~= minor@);
            assert(version@.skip(i + 1) =~= rest@);
            assert(r@ =~= version@.take(i as int) + "."@ + before_dot(version@.skip(i + 1))) by {
                reveal_strlit(".");
            }
            r
        },
        None => slice_of(version, 0, version.len()),
    }
}

/// A digit or a dot.
pub open spec fn version_char(c: char) -> bool {
    is_ascii_digit_spec(c) || c == '.'
}

/// The longest run of digits and dots that starts at `i`.
pub open spec fn version_run(s: Seq<char>, i: int) -> Seq<char>
    decreases s.len() - i,
{
    if 0 <= i < s.len() && version_char(s[i]) {
        seq![s[i]] + version_run(s, i + 1)
    } else {
        Seq::empty()
    }
}

/// The number of dots in `s`.
pub open spec fn dot_count(s: Seq<char>) -> nat
    decreases s.len(),
{
    if s.len() == 0 {
        0
    } else {
        dot_count(s.drop_last()) + if s.last() == '.' {
            1nat
        } else {
            0nat
        }
    }
}

/// The version candidate that starts at `i`: the run of digits and dots,
/// without trailing dots.
pub open spec fn candidate_at(s: Seq<char>, i: int) -> Seq<char> {
    trim_end_set(version_run(s, i), seq!['.'])
}

/// A version number starts at `i`: a digit, and a candidate with a dot.
pub open spec fn version_starts_at(s: Seq<char>, i: int) -> bool {
    is_ascii_digit_spec(s[i]) && dot_count(candidate_at(s, i)) >= 1
}

/// The first version number of `s` from position `i` on.
pub open spec fn first_version_from(s: Seq<char>, i: int) -> Option<Seq<char>>
    decreases s.len() - i,
{
    if i < 0 || i >= s.len() {
        None
    } else if version_starts_at(s, i) {
        Some(candidate_at(s, i))
    } else {
        first_version_from(s, i + 1)
    }
}

/// The first version number after `marker` in `text`; an empty marker means
/// the whole text, and a marker that does not occur means none.
pub open spec fn version_after_marker_spec(text: Seq<char>, marker: Seq<char>) -> Option<Seq<char>> {
    if marker.len() == 0 {
        first_version_from(text, 0)
    } else {
        match find(text, marker) {
            Some(i) => first_version_from(text.skip(i + marker.len()), 0),
            None => None,
        }
    }
}

/// The run of digits and dots starting at `i`.
fn version_run_chars(s: &[char], i: usize) -> (r: Vec<char>)
    requires
        i <= s.len(),
    ensures
        r@ == version_run(s@, i as int),
{
    let mut j: usize = i;
    while j < s.len() && (is_ascii_digit(s[j]) || s[j] == '.')
        invariant
            i <= j <= s.len(),
            forall|k: int| i <= k < j ==> version_char(#[trigger] s@[k]),
        decreases s.len() - j,
    {
        j = j + 1;
    }
    let r = slice_of(s, i, j);
    proof {
        lemma_version_run(s@, i as int, j as int);
    }
    r
}

proof fn lemma_version_run(s: Seq<char>, i: int, j: int)
    requires
        0 <= i <= j <= s.len(),
        forall|k: int| i <= k < j ==> version_char(#[trigger] s[k]),
        j == s.len() || !version_char(s[j]),
    ensures
        version_run(s, i) == s.subrange(i, j),
    decreases j - i,
{
    if i == j {
        assert(s.subrange(i, j) =~= Seq::<char>::empty());
    } else {
        lemma_version_run(s, i + 1, j);
        assert(s.subrange(i, j) =~= seq![s[i]] + s.subrange(i + 1, j));
    }
}

/// The number of dots in `v`.
fn count_dots(v: &[char]) -> (n: usize)
    ensures
        n == dot_count(v@),
{
    let mut n: usize = 0;
    let mut i: usize = 0;
    while i < v.len()
        invariant
            i <= v.len(),
            n == dot_count(v@.take(i as int)),
            n <= i,
        decreases v.len() - i,
    {
        assert(v@.take(i + 1).drop_last() =~= v@.take(i as int));
        if v[i] == '.' {
            n = n + 1;
        }
        i = i + 1;
    }
    assert(v@.take(v.len() as int) =~= v@);
    n
}

/// The first version number of `s` from position `start` on.
fn first_version_from_chars(s: &[char], start: usize) -> (r: Option<Vec<char>>)
    requires
        start <= s.len(),
    ensures
        match first_version_from(s@, start as int) {
            Some(v) => r matches Some(x) && x@ == v,
            None => r is None,
        },
{
    let mut i: usize = start;
    while i < s.len()
        invariant
            start <= i <= s.len(),
            first_version_from(s@, start as int) == first_version_from(s@, i as int),
        decreases s.len() - i,
    {
        if is_ascii_digit(s[i]) {
            let run = version_run_chars(s, i);
            let cand = trim_end_set_chars(run.as_slice(), &['.']);
            assert(seq!['.'] =~= ['.']@);
            let dots = count_dots(cand.as_slice());
            if dots >= 1 {
                return Some(cand);
            }
        }
        i = i + 1;
    }
    None
}

spec fn occurs_at_len(s: Seq<char>, p: Seq<char>, i: int) -> bool {
    i + p.len() <= s.len()
}

/// The first version number after `marker` in `text`.
pub fn version_after_marker(text: &str, marker: &str) -> (r: Option<String>)
    ensures
        match version_after_marker_spec(text@, marker@) {
            Some(v) => r matches Some(x) && x@ == v,
            None => r is None,
        },
{
    let t = chars_of(text);
    let m = chars_of(marker);
    let found = if m.len() == 0 {
        first_version_from_chars(t.as_slice(), 0)
    } else {
        match find_chars(t.as_slice(), m.as_slice()) {
            Some(i) => {
                proof {
                    crate::text::lemma_find(t@, m@);
                    assert(occurs_at_len(t@, m@, i as int));
                }
                assert(i + m.len() <= t.len());
                let rest = slice_of(t.as_slice(), i + m.len(), t.len());
                assert(rest@ =~= t@.skip(i + m@.len()));
                first_version_from_chars(rest.as_slice(), 0)
            },
            None => None,
        }
    };
    match found {
        Some(v) => Some(string_from_chars(v.as_slice())),
        None => None,
    }
}

// ---------------------------------------------------------------------------
// Catalog entries for a version number.
// ---------------------------------------------------------------------------

/// `a`, then `x`.
pub fn text2(a: &str, x: &[char]) -> (s: String)
    ensures
        s@ == a@ + x@,
{
    let mut s = String::new();
    push_str(&mut s, a);
    push_chars(&mut s, x);
    s
}

/// `a`, `x`, `b`.
pub fn text3(a: &str, x: &[char], b: &str) -> (s: String)
    ensures
        s@ == a@ + x@ + b@,
{
    let mut s = String::new();
    push_str(&mut s, a);
    push_chars(&mut s, x);
    push_str(&mut s, b);
    assert(s@ =~= a@ + x@ + b@);
    s
}

/// `a`, `x`, `b`, `y`, `c`.
pub fn text5(a: &str, x: &[char], b: &str, y: &[char], c: &str) -> (s: String)
    ensures
        s@ == a@ + x@ + b@ + y@ + c@,
{
    let mut s = String::new();
    push_str(&mut s, a);
    push_chars(&mut s, x);
    push_str(&mut s, b);
    push_chars(&mut s, y);
    push_str(&mut s, c);
    assert(s@ =~= a@ + x@ + b@ + y@ + c@);
    s
}

/// `a`, `x`, `b`, `y`, `c`, `z`, `d`.
pub fn text7(a: &str, x: &[char], b: &str, y: &[char], c: &str, z: &[char], d: &str) -> (s: String)
    ensures
        s@ == a@ + x@ + b@ + y@ + c@ + z@ + d@,
{
    let mut s = text5(a, x, b, y, c);
    push_chars(&mut s, z);
    push_str(&mut s, d);
    assert(s@ =~= a@ + x@ + b@ + y@ + c@ + z@ + d@);
    s
}

/// The text of an optional string.
pub open spec fn opt_text(o: Option<String>) -> Option<Seq<char>> {
    match o {
        Some(s) => Some(s@),
        None => None,
    }
}

/// The download URLs of an entry, per platform.
pub open spec fn urls_are(
    u: Urls,
    windows_x64: Option<Seq<char>>,
    windows_arm64: Option<Seq<char>>,
    linux_x64: Option<Seq<char>>,
    linux_arm64: Option<Seq<char>>,
    macos_x64: Option<Seq<char>>,
    macos_arm64: Option<Seq<char>>,
) -> bool {
    &&& opt_text(u.windows_x64) == windows_x64
    &&& opt_text(u.windows_arm64) == windows_arm64
    &&& opt_text(u.linux_x64) == linux_x64
    &&& opt_text(u.linux_arm64) == linux_arm64
    &&& opt_text(u.macos_x64) == macos_x64
    &&& opt_text(u.macos_arm64) == macos_arm64
}

/// An entry with the given id, version, selection, display name and LTS flag,
/// not at end of life and with no checksums.
pub open spec fn entry_is(
    e: VersionInfo,
    id: Seq<char>,
    version: Seq<char>,
    selected: bool,
    display: Seq<char>,
    lts: bool,
) -> bool {
    &&& e.id@ == id
    &&& e.version@ == version
    &&& e.selected == selected
    &&& e.display_name@ == display
    &&& !e.eol
    &&& e.lts == lts
    &&& e.checksums.windows_x64 is None
    &&& e.checksums.windows_arm64 is None
    &&& e.checksums.linux_x64 is None
    &&& e.checksums.linux_arm64 is None
    &&& e.checksums.macos_x64 is None
    &&& e.checksums.macos_arm64 is None
}

fn entry(id: String, version: &[char], selected: bool, display: String, lts: bool, urls: Urls) -> (e:
    VersionInfo)
    ensures
        entry_is(e, id@, version@, selected, display@, lts),
        e.urls == urls,
{
    VersionInfo {
        id,
        version: string_from_chars(version),
        selected,
        display_name: display,
        eol: false,
        lts,
        checksums: Checksums::none(),
        urls,
    }
}

/// A release URL of Caddy.
pub open spec fn caddy_url(v: Seq<char>, target: Seq<char>) -> Seq<char> {
    "https://github.com/caddyserver/caddy/releases/download/v"@ + v + "/caddy_"@ + v + target
}

/// The catalog entry that [`caddy_version`] builds for version `v`.
pub open spec fn caddy_entry(e: VersionInfo, v: Seq<char>) -> bool {
    &&& entry_is(e, "caddy-"@ + major_minor(v), v, true, "Caddy "@ + v, true)
    &&& urls_are(
        e.urls,
        Some(caddy_url(v, "_windows_amd64.zip"@)),
        Some(caddy_url(v, "_windows_arm64.zip"@)),
        Some(caddy_url(v, "_linux_amd64.tar.gz"@)),
        Some(caddy_url(v, "_linux_arm64.tar.gz"@)),
        Some(caddy_url(v, "_mac_amd64.tar.gz"@)),
        Some(caddy_url(v, "_mac_arm64.tar.gz"@)),
    )
}

/// The catalog entry of Caddy release `v`.
pub fn caddy_version(version: &str) -> (e: VersionInfo)
    ensures
        caddy_entry(e, version@),
{
    let v = chars_of(version);
    let mm = version_major_minor(v.as_slice());
    let p = "https://github.com/caddyserver/caddy/releases/download/v";
    let urls = Urls {
        windows_x64: Some(text5(p, v.as_slice(), "/caddy_", v.as_slice(), "_windows_amd64.zip")),
        windows_arm64: Some(text5(p, v.as_slice(), "/caddy_", v.as_slice(), "_windows_arm64.zip")),
        linux_x64: Some(text5(p, v.as_slice(), "/caddy_", v.as_slice(), "_linux_amd64.tar.gz")),
        linux_arm64: Some(text5(p, v.as_slice(), "/caddy_", v.as_slice(), "_linux_arm64.tar.gz")),
        macos_x64: Some(text5(p, v.as_slice(), "/caddy_", v.as_slice(), "_mac_amd64.tar.gz")),
        macos_arm64: Some(text5(p, v.as_slice(), "/caddy_", v.as_slice(), "_mac_arm64.tar.gz")),
    };
    entry(text2("caddy-", mm.as_slice()), v.as_slice(), true, text2("Caddy ", v.as_slice()), true, urls)
}

/// A static PHP build URL.
pub open spec fn static_php_url(v: Seq<char>, target: Seq<char>) -> Seq<char> {
    "https://dl.static-php.dev/static-php-cli/bulk/php-"@ + v + target
}

/// The catalog entry that [`php_version`] builds for version `v`.
pub open spec fn php_entry(e: VersionInfo, v: Seq<char>) -> bool {
    &&& entry_is(
        e,
        "php-"@ + major_minor(v),
        v,
        true,
        "PHP "@ + major_minor(v),
        false,
    )
    &&& urls_are(
        e.urls,
        Some("https://windows.php.net/downloads/releases/php-"@ + v + "-nts-Win32-vs17-x64.zip"@),
        None,
        Some(static_php_url(v, "-fpm-linux-x86_64.tar.gz"@)),
        Some(static_php_url(v, "-fpm-linux-aarch64.tar.gz"@)),
        Some(static_php_url(v, "-fpm-macos-x86_64.tar.gz"@)),
        Some(static_php_url(v, "-fpm-macos-aarch64.tar.gz"@)),
    )
}

/// The catalog entry of PHP release `v`.
pub fn php_version(version: &str) -> (e: VersionInfo)
    ensures
        php_entry(e, version@),
{
    let v = chars_of(version);
    let family = version_major_minor(v.as_slice());
    let p = "https://dl.static-php.dev/static-php-cli/bulk/php-";
    let urls = Urls {
        windows_x64: Some(
            text3("https://windows.php.net/downloads/releases/php-", v.as_slice(), "-nts-Win32-vs17-x64.zip"),
        ),
        windows_arm64: None,
        linux_x64: Some(text3(p, v.as_slice(), "-fpm-linux-x86_64.tar.gz")),
        linux_arm64: Some(text3(p, v.as_slice(), "-fpm-linux-aarch64.tar.gz")),
        macos_x64: Some(text3(p, v.as_slice(), "-fpm-macos-x86_64.tar.gz")),
        macos_arm64: Some(text3(p, v.as_slice(), "-fpm-macos-aarch64.tar.gz")),
    };
    entry(
        text2("php-", family.as_slice()),
        v.as_slice(),
        true,
        text2("PHP ", family.as_slice()),
        false,
        urls,
    )
}

/// A MySQL release URL.
pub open spec fn mysql_url(family: Seq<char>, v: Seq<char>, target: Seq<char>) -> Seq<char> {
    "https://cdn.mysql.com/Downloads/MySQL-"@ + family + "/mysql-"@ + v + target
}

/// The catalog entry that [`mysql_version`] builds for version `v`.
pub open spec fn mysql_entry(e: VersionInfo, v: Seq<char>) -> bool {
    &&& entry_is(e, "mysql-"@ + major_minor(v), v, true, "MySQL "@ + v, false)
    &&& urls_are(
        e.urls,
        Some(mysql_url(major_minor(v), v, "-winx64.zip"@)),
        None,
        Some(mysql_url(major_minor(v), v, "-linux-glibc2.28-x86_64.tar.xz"@)),
        Some(mysql_url(major_minor(v), v, "-linux-glibc2.28-aarch64.tar.xz"@)),
        Some(mysql_url(major_minor(v), v, "-macos15-x86_64.tar.gz"@)),
        Some(mysql_url(major_minor(v), v, "-macos15-arm64.tar.gz"@)),
    )
}

/// The catalog entry of MySQL release `v`.
pub fn mysql_version(version: &str) -> (e: VersionInfo)
    ensures
        mysql_entry(e, version@),
{
    let v = chars_of(version);
    let f = version_major_minor(v.as_slice());
    let p = "https://cdn.mysql.com/Downloads/MySQL-";
    let urls = Urls {
        windows_x64: Some(text5(p, f.as_slice(), "/mysql-", v.as_slice(), "-winx64.zip")),
        windows_arm64: None,
        linux_x64: Some(text5(p, f.as_slice(), "/mysql-", v.as_slice(), "-linux-glibc2.28-x86_64.tar.xz")),
        linux_arm64: Some(text5(p, f.as_slice(), "/mysql-", v.as_slice(), "-linux-glibc2.28-aarch64.tar.xz")),
        macos_x64: Some(text5(p, f.as_slice(), "/mysql-", v.as_slice(), "-macos15-x86_64.tar.gz")),
        macos_arm64: Some(text5(p, f.as_slice(), "/mysql-", v.as_slice(), "-macos15-arm64.tar.gz")),
    };
    entry(text2("mysql-", f.as_slice()), v.as_slice(), true, text2("MySQL ", v.as_slice()), false, urls)
}

/// A PostgreSQL build URL for Linux.
pub open spec fn percona_url(major: Seq<char>, v: Seq<char>, target: Seq<char>) -> Seq<char> {
    "https://downloads.percona.com/downloads/postgresql-distribution-"@ + major + "/"@ + v
        + "/binary/tarball/percona-postgresql-"@ + v + target
}

/// The catalog entry that [`postgresql_version`] builds for version `v`.
pub open spec fn postgresql_entry(e: VersionInfo, v: Seq<char>) -> bool {
    &&& entry_is(
        e,
        "postgresql-"@ + before_dot(v),
        v,
        true,
        "PostgreSQL "@ + v,
        false,
    )
    &&& urls_are(
        e.urls,
        Some("https://get.enterprisedb.com/postgresql/postgresql-"@ + v + "-1-windows-x64-binaries.zip"@),
        None,
        Some(percona_url(before_dot(v), v, "-ssl3-linux-x86_64.tar.gz"@)),
        Some(percona_url(before_dot(v), v, "-ssl3-linux-aarch64.tar.gz"@)),
        Some("https://get.enterprisedb.com/postgresql/postgresql-"@ + v + "-1-osx-binaries.zip"@),
        Some("https://get.enterprisedb.com/postgresql/postgresql-"@ + v + "-1-osx-binaries.zip"@),
    )
}

/// The catalog entry of PostgreSQL release `v`.
pub fn postgresql_version(version: &str) -> (e: VersionInfo)
    ensures
        postgresql_entry(e, version@),
{
    let v = chars_of(version);
    let major = version_major(v.as_slice());
    let e = "https://get.enterprisedb.com/postgresql/postgresql-";
    let pc = "https://downloads.percona.com/downloads/postgresql-distribution-";
    let urls = Urls {
        windows_x64: Some(text3(e, v.as_slice(), "-1-windows-x64-binaries.zip")),
        windows_arm64: None,
        linux_x64: Some(
            text7(
                pc,
                major.as_slice(),
                "/",
                v.as_slice(),
                "/binary/tarball/percona-postgresql-",
                v.as_slice(),
                "-ssl3-linux-x86_64.tar.gz",
            ),
        ),
        linux_arm64: Some(
            text7(
                pc,
                major.as_slice(),
                "/",
                v.as_slice(),
                "/binary/tarball/percona-postgresql-",
                v.as_slice(),
                "-ssl3-linux-aarch64.tar.gz",
            ),
        ),
        macos_x64: Some(text3(e, v.as_slice(), "-1-osx-binaries.zip")),
        macos_arm64: Some(text3(e, v.as_slice(), "-1-osx-binaries.zip")),
    };
    entry(
        text2("postgresql-", major.as_slice()),
        v.as_slice(),
        true,
        text2("PostgreSQL ", v.as_slice()),
        false,
        urls,
    )
}

/// A database tool entry with the given id, version, selection, display name
/// and URL, not at end of life, not LTS and without a checksum.
pub open spec fn tool_entry_is(
    e: VersionInfoSingleUrl,
    id: Seq<char>,
    version: Seq<char>,
    selected: bool,
    display: Seq<char>,
    url: Seq<char>,
) -> bool {
    &&& e.id@ == id
    &&& e.version@ == version
    &&& e.selected == selected
    &&& e.display_name@ == display
    &&& !e.eol
    &&& !e.lts
    &&& e.checksum is None
    &&& e.url@ == url
}

/// The catalog entry that [`phpmyadmin_version`] builds for version `v`.
pub open spec fn phpmyadmin_entry(e: VersionInfoSingleUrl, v: Seq<char>) -> bool {
    &&& tool_entry_is(
        e,
        "phpmyadmin-"@ + major_minor(v),
        v,
        true,
        "phpMyAdmin "@ + v,
        "https://files.phpmyadmin.net/phpMyAdmin/"@ + v + "/phpMyAdmin-"@ + v
            + "-all-languages.zip"@,
    )
}

/// The catalog entry of phpMyAdmin release `v`.
pub fn phpmyadmin_version(version: &str) -> (e: VersionInfoSingleUrl)
    ensures
        phpmyadmin_entry(e, version@),
{
    let v = chars_of(version);
    let mm = version_major_minor(v.as_slice());
    VersionInfoSingleUrl {
        id: text2("phpmyadmin-", mm.as_slice()),
        version: string_from_chars(v.as_slice()),
        selected: true,
        display_name: text2("phpMyAdmin ", v.as_slice()),
        eol: false,
        lts: false,
        checksum: None,
        url: text5(
            "https://files.phpmyadmin.net/phpMyAdmin/",
            v.as_slice(),
            "/phpMyAdmin-",
            v.as_slice(),
            "-all-languages.zip",
        ),
    }
}

/// The catalog entry that [`adminer_version`] builds for version `v`.
pub open spec fn adminer_entry(e: VersionInfoSingleUrl, v: Seq<char>) -> bool {
    &&& tool_entry_is(
        e,
        "adminer-"@ + major_minor(v),
        v,
        false,
        "Adminer "@ + v,
        "https://www.adminer.org/static/download/"@ + v + "/adminer-"@ + v + ".php"@,
    )
}

/// The catalog entry of Adminer release `v`; it is not selected.
pub fn adminer_version(version: &str) -> (e: VersionInfoSingleUrl)
    ensures
        adminer_entry(e, version@),
{
    let v = chars_of(version);
    let mm = version_major_minor(v.as_slice());
    VersionInfoSingleUrl {
        id: text2("adminer-", mm.as_slice()),
        version: string_from_chars(v.as_slice()),
        selected: false,
        display_name: text2("Adminer ", v.as_slice()),
        eol: false,
        lts: false,
        checksum: None,
        url: text5("https://www.adminer.org/static/download/", v.as_slice(), "/adminer-", v.as_slice(), ".php"),
    }
}

/// A Node.js release URL.
pub open spec fn node_url(v: Seq<char>, target: Seq<char>) -> Seq<char> {
    "https://nodejs.org/dist/v"@ + v + "/node-v"@ + v + target
}

/// The catalog entry that [`node_version_with_label`] builds.
pub open spec fn node_entry(e: VersionInfo, v: Seq<char>, lts: bool, selected: bool, label: Seq<char>) -> bool {
    &&& entry_is(
        e,
        "node-"@ + before_dot(v),
        v,
        selected,
        "Node.js "@ + v + " ("@ + label + ")"@,
        lts,
    )
    &&& urls_are(
        e.urls,
        Some(node_url(v, "-win-x64.zip"@)),
        Some(node_url(v, "-win-arm64.zip"@)),
        Some(node_url(v, "-linux-x64.tar.xz"@)),
        Some(node_url(v, "-linux-arm64.tar.xz"@)),
        Some(node_url(v, "-darwin-x64.tar.gz"@)),
        Some(node_url(v, "-darwin-arm64.tar.gz"@)),
    )
}

/// The catalog entry of Node.js release `v`, labelled (LTS or Stable).
pub fn node_version_with_label(version: &str, lts: bool, selected: bool, label: &str) -> (e:
    VersionInfo)
    ensures
        node_entry(e, version@, lts, selected, label@),
{
    let v = chars_of(version);
    let major = version_major(v.as_slice());
    let l = chars_of(label);
    let p = "https://nodejs.org/dist/v";
    let urls = Urls {
        windows_x64: Some(text5(p, v.as_slice(), "/node-v", v.as_slice(), "-win-x64.zip")),
        windows_arm64: Some(text5(p, v.as_slice(), "/node-v", v.as_slice(), "-win-arm64.zip")),
        linux_x64: Some(text5(p, v.as_slice(), "/node-v", v.as_slice(), "-linux-x64.tar.xz")),
        linux_arm64: Some(text5(p, v.as_slice(), "/node-v", v.as_slice(), "-linux-arm64.tar.xz")),
        macos_x64: Some(text5(p, v.as_slice(), "/node-v", v.as_slice(), "-darwin-x64.tar.gz")),
        macos_arm64: Some(text5(p, v.as_slice(), "/node-v", v.as_slice(), "-darwin-arm64.tar.gz")),
    };
    entry(
        text2("node-", major.as_slice()),
        v.as_slice(),
        selected,
        text5("Node.js ", v.as_slice(), " (", l.as_slice(), ")"),
        lts,
        urls,
    )
}

/// A standalone Python build URL.
pub open spec fn python_build_url(v: Seq<char>, target: Seq<char>) -> Seq<char> {
    "https://github.com/astral-sh/python-build-standalone/releases/download/20260623/cpython-"@ + v
        + "+20260623-"@ + target + "-install_only.tar.gz"@
}

/// The catalog entry that [`python_version`] builds for version `v`.
pub open spec fn python_entry(e: VersionInfo, v: Seq<char>) -> bool {
    &&& entry_is(e, "python-"@ + major_minor(v), v, true, "Python "@ + v, false)
    &&& urls_are(
        e.urls,
        Some("https://www.python.org/ftp/python/"@ + v + "/python-"@ + v + "-embed-amd64.zip"@),
        Some("https://www.python.org/ftp/python/"@ + v + "/python-"@ + v + "-embed-arm64.zip"@),
        Some(python_build_url(v, "x86_64-unknown-linux-gnu"@)),
        Some(python_build_url(v, "aarch64-unknown-linux-gnu"@)),
        Some(python_build_url(v, "x86_64-apple-darwin"@)),
        Some(python_build_url(v, "aarch64-apple-darwin"@)),
    )
}

/// The catalog entry of Python release `v`.
pub fn python_version(version: &str) -> (e: VersionInfo)
    ensures
        python_entry(e, version@),
{
    let v = chars_of(version);
    let mm = version_major_minor(v.as_slice());
    let w = "https://www.python.org/ftp/python/";
    let b = "https://github.com/astral-sh/python-build-standalone/releases/download/20260623/cpython-";
    let x = chars_of("x86_64-unknown-linux-gnu");
    let y = chars_of("aarch64-unknown-linux-gnu");
    let z = chars_of("x86_64-apple-darwin");
    let q = chars_of("aarch64-apple-darwin");
    let urls = Urls {
        windows_x64: Some(text5(w, v.as_slice(), "/python-", v.as_slice(), "-embed-amd64.zip")),
        windows_arm64: Some(text5(w, v.as_slice(), "/python-", v.as_slice(), "-embed-arm64.zip")),
        linux_x64: Some(text5(b, v.as_slice(), "+20260623-", x.as_slice(), "-install_only.tar.gz")),
        linux_arm64: Some(text5(b, v.as_slice(), "+20260623-", y.as_slice(), "-install_only.tar.gz")),
        macos_x64: Some(text5(b, v.as_slice(), "+20260623-", z.as_slice(), "-install_only.tar.gz")),
        macos_arm64: Some(text5(b, v.as_slice(), "+20260623-", q.as_slice(), "-install_only.tar.gz")),
    };
    entry(text2("python-", mm.as_slice()), v.as_slice(), true, text2("Python ", v.as_slice()), false, urls)
}

/// A Go release URL.
pub open spec fn go_url(v: Seq<char>, target: Seq<char>) -> Seq<char> {
    "https://go.dev/dl/go"@ + v + target
}

/// The catalog entry that [`go_version`] builds for version `v`.
pub open spec fn go_entry(e: VersionInfo, v: Seq<char>) -> bool {
    &&& entry_is(e, "go-"@ + major_minor(v), v, true, "Go "@ + v, false)
    &&& urls_are(
        e.urls,
        Some(go_url(v, ".windows-amd64.zip"@)),
        Some(go_url(v, ".windows-arm64.zip"@)),
        Some(go_url(v, ".linux-amd64.tar.gz"@)),
        Some(go_url(v, ".linux-arm64.tar.gz"@)),
        Some(go_url(v, ".darwin-amd64.tar.gz"@)),
        Some(go_url(v, ".darwin-arm64.tar.gz"@)),
    )
}

/// The catalog entry of Go release `v`.
pub fn go_version(version: &str) -> (e: VersionInfo)
    ensures
        go_entry(e, version@),
{
    let v = chars_of(version);
    let mm = version_major_minor(v.as_slice());
    let p = "https://go.dev/dl/go";
    let urls = Urls {
        windows_x64: Some(text3(p, v.as_slice(), ".windows-amd64.zip")),
        windows_arm64: Some(text3(p, v.as_slice(), ".windows-arm64.zip")),
        linux_x64: Some(text3(p, v.as_slice(), ".linux-amd64.tar.gz")),
        linux_arm64: Some(text3(p, v.as_slice(), ".linux-arm64.tar.gz")),
        macos_x64: Some(text3(p, v.as_slice(), ".darwin-amd64.tar.gz")),
        macos_arm64: Some(text3(p, v.as_slice(), ".darwin-arm64.tar.gz")),
    };
    entry(text2("go-", mm.as_slice()), v.as_slice(), true, text2("Go ", v.as_slice()), false, urls)
}

/// A Ruby source release URL.
pub open spec fn ruby_url(family: Seq<char>, v: Seq<char>) -> Seq<char> {
    "https://cache.ruby-lang.org/pub/ruby/"@ + family + "/ruby-"@ + v + ".tar.xz"@
}

/// The catalog entry that [`ruby_version`] builds for version `v`.
pub open spec fn ruby_entry(e: VersionInfo, v: Seq<char>) -> bool {
    &&& entry_is(e, "ruby-"@ + major_minor(v), v, true, "Ruby "@ + v, false)
    &&& urls_are(
        e.urls,
        Some("https://github.com/oneclick/rubyinstaller2/releases/download/RubyInstaller-"@ + v
            + "-1/rubyinstaller-"@ + v + "-1-x64.7z"@),
        None,
        Some(ruby_url(major_minor(v), v)),
        Some(ruby_url(major_minor(v), v)),
        Some(ruby_url(major_minor(v), v)),
        Some(ruby_url(major_minor(v), v)),
    )
}

/// The catalog entry of Ruby release `v`.
pub fn ruby_version(version: &str) -> (e: VersionInfo)
    ensures
        ruby_entry(e, version@),
{
    let v = chars_of(version);
    let f = version_major_minor(v.as_slice());
    let p = "https://cache.ruby-lang.org/pub/ruby/";
    let urls = Urls {
        windows_x64: Some(
            text5(
                "https://github.com/oneclick/rubyinstaller2/releases/download/RubyInstaller-",
                v.as_slice(),
                "-1/rubyinstaller-",
                v.as_slice(),
                "-1-x64.7z",
            ),
        ),
        windows_arm64: None,
        linux_x64: Some(text5(p, f.as_slice(), "/ruby-", v.as_slice(), ".tar.xz")),
        linux_arm64: Some(text5(p, f.as_slice(), "/ruby-", v.as_slice(), ".tar.xz")),
        macos_x64: Some(text5(p, f.as_slice(), "/ruby-", v.as_slice(), ".tar.xz")),
        macos_arm64: Some(text5(p, f.as_slice(), "/ruby-", v.as_slice(), ".tar.xz")),
    };
    entry(text2("ruby-", f.as_slice()), v.as_slice(), true, text2("Ruby ", v.as_slice()), false, urls)
}

/// `version` with its `selected` flag set as given.
pub fn selected_version(version: VersionInfo, selected: bool) -> (r: VersionInfo)
    ensures
        r == (VersionInfo { selected, ..version }),
{
    let mut version = version;
    version.selected = selected;
    version
}

// ---------------------------------------------------------------------------
// Folding new entries into the catalog.
// ---------------------------------------------------------------------------

/// Two entries are listed alike: same id, version, selection, display name,
/// end of life and LTS flag.
pub open spec fn same_entry(a: VersionInfo, b: VersionInfo) -> bool {
    &&& a.id@ == b.id@
    &&& a.version@ == b.version@
    &&& a.selected == b.selected
    &&& a.display_name@ == b.display_name@
    &&& a.eol == b.eol
    &&& a.lts == b.lts
}

/// Two version lists are listed alike, position by position.
pub open spec fn same_listing(a: Seq<VersionInfo>, b: Seq<VersionInfo>) -> bool {
    a.len() == b.len() && forall|i: int| 0 <= i < a.len() ==> #[trigger] same_entry(a[i], b[i])
}

fn entries_alike(a: &VersionInfo, b: &VersionInfo) -> (r: bool)
    ensures
        r == same_entry(*a, *b),
{
    same_text(a.id.as_str(), b.id.as_str()) && same_text(a.version.as_str(), b.version.as_str())
        && a.selected == b.selected && same_text(a.display_name.as_str(), b.display_name.as_str())
        && a.eol == b.eol && a.lts == b.lts
}

/// Makes `next` the only version, unless it already is (same id and version),
/// in which case that version is only marked selected. Answers whether the
/// list changed.
pub fn replace_versions(versions: &mut Vec<VersionInfo>, next: VersionInfo) -> (changed: bool)
    ensures
        if old(versions)@.len() == 1 && old(versions)@[0].id@ == next.id@ && old(versions)@[0].version@
            == next.version@ {
            !changed && final(versions)@ == seq![VersionInfo { selected: true, ..old(versions)@[0] }]
        } else {
            changed && final(versions)@ == seq![next]
        },
{
    if versions.len() == 1 && same_text(versions[0].id.as_str(), next.id.as_str()) && same_text(
        versions[0].version.as_str(),
        next.version.as_str(),
    ) {
        let mut first = versions[0].duplicate();
        first.selected = true;
        versions.set(0, first);
        assert(versions@ =~= seq![VersionInfo { selected: true, ..old(versions)@[0] }]);
        return false;
    }
    *versions = vec![next];
    true
}

/// Replaces the list by `next` where the two are not listed alike. Answers
/// whether it did.
pub fn replace_version_list(versions: &mut Vec<VersionInfo>, next: Vec<VersionInfo>) -> (changed: bool)
    ensures
        changed == !same_listing(old(versions)@, next@),
        changed ==> final(versions)@ == next@,
        !changed ==> final(versions)@ == old(versions)@,
{
    let mut changed = versions.len() != next.len();
    if !changed {
        let mut i: usize = 0;
        while i < versions.len() && !changed
            invariant
                i <= versions.len(),
                versions.len() == next.len(),
                forall|k: int| 0 <= k < i ==> #[trigger] same_entry(versions@[k], next@[k]),
                changed ==> i < versions.len() && !same_entry(versions@[i as int], next@[i as int]),
            decreases versions.len() - i + (if changed {
                0int
            } else {
                1int
            }),
        {
            if !entries_alike(&versions[i], &next[i]) {
                changed = true;
            } else {
                i = i + 1;
            }
        }
        assert(changed == !same_listing(versions@, next@));
    }
    if changed {
        *versions = next;
    }
    changed
}

/// Listing a list again is no change.
pub proof fn lemma_same_listing_reflexive(a: Seq<VersionInfo>)
    ensures
        same_listing(a, a),
{
}

/// `s` with every entry unselected.
pub open spec fn cleared(s: Seq<VersionInfo>) -> Seq<VersionInfo> {
    Seq::new(s.len(), |i: int| VersionInfo { selected: false, ..s[i] })
}

/// The index of the first entry of `s` with id `id`.
pub open spec fn entry_index(s: Seq<VersionInfo>, id: Seq<char>) -> Option<int> {
    if exists|i: int| 0 <= i < s.len() && #[trigger] s[i].id@ == id {
        Some(
            choose|i: int|
                0 <= i < s.len() && #[trigger] s[i].id@ == id && forall|j: int|
                    0 <= j < i ==> s[j].id@ != id,
        )
    } else {
        None
    }
}

/// `entry_index` names the first entry with the id.
pub proof fn lemma_entry_index_pub(s: Seq<VersionInfo>, id: Seq<char>, k: int)
    requires
        0 <= k < s.len(),
        s[k].id@ == id,
        forall|j: int| 0 <= j < k ==> s[j].id@ != id,
    ensures
        entry_index(s, id) == Some(k),
{
    lemma_entry_index(s, id, k);
}

proof fn lemma_entry_index(s: Seq<VersionInfo>, id: Seq<char>, k: int)
    requires
        0 <= k < s.len(),
        s[k].id@ == id,
        forall|j: int| 0 <= j < k ==> s[j].id@ != id,
    ensures
        entry_index(s, id) == Some(k),
{
    let c = choose|i: int|
        0 <= i < s.len() && #[trigger] s[i].id@ == id && forall|j: int| 0 <= j < i ==> s[j].id@ != id;
    assert(0 <= k < s.len() && s[k].id@ == id && forall|j: int| 0 <= j < k ==> s[j].id@ != id);
    if c < k {
        assert(s[c].id@ != id);
    }
    if c > k {
        assert(s[k].id@ != id);
    }
}

/// `a` comes before `b` in a list ordered by version, newest first.
pub open spec fn newer(a: VersionInfo, b: VersionInfo) -> bool {
    crate::htaccess::lex_less(b.version@, a.version@)
}

/// `x` inserted into `s` before the first entry that it is newer than.
pub open spec fn insert_newest_first(s: Seq<VersionInfo>, x: VersionInfo) -> Seq<VersionInfo>
    decreases s.len(),
{
    if s.len() == 0 {
        seq![x]
    } else if newer(x, s[0]) {
        seq![x] + s
    } else {
        seq![s[0]] + insert_newest_first(s.drop_first(), x)
    }
}

/// The stable sort of `s` by version, newest first (comparing the version
/// text by code points).
pub open spec fn sort_newest_first(s: Seq<VersionInfo>) -> Seq<VersionInfo>
    decreases s.len(),
{
    if s.len() == 0 {
        Seq::empty()
    } else {
        insert_newest_first(sort_newest_first(s.drop_last()), s.last())
    }
}

proof fn lemma_insert_newest_at(s: Seq<VersionInfo>, x: VersionInfo, j: int)
    requires
        0 <= j <= s.len(),
        forall|k: int| 0 <= k < j ==> !newer(x, #[trigger] s[k]),
        j < s.len() ==> newer(x, s[j]),
    ensures
        insert_newest_first(s, x) == s.take(j) + seq![x] + s.skip(j),
    decreases s.len(),
{
    if s.len() == 0 {
        assert(s.take(j) + seq![x] + s.skip(j) =~= seq![x]);
    } else if j == 0 {
        assert(s.take(0) + seq![x] + s.skip(0) =~= seq![x] + s);
    } else {
        assert forall|k: int| 0 <= k < j - 1 implies !newer(x, #[trigger] s.drop_first()[k]) by {
            assert(s.drop_first()[k] == s[k + 1]);
        }
        lemma_insert_newest_at(s.drop_first(), x, j - 1);
        assert(seq![s[0]] + (s.drop_first().take(j - 1) + seq![x] + s.drop_first().skip(j - 1))
            =~= s.take(j) + seq![x] + s.skip(j));
    }
}

/// Sorts a list by version, newest first, keeping entries of equal version in
/// their order.
pub fn sort_versions_newest_first(versions: Vec<VersionInfo>) -> (r: Vec<VersionInfo>)
    ensures
        r@ == sort_newest_first(versions@),
{
    let mut out: Vec<VersionInfo> = Vec::new();
    let mut i: usize = 0;
    assert(out@ =~= sort_newest_first(versions@.take(0)));
    while i < versions.len()
        invariant
            i <= versions.len(),
            out@ == sort_newest_first(versions@.take(i as int)),
        decreases versions.len() - i,
    {
        let x = versions[i].duplicate();
        let xv = chars_of(x.version.as_str());
        let mut j: usize = 0;
        let ghost ov = out@;
        let mut found = false;
        while j < out.len() && !found
            invariant
                j <= out.len(),
                ov == out@,
                xv@ == x.version@,
                found ==> j < out.len() && newer(x, ov[j as int]),
                forall|k: int| 0 <= k < j ==> !newer(x, #[trigger] ov[k]),
            decreases out.len() - j + (if found {
                0int
            } else {
                1int
            }),
        {
            let yv = chars_of(out[j].version.as_str());
            if crate::htaccess::lex_less_chars(yv.as_slice(), xv.as_slice()) {
                found = true;
            } else {
                j = j + 1;
            }
        }
        proof {
            lemma_insert_newest_at(ov, x, j as int);
        }
        out.insert(j, x);
        assert(out@ =~= ov.take(j as int) + seq![x] + ov.skip(j as int));
        assert(versions@.take(i + 1).drop_last() =~= versions@.take(i as int));
        assert(versions@.take(i + 1).last() == versions@[i as int]);
        i = i + 1;
    }
    assert(versions@.take(versions.len() as int) =~= versions@);
    out
}

/// The list with `next` put in: in place of the first entry with its id, or
/// in front where there is none; every other entry unselected.
pub open spec fn placed(s: Seq<VersionInfo>, next: VersionInfo) -> Seq<VersionInfo> {
    match entry_index(s, next.id@) {
        Some(k) => cleared(s).update(k, next),
        None => seq![next] + cleared(s),
    }
}

/// Puts `next` into the list as the selected version (see [`placed`]) and
/// orders the list newest first. Answers whether a version or display name
/// changed or an entry was added.
pub fn upsert_selected_version(versions: &mut Vec<VersionInfo>, next: VersionInfo) -> (changed: bool)
    ensures
        final(versions)@ == sort_newest_first(placed(old(versions)@, next)),
        changed == match entry_index(old(versions)@, next.id@) {
            Some(k) => old(versions)@[k].version@ != next.version@ || old(versions)@[k].display_name@
                != next.display_name@,
            None => true,
        },
{
    let ghost o = versions@;
    let mut cleared_list: Vec<VersionInfo> = Vec::new();
    let mut found: Option<usize> = None;
    let mut i: usize = 0;
    while i < versions.len()
        invariant
            i <= versions.len(),
            versions@ == o,
            cleared_list@ == cleared(o).take(i as int),
            match found {
                Some(k) => k < i && o[k as int].id@ == next.id@ && forall|j: int|
                    0 <= j < k ==> o[j].id@ != next.id@,
                None => forall|j: int| 0 <= j < i ==> o[j].id@ != next.id@,
            },
        decreases versions.len() - i,
    {
        let mut e = versions[i].duplicate();
        e.selected = false;
        cleared_list.push(e);
        assert(cleared_list@ =~= cleared(o).take(i + 1));
        if found.is_none() && same_text(versions[i].id.as_str(), next.id.as_str()) {
            found = Some(i);
        }
        i = i + 1;
    }
    assert(cleared(o).take(o.len() as int) =~= cleared(o));
    let changed;
    match found {
        Some(k) => {
            proof {
                lemma_entry_index(o, next.id@, k as int);
            }
            changed = !same_text(versions[k].version.as_str(), next.version.as_str()) || !same_text(
                versions[k].display_name.as_str(),
                next.display_name.as_str(),
            );
            cleared_list.set(k, next);
        },
        None => {
            changed = true;
            cleared_list.insert(0, next);
            assert(cleared_list@ =~= seq![next] + cleared(o));
        },
    }
    *versions = sort_versions_newest_first(cleared_list);
    changed
}

/// The database tool list with `next` put in: in place of the first entry
/// with its id, keeping that entry selected where it was, or at the end.
/// Where `select` holds, `next` is the only selected entry.
/// `s` with every entry unselected.
pub open spec fn unselected_tools(s: Seq<VersionInfoSingleUrl>) -> Seq<VersionInfoSingleUrl> {
    Seq::new(s.len(), |i: int| VersionInfoSingleUrl { selected: false, ..s[i] })
}

/// The database tool list with `next` put in; see [`upsert_selected_single_url`].
pub open spec fn placed_tool(
    s: Seq<VersionInfoSingleUrl>,
    next: VersionInfoSingleUrl,
    select: bool,
) -> Seq<VersionInfoSingleUrl> {
    let base = if select {
        unselected_tools(s)
    } else {
        s
    };
    match crate::packages::tool_entry_index(s, next.id@) {
        Some(k) => base.update(k, VersionInfoSingleUrl { selected: select || base[k].selected, ..next }),
        None => base.push(VersionInfoSingleUrl { selected: select, ..next }),
    }
}

/// Puts a database tool version into the list. Answers whether a version or
/// URL changed or an entry was added.
pub fn upsert_selected_single_url(
    versions: &mut Vec<VersionInfoSingleUrl>,
    next: VersionInfoSingleUrl,
    select: bool,
) -> (changed: bool)
    ensures
        final(versions)@ == placed_tool(old(versions)@, next, select),
        changed == match crate::packages::tool_entry_index(old(versions)@, next.id@) {
            Some(k) => old(versions)@[k].version@ != next.version@ || old(versions)@[k].url@
                != next.url@,
            None => true,
        },
{
    let ghost o = versions@;
    let ghost base = if select {
        unselected_tools(o)
    } else {
        o
    };
    if select {
        let mut i: usize = 0;
        while i < versions.len()
            invariant
                i <= versions.len(),
                versions.len() == o.len(),
                forall|j: int| 0 <= j < i ==> versions@[j] == (VersionInfoSingleUrl { selected: false, ..o[j] }),
                forall|j: int| i <= j < o.len() ==> versions@[j] == o[j],
            decreases versions.len() - i,
        {
            let mut e = versions[i].duplicate();
            e.selected = false;
            versions.set(i, e);
            i = i + 1;
        }
    }
    assert(versions@ =~= base);
    let mut i: usize = 0;
    while i < versions.len()
        invariant
            i <= versions.len(),
            versions@ == base,
            o == old(versions)@,
            base == (if select {
                unselected_tools(o)
            } else {
                o
            }),
            base.len() == o.len(),
            forall|j: int| 0 <= j < o.len() ==> #[trigger] base[j].id == o[j].id && base[j].version
                == o[j].version && base[j].url == o[j].url,
            forall|j: int| 0 <= j < i ==> o[j].id@ != next.id@,
        decreases versions.len() - i,
    {
        if same_text(versions[i].id.as_str(), next.id.as_str()) {
            proof {
                crate::packages::lemma_tool_entry_index(o, next.id@, i as int);
            }
            let changed = !same_text(versions[i].version.as_str(), next.version.as_str()) || !same_text(
                versions[i].url.as_str(),
                next.url.as_str(),
            );
            let keep = versions[i].selected;
            assert(versions@[i as int] == base[i as int]);
            assert(base[i as int].version == o[i as int].version && base[i as int].url == o[i as int].url);
            let ghost entry = VersionInfoSingleUrl { selected: select || base[i as int].selected, ..next };
            assert(placed_tool(o, next, select) == base.update(i as int, entry));
            versions.set(i, VersionInfoSingleUrl { selected: select || keep, ..next });
            assert(versions@ =~= base.update(i as int, entry));
            return changed;
        }
        i = i + 1;
    }
    proof {
        if crate::packages::tool_entry_index(o, next.id@) is Some {
            let k = crate::packages::tool_entry_index(o, next.id@).unwrap();
            assert(o[k].id@ == next.id@);
        }
    }
    versions.push(VersionInfoSingleUrl { selected: select, ..next });
    true
}

// ---------------------------------------------------------------------------
// Release lists read from upstream indexes.
// ---------------------------------------------------------------------------

/// A Node.js release as its index lists it: the version, and whether it
/// belongs to a long-term-support line.
pub struct NodeRelease {
    pub version: String,
    pub lts: bool,
}

/// A Go release as its index lists it.
pub struct GoRelease {
    pub version: String,
    pub stable: bool,
}

/// A version tag without its leading `v`s (`trim_start_matches('v')`).
pub open spec fn without_v(s: Seq<char>) -> Seq<char> {
    trim_start_set(s, seq!['v'])
}

/// A planned Node.js entry: version, LTS, selected and label.
pub type NodePick = (Seq<char>, bool, bool, Seq<char>);

/// The scan of the Node.js index: majors seen, entries planned, whether an
/// LTS line was selected, and whether the list is full.
pub type NodeScan = (Seq<Seq<char>>, Seq<NodePick>, bool, bool);

/// One release of the scan: the first release of each major line is taken;
/// LTS lines are kept (the first one selected), and a non-LTS line only where
/// it comes first; four entries are enough.
pub open spec fn node_step(st: NodeScan, version: Seq<char>, lts: bool) -> NodeScan {
    let v = without_v(version);
    let major = crate::catalog::before_dot(v);
    if major.len() == 0 || st.0.contains(major) {
        st
    } else {
        let seen = st.0.push(major);
        let out = if lts {
            st.1.push((v, true, !st.2, "LTS"@))
        } else if st.1.len() == 0 {
            st.1.push((v, false, false, "Stable"@))
        } else {
            st.1
        };
        let selected = if lts {
            true
        } else {
            st.2
        };
        (seen, out, selected, out.len() >= 4)
    }
}

/// The scan over the first `n` releases.
pub open spec fn node_scan(releases: Seq<(Seq<char>, bool)>, n: nat) -> NodeScan
    decreases n,
{
    if n == 0 || n > releases.len() {
        (Seq::empty(), Seq::empty(), false, false)
    } else {
        let st = node_scan(releases, (n - 1) as nat);
        if st.3 {
            st
        } else {
            node_step(st, releases[n - 1].0, releases[n - 1].1)
        }
    }
}

/// The releases as plain values.
pub open spec fn node_releases_view(r: Seq<NodeRelease>) -> Seq<(Seq<char>, bool)> {
    Seq::new(r.len(), |i: int| (r[i].version@, r[i].lts))
}

fn seen_major(seen: &Vec<Vec<char>>, major: &[char]) -> (r: bool)
    ensures
        r == seen@.map_values(|v: Vec<char>| v@).contains(major@),
{
    let ghost sv = seen@.map_values(|v: Vec<char>| v@);
    let mut i: usize = 0;
    while i < seen.len()
        invariant
            i <= seen.len(),
            sv == seen@.map_values(|v: Vec<char>| v@),
            forall|k: int| 0 <= k < i ==> sv[k] != major@,
        decreases seen.len() - i,
    {
        if eq_chars(seen[i].as_slice(), major) {
            assert(sv[i as int] == major@);
            return true;
        }
        i = i + 1;
    }
    false
}

/// The Node.js catalog entries for an index of releases, newest first: see
/// [`node_step`]; none where no line qualifies.
pub fn node_release_lines(releases: &Vec<NodeRelease>) -> (r: Option<Vec<VersionInfo>>)
    ensures
        ({
            let plan = node_scan(node_releases_view(releases@), releases.len() as nat).1;
            match r {
                None => plan.len() == 0,
                Some(v) => plan.len() > 0 && v.len() == plan.len() && forall|i: int|
                    0 <= i < plan.len() ==> node_entry(
                        #[trigger] v@[i],
                        plan[i].0,
                        plan[i].1,
                        plan[i].2,
                        plan[i].3,
                    ),
            }
        }),
{
    let ghost rv = node_releases_view(releases@);
    let mut seen: Vec<Vec<char>> = Vec::new();
    let mut out: Vec<VersionInfo> = Vec::new();
    let mut selected_lts = false;
    let mut done = false;
    let mut i: usize = 0;
    while i < releases.len()
        invariant
            i <= releases.len(),
            rv == node_releases_view(releases@),
            ({
                let st = node_scan(rv, i as nat);
                &&& st.0 == seen@.map_values(|v: Vec<char>| v@)
                &&& out.len() == st.1.len()
                &&& forall|k: int|
                    0 <= k < st.1.len() ==> node_entry(
                        #[trigger] out@[k],
                        st.1[k].0,
                        st.1[k].1,
                        st.1[k].2,
                        st.1[k].3,
                    )
                &&& st.2 == selected_lts
                &&& st.3 == done
            }),
        decreases releases.len() - i,
    {
        let ghost st = node_scan(rv, i as nat);
        assert(node_scan(rv, (i + 1) as nat) == if st.3 {
            st
        } else {
            node_step(st, rv[i as int].0, rv[i as int].1)
        });
        if !done {
            let raw = chars_of(releases[i].version.as_str());
            let v = trim_start_set_chars(raw.as_slice(), &['v']);
            assert(seq!['v'] =~= ['v']@);
            let major = version_major(v.as_slice());
            if major.len() > 0 && !seen_major(&seen, major.as_slice()) {
                let ghost old_seen = seen@;
                seen.push(major);
                assert(seen@.map_values(|x: Vec<char>| x@) =~= old_seen.map_values(|x: Vec<char>| x@).push(
                    before_dot(without_v(rv[i as int].0)),
                ));
                let vs = string_from_chars(v.as_slice());
                if releases[i].lts {
                    let sel = !selected_lts;
                    selected_lts = true;
                    out.push(node_version_with_label(vs.as_str(), true, sel, "LTS"));
                } else if out.len() == 0 {
                    out.push(node_version_with_label(vs.as_str(), false, false, "Stable"));
                }
                if out.len() >= 4 {
                    done = true;
                }
            }
        }
        i = i + 1;
    }
    if out.len() == 0 {
        None
    } else {
        Some(out)
    }
}

/// The versions of the first two stable Go releases.
pub open spec fn go_plan(releases: Seq<(Seq<char>, bool)>) -> Seq<Seq<char>>
    decreases releases.len(),
{
    if releases.len() == 0 {
        Seq::empty()
    } else {
        let rest = go_plan(releases.drop_first());
        let all = if releases[0].1 {
            seq![strip_prefixes(releases[0].0, "go"@)] + rest
        } else {
            rest
        };
        all.take(if all.len() < 2 { all.len() as int } else { 2 })
    }
}

/// The releases as plain values.
pub open spec fn go_releases_view(r: Seq<GoRelease>) -> Seq<(Seq<char>, bool)> {
    Seq::new(r.len(), |i: int| (r[i].version@, r[i].stable))
}

/// The Go catalog entries of the two newest stable releases, the first one
/// selected; none where no release is stable.
pub fn go_stable_versions(releases: &Vec<GoRelease>) -> (r: Option<Vec<VersionInfo>>)
    ensures
        ({
            let plan = go_plan(go_releases_view(releases@));
            match r {
                None => plan.len() == 0,
                Some(v) => plan.len() > 0 && v.len() == plan.len() && forall|i: int|
                    0 <= i < plan.len() ==> (#[trigger] v@[i]).selected == (i == 0) && go_entry(
                        VersionInfo { selected: true, ..v@[i] },
                        plan[i],
                    ),
            }
        }),
{
    let ghost rv = go_releases_view(releases@);
    let mut picked: Vec<Vec<char>> = Vec::new();
    let mut k: usize = releases.len();
    // Scanning from the end keeps the plan of each suffix.
    while k > 0
        invariant
            k <= releases.len(),
            rv == go_releases_view(releases@),
            picked@.map_values(|v: Vec<char>| v@) == go_plan(rv.skip(k as int)),
        decreases k,
    {
        k = k - 1;
        assert(rv.skip(k as int).drop_first() =~= rv.skip(k + 1));
        let ghost old_p = picked@.map_values(|v: Vec<char>| v@);
        if releases[k].stable {
            let raw = chars_of(releases[k].version.as_str());
            let go = chars_of("go");
            proof {
                reveal_strlit("go");
            }
            let v = strip_prefixes_chars(raw.as_slice(), go.as_slice());
            picked.insert(0, v);
            if picked.len() > 2 {
                picked.truncate(2);
            }
            assert(picked@.map_values(|x: Vec<char>| x@) =~= go_plan(rv.skip(k as int)));
        } else {
            if picked.len() > 2 {
                picked.truncate(2);
            }
            assert(picked@.map_values(|x: Vec<char>| x@) =~= go_plan(rv.skip(k as int)));
        }
    }
    assert(rv.skip(0) =~= rv);
    if picked.len() == 0 {
        return None;
    }
    let ghost plan = go_plan(rv);
    let mut out: Vec<VersionInfo> = Vec::new();
    let mut i: usize = 0;
    while i < picked.len()
        invariant
            i <= picked.len(),
            plan == picked@.map_values(|v: Vec<char>| v@),
            out.len() == i,
            forall|j: int|
                0 <= j < i ==> (#[trigger] out@[j]).selected == (j == 0) && go_entry(
                    VersionInfo { selected: true, ..out@[j] },
                    plan[j],
                ),
        decreases picked.len() - i,
    {
        let vs = string_from_chars(picked[i].as_slice());
        let e = go_version(vs.as_str());
        let e2 = selected_version(e, i == 0);
        assert(VersionInfo { selected: true, ..e2 } == e);
        out.push(e2);
        i = i + 1;
    }
    Some(out)
}

/// The Ruby version of a RubyInstaller release tag: the text between
/// `RubyInstaller-` and the last `-`.
pub open spec fn ruby_tag_version(tag: Seq<char>) -> Option<Seq<char>> {
    let p = "RubyInstaller-"@;
    if starts_with(tag, p) {
        let rest = tag.skip(p.len() as int);
        if exists|i: int| 0 <= i < rest.len() && rest[i] == '-' {
            let last = choose|i: int|
                0 <= i < rest.len() && rest[i] == '-' && forall|j: int| i < j < rest.len() ==> rest[j] != '-';
            Some(rest.take(last))
        } else {
            None
        }
    } else {
        None
    }
}

/// The Ruby version of a RubyInstaller release tag.
pub fn ruby_version_from_tag(tag: &str) -> (r: Option<String>)
    ensures
        match ruby_tag_version(tag@) {
            Some(v) => r matches Some(x) && x@ == v,
            None => r is None,
        },
{
    let t = chars_of(tag);
    let p = chars_of("RubyInstaller-");
    proof {
        reveal_strlit("RubyInstaller-");
    }
    if !starts_with_chars(t.as_slice(), p.as_slice()) {
        return None;
    }
    let rest = slice_of(t.as_slice(), p.len(), t.len());
    assert(rest@ =~= t@.skip(p@.len() as int));
    let mut j: usize = rest.len();
    while j > 0 && rest[j - 1] != '-'
        invariant
            j <= rest.len(),
            forall|m: int| j <= m < rest.len() ==> rest@[m] != '-',
        decreases j,
    {
        j = j - 1;
    }
    if j == 0 {
        return None;
    }
    let last = j - 1;
    proof {
        let r = rest@;
        let c = choose|i: int| 0 <= i < r.len() && r[i] == '-' && forall|m: int| i < m < r.len() ==> r[m] != '-';
        assert(0 <= last < r.len() && r[last as int] == '-');
        if c < last {
            assert(r[last as int] != '-');
        }
        if c > last {
            assert(r[c] != '-');
        }
    }
    let v = slice_of(rest.as_slice(), 0, last);
    Some(string_from_chars(v.as_slice()))
}

/// A release tag without one leading `v`.
pub open spec fn tag_version(tag: Seq<char>) -> Seq<char> {
    if tag.len() > 0 && tag[0] == 'v' {
        tag.drop_first()
    } else {
        tag
    }
}

/// A release tag without one leading `v`.
pub fn version_from_tag(tag: &str) -> (r: String)
    ensures
        r@ == tag_version(tag@),
{
    let t = chars_of(tag);
    if t.len() > 0 && t[0] == 'v' {
        let v = slice_of(t.as_slice(), 1, t.len());
        assert(v@ =~= t@.drop_first());
        string_from_chars(v.as_slice())
    } else {
        string_from_chars(t.as_slice())
    }
}

// ---------------------------------------------------------------------------
// Refreshing the catalog from what upstream published.
// ---------------------------------------------------------------------------

/// What [`replace_versions`] makes of a list.
pub open spec fn replaced_list(o: Seq<VersionInfo>, next: VersionInfo) -> Seq<VersionInfo> {
    if o.len() == 1 && o[0].id@ == next.id@ && o[0].version@ == next.version@ {
        seq![VersionInfo { selected: true, ..o[0] }]
    } else {
        seq![next]
    }
}

/// Whether [`replace_versions`] changes a list.
pub open spec fn replaced_changes(o: Seq<VersionInfo>, next: VersionInfo) -> bool {
    !(o.len() == 1 && o[0].id@ == next.id@ && o[0].version@ == next.version@)
}

/// What [`replace_version_list`] makes of a list, and whether it changes it.
pub open spec fn listed(o: Seq<VersionInfo>, next: Seq<VersionInfo>, f: Seq<VersionInfo>, ch: bool) -> bool {
    if same_listing(o, next) {
        f == o && !ch
    } else {
        f == next && ch
    }
}

/// Whether [`upsert_selected_version`] changes a list.
pub open spec fn upsert_changes(o: Seq<VersionInfo>, next: VersionInfo) -> bool {
    match entry_index(o, next.id@) {
        Some(k) => o[k].version@ != next.version@ || o[k].display_name@ != next.display_name@,
        None => true,
    }
}

/// Whether [`upsert_selected_single_url`] changes a list.
pub open spec fn tool_upsert_changes(o: Seq<VersionInfoSingleUrl>, next: VersionInfoSingleUrl) -> bool {
    match crate::packages::tool_entry_index(o, next.id@) {
        Some(k) => o[k].version@ != next.version@ || o[k].url@ != next.url@,
        None => true,
    }
}

/// The version found in an optional page after a marker.
pub open spec fn page_version(page: Option<String>, marker: Seq<char>) -> Option<Seq<char>> {
    match page {
        Some(p) => version_after_marker_spec(p@, marker),
        None => None,
    }
}

/// An entry built for `v` by `build`, then unselected.
pub open spec fn unselected_entry(e: VersionInfo, ok: bool) -> bool {
    ok && !e.selected
}

/// Caddy: its one version becomes the newest release.
#[verifier::opaque]
pub open spec fn caddy_refreshed(o: Seq<VersionInfo>, tag: Option<String>, f: Seq<VersionInfo>, ch: bool) -> bool {
    match tag {
        None => f == o && !ch,
        Some(t) => exists|n: VersionInfo|
            #[trigger] caddy_entry(n, tag_version(t@)) && f == replaced_list(o, n) && ch
                == replaced_changes(o, n),
    }
}

/// PHP: the newest release is put in and selected.
#[verifier::opaque]
pub open spec fn php_refreshed(o: Seq<VersionInfo>, page: Option<String>, f: Seq<VersionInfo>, ch: bool) -> bool {
    match page_version(page, "downloads of PHP "@) {
        None => f == o && !ch,
        Some(v) => exists|n: VersionInfo|
            #[trigger] php_entry(n, v) && f == sort_newest_first(placed(o, n)) && ch == upsert_changes(o, n),
    }
}

/// MySQL: the newest release, and 8.4.10 unselected.
#[verifier::opaque]
pub open spec fn mysql_refreshed(o: Seq<VersionInfo>, page: Option<String>, f: Seq<VersionInfo>, ch: bool) -> bool {
    match page_version(page, "MySQL Community Server "@) {
        None => f == o && !ch,
        Some(v) => exists|a: VersionInfo, b: VersionInfo|
            #[trigger] mysql_entry(a, v) && #[trigger] mysql_entry(
                VersionInfo { selected: true, ..b },
                "8.4.10"@,
            ) && !b.selected && listed(o, seq![a, b], f, ch),
    }
}

/// PostgreSQL: the newest release, and 17.10 and 16.14 unselected.
#[verifier::opaque]
pub open spec fn postgresql_refreshed(o: Seq<VersionInfo>, page: Option<String>, f: Seq<VersionInfo>, ch: bool) -> bool {
    match page_version(page, "PostgreSQL Version"@) {
        None => f == o && !ch,
        Some(v) => exists|a: VersionInfo, b: VersionInfo, c: VersionInfo|
            #[trigger] postgresql_entry(a, v) && #[trigger] postgresql_entry(
                VersionInfo { selected: true, ..b },
                "17.10"@,
            ) && #[trigger] postgresql_entry(VersionInfo { selected: true, ..c }, "16.14"@)
                && !b.selected && !c.selected && listed(o, seq![a, b, c], f, ch),
    }
}

/// A database tool list after putting in a found phpMyAdmin release.
#[verifier::opaque]
pub open spec fn pma_refreshed(o: Seq<VersionInfoSingleUrl>, page: Option<String>, f: Seq<VersionInfoSingleUrl>, ch: bool) -> bool {
    match page_version(page, "phpMyAdmin "@) {
        None => f == o && !ch,
        Some(v) => exists|n: VersionInfoSingleUrl|
            #[trigger] phpmyadmin_entry(n, v) && f == placed_tool(o, n, false) && ch == tool_upsert_changes(o, n),
    }
}

/// A database tool list after putting in a found Adminer release.
#[verifier::opaque]
pub open spec fn adminer_refreshed(o: Seq<VersionInfoSingleUrl>, page: Option<String>, f: Seq<VersionInfoSingleUrl>, ch: bool) -> bool {
    match page_version(page, ""@) {
        None => f == o && !ch,
        Some(v) => exists|n: VersionInfoSingleUrl|
            #[trigger] adminer_entry(n, v) && f == placed_tool(o, n, false) && ch == tool_upsert_changes(o, n),
    }
}

/// An optional runtime list after replacing it by `next`, where something
/// was found: the entry is created where it was absent.
pub open spec fn optional_listed(
    o: Option<Seq<VersionInfo>>,
    next: Seq<VersionInfo>,
    f: Option<Seq<VersionInfo>>,
    ch: bool,
) -> bool {
    let base = match o {
        Some(s) => s,
        None => Seq::empty(),
    };
    f is Some && listed(base, next, f.unwrap(), ch)
}

/// Node.js: the release lines of the index.
#[verifier::opaque]
pub open spec fn node_refreshed(
    o: Option<Seq<VersionInfo>>,
    releases: Option<Vec<NodeRelease>>,
    f: Option<Seq<VersionInfo>>,
    ch: bool,
) -> bool {
    match releases {
        None => f == o && !ch,
        Some(rel) => {
            let plan = node_scan(node_releases_view(rel@), rel.len() as nat).1;
            if plan.len() == 0 {
                f == o && !ch
            } else {
                exists|next: Seq<VersionInfo>|
                    #[trigger] next.len() == plan.len() && (forall|i: int|
                        0 <= i < plan.len() ==> node_entry(
                            #[trigger] next[i],
                            plan[i].0,
                            plan[i].1,
                            plan[i].2,
                            plan[i].3,
                        )) && optional_listed(o, next, f, ch)
            }
        },
    }
}

/// Python: the newest release, and 3.13.14 unselected.
#[verifier::opaque]
pub open spec fn python_refreshed(
    o: Option<Seq<VersionInfo>>,
    page: Option<String>,
    f: Option<Seq<VersionInfo>>,
    ch: bool,
) -> bool {
    match page_version(page, "Download Python "@) {
        None => f == o && !ch,
        Some(v) => exists|a: VersionInfo, b: VersionInfo|
            #[trigger] python_entry(a, v) && #[trigger] python_entry(
                VersionInfo { selected: true, ..b },
                "3.13.14"@,
            ) && !b.selected && optional_listed(o, seq![a, b], f, ch),
    }
}

/// Go: the two newest stable releases.
#[verifier::opaque]
pub open spec fn go_refreshed(
    o: Option<Seq<VersionInfo>>,
    releases: Option<Vec<GoRelease>>,
    f: Option<Seq<VersionInfo>>,
    ch: bool,
) -> bool {
    match releases {
        None => f == o && !ch,
        Some(rel) => {
            let plan = go_plan(go_releases_view(rel@));
            if plan.len() == 0 {
                f == o && !ch
            } else {
                exists|next: Seq<VersionInfo>|
                    #[trigger] next.len() == plan.len() && (forall|i: int|
                        0 <= i < plan.len() ==> (#[trigger] next[i]).selected == (i == 0) && go_entry(
                            VersionInfo { selected: true, ..next[i] },
                            plan[i],
                        )) && optional_listed(o, next, f, ch)
            }
        },
    }
}

/// The Ruby version of an optional release tag.
pub open spec fn tag_ruby_version(tag: Option<String>) -> Option<Seq<char>> {
    match tag {
        Some(t) => ruby_tag_version(t@),
        None => None,
    }
}

/// Ruby: the newest RubyInstaller release, and 3.4.9 and 3.3.7 unselected.
#[verifier::opaque]
pub open spec fn ruby_refreshed(
    o: Option<Seq<VersionInfo>>,
    tag: Option<String>,
    f: Option<Seq<VersionInfo>>,
    ch: bool,
) -> bool {
    match tag_ruby_version(tag) {
        None => f == o && !ch,
        Some(v) => exists|a: VersionInfo, b: VersionInfo, c: VersionInfo|
            #[trigger] ruby_entry(a, v) && #[trigger] ruby_entry(VersionInfo { selected: true, ..b }, "3.4.9"@)
                && #[trigger] ruby_entry(VersionInfo { selected: true, ..c }, "3.3.7"@) && !b.selected
                && !c.selected && optional_listed(o, seq![a, b, c], f, ch),
    }
}

/// What upstream published, as fetched: release tags, download pages and
/// release indexes; `None` where a fetch failed.
pub struct CatalogUpdates {
    pub caddy_tag: Option<String>,
    pub php_page: Option<String>,
    pub mysql_page: Option<String>,
    pub postgresql_page: Option<String>,
    pub phpmyadmin_page: Option<String>,
    pub adminer_page: Option<String>,
    pub node_releases: Option<Vec<NodeRelease>>,
    pub python_page: Option<String>,
    pub go_releases: Option<Vec<GoRelease>>,
    pub ruby_tag: Option<String>,
}

/// Which lists a refresh changed.
pub struct CatalogChanges {
    pub caddy: bool,
    pub php: bool,
    pub mysql: bool,
    pub postgresql: bool,
    pub phpmyadmin: bool,
    pub adminer: bool,
    pub node: bool,
    pub python: bool,
    pub go: bool,
    pub ruby: bool,
}

impl CatalogChanges {
    /// Whether any list changed.
    pub fn any(&self) -> (b: bool)
        ensures
            b == (self.caddy || self.php || self.mysql || self.postgresql || self.phpmyadmin
                || self.adminer || self.node || self.python || self.go || self.ruby),
    {
        self.caddy || self.php || self.mysql || self.postgresql || self.phpmyadmin || self.adminer
            || self.node || self.python || self.go || self.ruby
    }
}

fn page_version_of(page: &Option<String>, marker: &str) -> (r: Option<String>)
    ensures
        match page_version(*page, marker@) {
            Some(v) => r matches Some(x) && x@ == v,
            None => r is None,
        },
{
    match page {
        Some(p) => version_after_marker(p.as_str(), marker),
        None => None,
    }
}

fn replace_optional_list(o: &mut Option<BinaryConfig>, next: Vec<VersionInfo>) -> (ch: bool)
    ensures
        optional_listed(opt_versions(*old(o)), next@, opt_versions(*final(o)), ch),
{
    let mut b = match o {
        Some(b) => b.duplicate(),
        None => BinaryConfig { versions: Vec::new() },
    };
    assert(b.versions@ == (match opt_versions(*old(o)) {
        Some(s) => s,
        None => Seq::<VersionInfo>::empty(),
    }));
    let ch = replace_version_list(&mut b.versions, next);
    *o = Some(b);
    ch
}

/// Caddy: see [`caddy_refreshed`].
pub fn refresh_caddy(versions: &mut Vec<VersionInfo>, tag: &Option<String>) -> (ch: bool)
    ensures
        caddy_refreshed(old(versions)@, *tag, final(versions)@, ch),
{
    reveal(caddy_refreshed);
    match tag {
        Some(t) => {
            let v = version_from_tag(t.as_str());
            let n = caddy_version(v.as_str());
            let ghost nn = n;
            let ch = replace_versions(versions, n);
            assert(caddy_entry(nn, tag_version(t@)));
            ch
        },
        None => false,
    }
}

/// PHP: see [`php_refreshed`].
pub fn refresh_php(versions: &mut Vec<VersionInfo>, page: &Option<String>) -> (ch: bool)
    ensures
        php_refreshed(old(versions)@, *page, final(versions)@, ch),
{
    reveal(php_refreshed);
    match page_version_of(page, "downloads of PHP ") {
        Some(v) => {
            let n = php_version(v.as_str());
            let ghost nn = n;
            let ch = upsert_selected_version(versions, n);
            assert(php_entry(nn, v@));
            ch
        },
        None => false,
    }
}

/// MySQL: see [`mysql_refreshed`].
pub fn refresh_mysql(versions: &mut Vec<VersionInfo>, page: &Option<String>) -> (ch: bool)
    ensures
        mysql_refreshed(old(versions)@, *page, final(versions)@, ch),
{
    reveal(mysql_refreshed);
    match page_version_of(page, "MySQL Community Server ") {
        Some(v) => {
            let a = mysql_version(v.as_str());
            let b0 = mysql_version("8.4.10");
            let b = selected_version(b0, false);
            let ghost (aa, bb) = (a, b);
            assert(VersionInfo { selected: true, ..bb } == b0);
            let next = vec![a, b];
            assert(next@ =~= seq![aa, bb]);
            let ch = replace_version_list(versions, next);
            assert(mysql_entry(aa, v@));
            assert(mysql_entry(VersionInfo { selected: true, ..bb }, "8.4.10"@));
            ch
        },
        None => false,
    }
}

/// PostgreSQL: see [`postgresql_refreshed`].
pub fn refresh_postgresql(versions: &mut Vec<VersionInfo>, page: &Option<String>) -> (ch: bool)
    ensures
        postgresql_refreshed(old(versions)@, *page, final(versions)@, ch),
{
    reveal(postgresql_refreshed);
    match page_version_of(page, "PostgreSQL Version") {
        Some(v) => {
            let a = postgresql_version(v.as_str());
            let b0 = postgresql_version("17.10");
            let c0 = postgresql_version("16.14");
            let b = selected_version(b0, false);
            let c = selected_version(c0, false);
            let ghost (aa, bb, cc) = (a, b, c);
            assert(VersionInfo { selected: true, ..bb } == b0);
            assert(VersionInfo { selected: true, ..cc } == c0);
            let next = vec![a, b, c];
            assert(next@ =~= seq![aa, bb, cc]);
            let ch = replace_version_list(versions, next);
            assert(postgresql_entry(aa, v@));
            assert(postgresql_entry(VersionInfo { selected: true, ..bb }, "17.10"@));
            assert(postgresql_entry(VersionInfo { selected: true, ..cc }, "16.14"@));
            ch
        },
        None => false,
    }
}

/// phpMyAdmin: see [`pma_refreshed`].
pub fn refresh_phpmyadmin(versions: &mut Vec<VersionInfoSingleUrl>, page: &Option<String>) -> (ch: bool)
    ensures
        pma_refreshed(old(versions)@, *page, final(versions)@, ch),
{
    reveal(pma_refreshed);
    match page_version_of(page, "phpMyAdmin ") {
        Some(v) => {
            let n = phpmyadmin_version(v.as_str());
            let ghost nn = n;
            let ch = upsert_selected_single_url(versions, n, false);
            assert(phpmyadmin_entry(nn, v@));
            ch
        },
        None => false,
    }
}

/// Adminer: see [`adminer_refreshed`].
pub fn refresh_adminer(versions: &mut Vec<VersionInfoSingleUrl>, page: &Option<String>) -> (ch: bool)
    ensures
        adminer_refreshed(old(versions)@, *page, final(versions)@, ch),
{
    reveal(adminer_refreshed);
    match page_version_of(page, "") {
        Some(v) => {
            let n = adminer_version(v.as_str());
            let ghost nn = n;
            let ch = upsert_selected_single_url(versions, n, false);
            assert(adminer_entry(nn, v@));
            ch
        },
        None => false,
    }
}

/// Node.js: see [`node_refreshed`].
pub fn refresh_node(o: &mut Option<BinaryConfig>, releases: &Option<Vec<NodeRelease>>) -> (ch: bool)
    ensures
        node_refreshed(opt_versions(*old(o)), *releases, opt_versions(*final(o)), ch),
{
    reveal(node_refreshed);
    match releases {
        Some(rel) => match node_release_lines(rel) {
            Some(next) => {
                let ghost nv = next@;
                let ch = replace_optional_list(o, next);
                assert(nv.len() == nv.len());
                ch
            },
            None => false,
        },
        None => false,
    }
}

/// Python: see [`python_refreshed`].
pub fn refresh_python(o: &mut Option<BinaryConfig>, page: &Option<String>) -> (ch: bool)
    ensures
        python_refreshed(opt_versions(*old(o)), *page, opt_versions(*final(o)), ch),
{
    reveal(python_refreshed);
    match page_version_of(page, "Download Python ") {
        Some(v) => {
            let a = python_version(v.as_str());
            let b0 = python_version("3.13.14");
            let b = selected_version(b0, false);
            let ghost (aa, bb) = (a, b);
            assert(VersionInfo { selected: true, ..bb } == b0);
            let next = vec![a, b];
            assert(next@ =~= seq![aa, bb]);
            let ch = replace_optional_list(o, next);
            assert(python_entry(aa, v@));
            assert(python_entry(VersionInfo { selected: true, ..bb }, "3.13.14"@));
            ch
        },
        None => false,
    }
}

/// Go: see [`go_refreshed`].
pub fn refresh_go(o: &mut Option<BinaryConfig>, releases: &Option<Vec<GoRelease>>) -> (ch: bool)
    ensures
        go_refreshed(opt_versions(*old(o)), *releases, opt_versions(*final(o)), ch),
{
    reveal(go_refreshed);
    match releases {
        Some(rel) => match go_stable_versions(rel) {
            Some(next) => {
                let ghost nv = next@;
                let ch = replace_optional_list(o, next);
                assert(nv.len() == nv.len());
                ch
            },
            None => false,
        },
        None => false,
    }
}

/// Ruby: see [`ruby_refreshed`].
pub fn refresh_ruby(o: &mut Option<BinaryConfig>, tag: &Option<String>) -> (ch: bool)
    ensures
        ruby_refreshed(opt_versions(*old(o)), *tag, opt_versions(*final(o)), ch),
{
    reveal(ruby_refreshed);
    let ruby_v = match tag {
        Some(t) => ruby_version_from_tag(t.as_str()),
        None => None,
    };
    match ruby_v {
        Some(v) => {
            let a = ruby_version(v.as_str());
            let b0 = ruby_version("3.4.9");
            let c0 = ruby_version("3.3.7");
            let b = selected_version(b0, false);
            let c = selected_version(c0, false);
            let ghost (aa, bb, cc) = (a, b, c);
            assert(VersionInfo { selected: true, ..bb } == b0);
            assert(VersionInfo { selected: true, ..cc } == c0);
            let next = vec![a, b, c];
            assert(next@ =~= seq![aa, bb, cc]);
            let ch = replace_optional_list(o, next);
            assert(ruby_entry(aa, v@));
            assert(ruby_entry(VersionInfo { selected: true, ..bb }, "3.4.9"@));
            assert(ruby_entry(VersionInfo { selected: true, ..cc }, "3.3.7"@));
            assert(optional_listed(opt_versions(*old(o)), seq![aa, bb, cc], opt_versions(*o), ch));
            assert(!bb.selected && !cc.selected);
            assert(tag_ruby_version(*tag) == Some(v@));
            assert(exists|a: VersionInfo, b: VersionInfo, c: VersionInfo|
                #[trigger] ruby_entry(a, v@) && #[trigger] ruby_entry(VersionInfo { selected: true, ..b }, "3.4.9"@)
                    && #[trigger] ruby_entry(VersionInfo { selected: true, ..c }, "3.3.7"@) && !b.selected
                    && !c.selected && optional_listed(opt_versions(*old(o)), seq![a, b, c], opt_versions(*o), ch));
            ch
        },
        None => false,
    }
}

/// What folding upstream data into a catalog does, list by list, and which
/// lists it reports changed; the catalog's own version stays.
pub open spec fn catalog_refreshed(o: RuntimeConfigView, u: CatalogUpdates, f: RuntimeConfigView, r: CatalogChanges) -> bool {
    &&& caddy_refreshed(o.caddy, u.caddy_tag, f.caddy, r.caddy)
    &&& php_refreshed(o.php, u.php_page, f.php, r.php)
    &&& mysql_refreshed(o.mysql, u.mysql_page, f.mysql, r.mysql)
    &&& postgresql_refreshed(o.postgresql, u.postgresql_page, f.postgresql, r.postgresql)
    &&& exists|mid: Seq<VersionInfoSingleUrl>|
        pma_refreshed(o.phpmyadmin, u.phpmyadmin_page, mid, r.phpmyadmin)
            && adminer_refreshed(mid, u.adminer_page, f.phpmyadmin, r.adminer)
    &&& node_refreshed(o.node, u.node_releases, f.node, r.node)
    &&& python_refreshed(o.python, u.python_page, f.python, r.python)
    &&& go_refreshed(o.go, u.go_releases, f.go, r.go)
    &&& ruby_refreshed(o.ruby, u.ruby_tag, f.ruby, r.ruby)
    &&& f.version == o.version
}

/// Folds what upstream published into the catalog, list by list, and says
/// which lists changed.
pub fn apply_catalog_updates(config: &mut RuntimeConfig, u: &CatalogUpdates) -> (r: CatalogChanges)
    ensures
        catalog_refreshed(old(config)@, *u, final(config)@, r),
{
    let caddy = refresh_caddy(&mut config.binaries.caddy.versions, &u.caddy_tag);
    let php = refresh_php(&mut config.binaries.php.versions, &u.php_page);
    let mysql = refresh_mysql(&mut config.binaries.mysql.versions, &u.mysql_page);
    let postgresql = refresh_postgresql(&mut config.binaries.postgresql.versions, &u.postgresql_page);
    let ghost tools0 = config.binaries.phpmyadmin.versions@;
    let phpmyadmin = refresh_phpmyadmin(&mut config.binaries.phpmyadmin.versions, &u.phpmyadmin_page);
    let ghost mid = config.binaries.phpmyadmin.versions@;
    let adminer = refresh_adminer(&mut config.binaries.phpmyadmin.versions, &u.adminer_page);
    assert(tools0 == old(config)@.phpmyadmin);
    assert(pma_refreshed(old(config)@.phpmyadmin, u.phpmyadmin_page, mid, phpmyadmin)
        && adminer_refreshed(mid, u.adminer_page, config@.phpmyadmin, adminer));
    let node = refresh_node(&mut config.binaries.node, &u.node_releases);
    let python = refresh_python(&mut config.binaries.python, &u.python_page);
    let go = refresh_go(&mut config.binaries.go, &u.go_releases);
    let ruby = refresh_ruby(&mut config.binaries.ruby, &u.ruby_tag);
    let r = CatalogChanges { caddy, php, mysql, postgresql, phpmyadmin, adminer, node, python, go, ruby };
    assert(exists|m: Seq<VersionInfoSingleUrl>|
        pma_refreshed(old(config)@.phpmyadmin, u.phpmyadmin_page, m, r.phpmyadmin)
            && adminer_refreshed(m, u.adminer_page, config@.phpmyadmin, r.adminer)) by {
        assert(pma_refreshed(old(config)@.phpmyadmin, u.phpmyadmin_page, mid, r.phpmyadmin)
            && adminer_refreshed(mid, u.adminer_page, config@.phpmyadmin, r.adminer));
    }
    r
}

/// Two lists that list the same entries as a third list the same entries.
proof fn lemma_same_listing_trans(a: Seq<VersionInfo>, b: Seq<VersionInfo>, c: Seq<VersionInfo>)
    requires
        same_listing(a, b),
        same_listing(b, c),
    ensures
        same_listing(a, c),
{
    assert forall|i: int| 0 <= i < a.len() implies #[trigger] same_entry(a[i], c[i]) by {
        assert(same_entry(a[i], b[i]));
        assert(same_entry(b[i], c[i]));
    }
}

/// Replacing a list by the same entries a second time changes nothing.
proof fn lemma_listed_again(
    o: Seq<VersionInfo>,
    n1: Seq<VersionInfo>,
    f1: Seq<VersionInfo>,
    c1: bool,
    n2: Seq<VersionInfo>,
    f2: Seq<VersionInfo>,
    c2: bool,
)
    requires
        listed(o, n1, f1, c1),
        listed(f1, n2, f2, c2),
        same_listing(n1, n2),
    ensures
        f2 == f1,
        !c2,
{
    if same_listing(o, n1) {
        lemma_same_listing_trans(o, n1, n2);
    }
}

/// The same for an optional list.
proof fn lemma_optional_listed_again(
    o: Option<Seq<VersionInfo>>,
    n1: Seq<VersionInfo>,
    f1: Option<Seq<VersionInfo>>,
    c1: bool,
    n2: Seq<VersionInfo>,
    f2: Option<Seq<VersionInfo>>,
    c2: bool,
)
    requires
        optional_listed(o, n1, f1, c1),
        optional_listed(f1, n2, f2, c2),
        same_listing(n1, n2),
    ensures
        f2 == f1,
        !c2,
{
    let base = match o {
        Some(x) => x,
        None => Seq::<VersionInfo>::empty(),
    };
    lemma_listed_again(base, n1, f1.unwrap(), c1, n2, f2.unwrap(), c2);
}

/// Caddy: a second refresh with the same tag changes nothing.
proof fn lemma_caddy_again(o: Seq<VersionInfo>, tag: Option<String>, f1: Seq<VersionInfo>, c1: bool, f2: Seq<VersionInfo>, c2: bool)
    requires
        caddy_refreshed(o, tag, f1, c1),
        caddy_refreshed(f1, tag, f2, c2),
    ensures
        f2 == f1,
        !c2,
{
    reveal(caddy_refreshed);
    match tag {
        None => {},
        Some(t) => {
            let v = tag_version(t@);
            let n1 = choose|n: VersionInfo|
                #[trigger] caddy_entry(n, v) && f1 == replaced_list(o, n) && c1 == replaced_changes(o, n);
            let n2 = choose|n: VersionInfo|
                #[trigger] caddy_entry(n, v) && f2 == replaced_list(f1, n) && c2 == replaced_changes(f1, n);
            assert(f2 =~= f1);
        },
    }
}

/// MySQL: a second refresh with the same page changes nothing.
proof fn lemma_mysql_again(o: Seq<VersionInfo>, page: Option<String>, f1: Seq<VersionInfo>, c1: bool, f2: Seq<VersionInfo>, c2: bool)
    requires
        mysql_refreshed(o, page, f1, c1),
        mysql_refreshed(f1, page, f2, c2),
    ensures
        f2 == f1,
        !c2,
{
    reveal(mysql_refreshed);
    match page_version(page, "MySQL Community Server "@) {
        None => {},
        Some(v) => {
            let (a1, b1) = choose|a: VersionInfo, b: VersionInfo|
                #[trigger] mysql_entry(a, v) && #[trigger] mysql_entry(VersionInfo { selected: true, ..b }, "8.4.10"@)
                    && !b.selected && listed(o, seq![a, b], f1, c1);
            let (a2, b2) = choose|a: VersionInfo, b: VersionInfo|
                #[trigger] mysql_entry(a, v) && #[trigger] mysql_entry(VersionInfo { selected: true, ..b }, "8.4.10"@)
                    && !b.selected && listed(f1, seq![a, b], f2, c2);
            assert(same_entry(a1, a2));
            assert(same_entry(VersionInfo { selected: true, ..b1 }, VersionInfo { selected: true, ..b2 }));
            assert(same_entry(b1, b2));
            assert(same_listing(seq![a1, b1], seq![a2, b2]));
            lemma_listed_again(o, seq![a1, b1], f1, c1, seq![a2, b2], f2, c2);
        },
    }
}

/// PostgreSQL: a second refresh with the same page changes nothing.
proof fn lemma_postgresql_again(o: Seq<VersionInfo>, page: Option<String>, f1: Seq<VersionInfo>, c1: bool, f2: Seq<VersionInfo>, c2: bool)
    requires
        postgresql_refreshed(o, page, f1, c1),
        postgresql_refreshed(f1, page, f2, c2),
    ensures
        f2 == f1,
        !c2,
{
    reveal(postgresql_refreshed);
    match page_version(page, "PostgreSQL Version"@) {
        None => {},
        Some(v) => {
            let (a1, b1, d1) = choose|a: VersionInfo, b: VersionInfo, c: VersionInfo|
                #[trigger] postgresql_entry(a, v) && #[trigger] postgresql_entry(
                    VersionInfo { selected: true, ..b },
                    "17.10"@,
                ) && #[trigger] postgresql_entry(VersionInfo { selected: true, ..c }, "16.14"@)
                    && !b.selected && !c.selected && listed(o, seq![a, b, c], f1, c1);
            let (a2, b2, d2) = choose|a: VersionInfo, b: VersionInfo, c: VersionInfo|
                #[trigger] postgresql_entry(a, v) && #[trigger] postgresql_entry(
                    VersionInfo { selected: true, ..b },
                    "17.10"@,
                ) && #[trigger] postgresql_entry(VersionInfo { selected: true, ..c }, "16.14"@)
                    && !b.selected && !c.selected && listed(f1, seq![a, b, c], f2, c2);
            assert(same_entry(a1, a2));
            assert(same_entry(VersionInfo { selected: true, ..b1 }, VersionInfo { selected: true, ..b2 }));
            assert(same_entry(VersionInfo { selected: true, ..d1 }, VersionInfo { selected: true, ..d2 }));
            assert(same_listing(seq![a1, b1, d1], seq![a2, b2, d2]));
            lemma_listed_again(o, seq![a1, b1, d1], f1, c1, seq![a2, b2, d2], f2, c2);
        },
    }
}

/// Python: a second refresh with the same page changes nothing.
proof fn lemma_python_again(
    o: Option<Seq<VersionInfo>>,
    page: Option<String>,
    f1: Option<Seq<VersionInfo>>,
    c1: bool,
    f2: Option<Seq<VersionInfo>>,
    c2: bool,
)
    requires
        python_refreshed(o, page, f1, c1),
        python_refreshed(f1, page, f2, c2),
    ensures
        f2 == f1,
        !c2,
{
    reveal(python_refreshed);
    match page_version(page, "Download Python "@) {
        None => {},
        Some(v) => {
            let (a1, b1) = choose|a: VersionInfo, b: VersionInfo|
                #[trigger] python_entry(a, v) && #[trigger] python_entry(VersionInfo { selected: true, ..b }, "3.13.14"@)
                    && !b.selected && optional_listed(o, seq![a, b], f1, c1);
            let (a2, b2) = choose|a: VersionInfo, b: VersionInfo|
                #[trigger] python_entry(a, v) && #[trigger] python_entry(VersionInfo { selected: true, ..b }, "3.13.14"@)
                    && !b.selected && optional_listed(f1, seq![a, b], f2, c2);
            assert(same_entry(a1, a2));
            assert(same_entry(VersionInfo { selected: true, ..b1 }, VersionInfo { selected: true, ..b2 }));
            assert(same_listing(seq![a1, b1], seq![a2, b2]));
            lemma_optional_listed_again(o, seq![a1, b1], f1, c1, seq![a2, b2], f2, c2);
        },
    }
}

/// Ruby: a second refresh with the same tag changes nothing.
proof fn lemma_ruby_again(
    o: Option<Seq<VersionInfo>>,
    tag: Option<String>,
    f1: Option<Seq<VersionInfo>>,
    c1: bool,
    f2: Option<Seq<VersionInfo>>,
    c2: bool,
)
    requires
        ruby_refreshed(o, tag, f1, c1),
        ruby_refreshed(f1, tag, f2, c2),
    ensures
        f2 == f1,
        !c2,
{
    reveal(ruby_refreshed);
    match tag_ruby_version(tag) {
        None => {},
        Some(v) => {
            let (a1, b1, d1) = choose|a: VersionInfo, b: VersionInfo, c: VersionInfo|
                #[trigger] ruby_entry(a, v) && #[trigger] ruby_entry(VersionInfo { selected: true, ..b }, "3.4.9"@)
                    && #[trigger] ruby_entry(VersionInfo { selected: true, ..c }, "3.3.7"@) && !b.selected
                    && !c.selected && optional_listed(o, seq![a, b, c], f1, c1);
            let (a2, b2, d2) = choose|a: VersionInfo, b: VersionInfo, c: VersionInfo|
                #[trigger] ruby_entry(a, v) && #[trigger] ruby_entry(VersionInfo { selected: true, ..b }, "3.4.9"@)
                    && #[trigger] ruby_entry(VersionInfo { selected: true, ..c }, "3.3.7"@) && !b.selected
                    && !c.selected && optional_listed(f1, seq![a, b, c], f2, c2);
            assert(same_entry(a1, a2));
            assert(same_entry(VersionInfo { selected: true, ..b1 }, VersionInfo { selected: true, ..b2 }));
            assert(same_entry(VersionInfo { selected: true, ..d1 }, VersionInfo { selected: true, ..d2 }));
            assert(same_listing(seq![a1, b1, d1], seq![a2, b2, d2]));
            lemma_optional_listed_again(o, seq![a1, b1, d1], f1, c1, seq![a2, b2, d2], f2, c2);
        },
    }
}

/// Node.js: a second refresh with the same release index changes nothing.
proof fn lemma_node_again(
    o: Option<Seq<VersionInfo>>,
    releases: Option<Vec<NodeRelease>>,
    f1: Option<Seq<VersionInfo>>,
    c1: bool,
    f2: Option<Seq<VersionInfo>>,
    c2: bool,
)
    requires
        node_refreshed(o, releases, f1, c1),
        node_refreshed(f1, releases, f2, c2),
    ensures
        f2 == f1,
        !c2,
{
    reveal(node_refreshed);
    match releases {
        None => {},
        Some(rel) => {
            let plan = node_scan(node_releases_view(rel@), rel.len() as nat).1;
            if plan.len() > 0 {
                let n1 = choose|next: Seq<VersionInfo>|
                    #[trigger] next.len() == plan.len() && (forall|i: int|
                        0 <= i < plan.len() ==> node_entry(
                            #[trigger] next[i],
                            plan[i].0,
                            plan[i].1,
                            plan[i].2,
                            plan[i].3,
                        )) && optional_listed(o, next, f1, c1);
                let n2 = choose|next: Seq<VersionInfo>|
                    #[trigger] next.len() == plan.len() && (forall|i: int|
                        0 <= i < plan.len() ==> node_entry(
                            #[trigger] next[i],
                            plan[i].0,
                            plan[i].1,
                            plan[i].2,
                            plan[i].3,
                        )) && optional_listed(f1, next, f2, c2);
                assert forall|i: int| 0 <= i < n1.len() implies #[trigger] same_entry(n1[i], n2[i]) by {
                    assert(node_entry(n1[i], plan[i].0, plan[i].1, plan[i].2, plan[i].3));
                    assert(node_entry(n2[i], plan[i].0, plan[i].1, plan[i].2, plan[i].3));
                }
                lemma_optional_listed_again(o, n1, f1, c1, n2, f2, c2);
            }
        },
    }
}

/// Go: a second refresh with the same release index changes nothing.
proof fn lemma_go_again(
    o: Option<Seq<VersionInfo>>,
    releases: Option<Vec<GoRelease>>,
    f1: Option<Seq<VersionInfo>>,
    c1: bool,
    f2: Option<Seq<VersionInfo>>,
    c2: bool,
)
    requires
        go_refreshed(o, releases, f1, c1),
        go_refreshed(f1, releases, f2, c2),
    ensures
        f2 == f1,
        !c2,
{
    reveal(go_refreshed);
    match releases {
        None => {},
        Some(rel) => {
            let plan = go_plan(go_releases_view(rel@));
            if plan.len() > 0 {
                let n1 = choose|next: Seq<VersionInfo>|
                    #[trigger] next.len() == plan.len() && (forall|i: int|
                        0 <= i < plan.len() ==> (#[trigger] next[i]).selected == (i == 0) && go_entry(
                            VersionInfo { selected: true, ..next[i] },
                            plan[i],
                        )) && optional_listed(o, next, f1, c1);
                let n2 = choose|next: Seq<VersionInfo>|
                    #[trigger] next.len() == plan.len() && (forall|i: int|
                        0 <= i < plan.len() ==> (#[trigger] next[i]).selected == (i == 0) && go_entry(
                            VersionInfo { selected: true, ..next[i] },
                            plan[i],
                        )) && optional_listed(f1, next, f2, c2);
                assert forall|i: int| 0 <= i < n1.len() implies #[trigger] same_entry(n1[i], n2[i]) by {
                    assert(n1[i].selected == (i == 0));
                    assert(n2[i].selected == (i == 0));
                    assert(go_entry(VersionInfo { selected: true, ..n1[i] }, plan[i]));
                    assert(go_entry(VersionInfo { selected: true, ..n2[i] }, plan[i]));
                }
                lemma_optional_listed_again(o, n1, f1, c1, n2, f2, c2);
            }
        },
    }
}

/// Putting a database tool version into a list (unselected): the first entry
/// with its id then carries its version and URL, and every entry with
/// another id stays where it was.
proof fn lemma_placed_tool_first(s: Seq<VersionInfoSingleUrl>, n: VersionInfoSingleUrl)
    ensures
        ({
            let f = placed_tool(s, n, false);
            &&& f.len() >= s.len()
            &&& forall|j: int| 0 <= j < s.len() && (#[trigger] s[j]).id@ != n.id@ ==> f[j] == s[j]
            &&& forall|j: int| 0 <= j < s.len() && (#[trigger] s[j]).id@ == n.id@ ==> f[j].id@ == n.id@
            &&& forall|j: int| s.len() <= j < f.len() ==> (#[trigger] f[j]).id@ == n.id@
            &&& exists|k: int|
                crate::packages::tool_entry_index(f, n.id@) == Some(k) && 0 <= k < f.len()
                    && (#[trigger] f[k]).version@ == n.version@ && f[k].url@ == n.url@
        }),
{
    let f = placed_tool(s, n, false);
    crate::packages::lemma_tool_entry_index_spec(s, n.id@);
    match crate::packages::tool_entry_index(s, n.id@) {
        Some(k) => {
            assert(f == s.update(k, VersionInfoSingleUrl { selected: s[k].selected, ..n }));
            assert forall|j: int| 0 <= j < k implies f[j].id@ != n.id@ by {
                assert(f[j] == s[j]);
            }
            crate::packages::lemma_tool_entry_index(f, n.id@, k);
            assert(f[k].version@ == n.version@);
        },
        None => {
            assert(f == s.push(VersionInfoSingleUrl { selected: false, ..n }));
            let k = s.len() as int;
            assert forall|j: int| 0 <= j < k implies f[j].id@ != n.id@ by {
                assert(f[j] == s[j]);
            }
            crate::packages::lemma_tool_entry_index(f, n.id@, k);
            assert(f[k].version@ == n.version@);
        },
    }
}

/// Where a list changes only at entries of another id, the first entry with
/// an id stays the first one.
proof fn lemma_tool_first_kept(s: Seq<VersionInfoSingleUrl>, f: Seq<VersionInfoSingleUrl>, x: Seq<char>, id: Seq<char>, k: int)
    requires
        x != id,
        f.len() >= s.len(),
        forall|j: int| 0 <= j < s.len() && (#[trigger] s[j]).id@ != x ==> f[j] == s[j],
        forall|j: int| 0 <= j < s.len() && (#[trigger] s[j]).id@ == x ==> f[j].id@ == x,
        crate::packages::tool_entry_index(s, id) == Some(k),
    ensures
        crate::packages::tool_entry_index(f, id) == Some(k),
        f[k] == s[k],
{
    crate::packages::lemma_tool_entry_index_spec(s, id);
    assert(s[k].id@ == id);
    assert(f[k] == s[k]);
    assert forall|j: int| 0 <= j < k implies f[j].id@ != id by {
        if s[j].id@ != x {
            assert(f[j] == s[j]);
        } else {
            assert(f[j].id@ == x);
        }
    }
    crate::packages::lemma_tool_entry_index(f, id, k);
}

/// The ids of phpMyAdmin and Adminer entries differ.
proof fn lemma_tool_ids_differ(vp: Seq<char>, va: Seq<char>)
    ensures
        "phpmyadmin-"@ + major_minor(vp) != "adminer-"@ + major_minor(va),
{
    reveal_strlit("phpmyadmin-");
    reveal_strlit("adminer-");
    let p = "phpmyadmin-"@ + major_minor(vp);
    let a = "adminer-"@ + major_minor(va);
    assert(p[0] == 'p');
    assert(a[0] == 'a');
}

/// The database tools: a second refresh with the same pages reports no
/// change, neither of phpMyAdmin nor of Adminer.
proof fn lemma_tools_again(
    o: Seq<VersionInfoSingleUrl>,
    pp: Option<String>,
    ap: Option<String>,
    m1: Seq<VersionInfoSingleUrl>,
    f1: Seq<VersionInfoSingleUrl>,
    cp1: bool,
    ca1: bool,
    m2: Seq<VersionInfoSingleUrl>,
    f2: Seq<VersionInfoSingleUrl>,
    cp2: bool,
    ca2: bool,
)
    requires
        pma_refreshed(o, pp, m1, cp1),
        adminer_refreshed(m1, ap, f1, ca1),
        pma_refreshed(f1, pp, m2, cp2),
        adminer_refreshed(m2, ap, f2, ca2),
    ensures
        !cp2,
        !ca2,
{
    reveal(pma_refreshed);
    reveal(adminer_refreshed);
    match page_version(pp, "phpMyAdmin "@) {
        None => {},
        Some(vp) => {
            let pid = "phpmyadmin-"@ + major_minor(vp);
            let np1 = choose|n: VersionInfoSingleUrl|
                #[trigger] phpmyadmin_entry(n, vp) && m1 == placed_tool(o, n, false) && cp1 == tool_upsert_changes(o, n);
            let np2 = choose|n: VersionInfoSingleUrl|
                #[trigger] phpmyadmin_entry(n, vp) && m2 == placed_tool(f1, n, false) && cp2 == tool_upsert_changes(
                    f1,
                    n,
                );
            lemma_placed_tool_first(o, np1);
            let kp = choose|k: int|
                crate::packages::tool_entry_index(m1, np1.id@) == Some(k) && 0 <= k < m1.len()
                    && (#[trigger] m1[k]).version@ == np1.version@ && m1[k].url@ == np1.url@;
            match page_version(ap, ""@) {
                None => {
                    assert(f1 == m1);
                },
                Some(va) => {
                    let na1 = choose|n: VersionInfoSingleUrl|
                        #[trigger] adminer_entry(n, va) && f1 == placed_tool(m1, n, false) && ca1
                            == tool_upsert_changes(m1, n);
                    lemma_placed_tool_first(m1, na1);
                    lemma_tool_ids_differ(vp, va);
                    lemma_tool_first_kept(m1, f1, na1.id@, pid, kp);
                },
            }
            assert(crate::packages::tool_entry_index(f1, np2.id@) == Some(kp));
            assert(!cp2);
        },
    }
    match page_version(ap, ""@) {
        None => {},
        Some(va) => {
            let aid = "adminer-"@ + major_minor(va);
            let na1 = choose|n: VersionInfoSingleUrl|
                #[trigger] adminer_entry(n, va) && f1 == placed_tool(m1, n, false) && ca1 == tool_upsert_changes(m1, n);
            let na2 = choose|n: VersionInfoSingleUrl|
                #[trigger] adminer_entry(n, va) && f2 == placed_tool(m2, n, false) && ca2 == tool_upsert_changes(m2, n);
            lemma_placed_tool_first(m1, na1);
            let ka = choose|k: int|
                crate::packages::tool_entry_index(f1, na1.id@) == Some(k) && 0 <= k < f1.len()
                    && (#[trigger] f1[k]).version@ == na1.version@ && f1[k].url@ == na1.url@;
            match page_version(pp, "phpMyAdmin "@) {
                None => {
                    assert(m2 == f1);
                },
                Some(vp) => {
                    let np2 = choose|n: VersionInfoSingleUrl|
                        #[trigger] phpmyadmin_entry(n, vp) && m2 == placed_tool(f1, n, false) && cp2
                            == tool_upsert_changes(f1, n);
                    lemma_placed_tool_first(f1, np2);
                    lemma_tool_ids_differ(vp, va);
                    lemma_tool_first_kept(f1, m2, np2.id@, aid, ka);
                },
            }
            assert(crate::packages::tool_entry_index(m2, na2.id@) == Some(ka));
            assert(!ca2);
        },
    }
}

/// No two entries of a list share an id.
pub open spec fn ids_distinct(s: Seq<VersionInfo>) -> bool {
    forall|i: int, j: int| 0 <= i < j < s.len() ==> (#[trigger] s[i]).id@ != (#[trigger] s[j]).id@
}

/// Some entry with the id comes first.
proof fn lemma_first_entry_exists(v: Seq<VersionInfo>, id: Seq<char>, i: int)
    requires
        0 <= i < v.len(),
        v[i].id@ == id,
    ensures
        exists|k: int| 0 <= k < v.len() && #[trigger] v[k].id@ == id && forall|j: int| 0 <= j < k ==> v[j].id@ != id,
    decreases i,
{
    if exists|j: int| 0 <= j < i && #[trigger] v[j].id@ == id {
        let j = choose|j: int| 0 <= j < i && #[trigger] v[j].id@ == id;
        lemma_first_entry_exists(v, id, j);
    } else {
        assert(0 <= i < v.len() && v[i].id@ == id && forall|j: int| 0 <= j < i ==> v[j].id@ != id);
    }
}

/// What `entry_index` answers: the first entry with the id, or none where
/// no entry has it.
proof fn lemma_entry_index_spec(v: Seq<VersionInfo>, id: Seq<char>)
    ensures
        match entry_index(v, id) {
            Some(k) => 0 <= k < v.len() && v[k].id@ == id && forall|j: int| 0 <= j < k ==> v[j].id@ != id,
            None => forall|j: int| 0 <= j < v.len() ==> v[j].id@ != id,
        },
{
    if exists|i: int| 0 <= i < v.len() && #[trigger] v[i].id@ == id {
        let i = choose|i: int| 0 <= i < v.len() && #[trigger] v[i].id@ == id;
        lemma_first_entry_exists(v, id, i);
    }
}

/// Inserting an entry keeps the others and adds it; where its id is new,
/// ids stay distinct.
proof fn lemma_insert_newest_contents(t: Seq<VersionInfo>, x: VersionInfo)
    ensures
        insert_newest_first(t, x).len() == t.len() + 1,
        forall|y: VersionInfo| #[trigger] insert_newest_first(t, x).contains(y) <==> (t.contains(y) || y == x),
        ids_distinct(t) && (forall|i: int| 0 <= i < t.len() ==> (#[trigger] t[i]).id@ != x.id@) ==> ids_distinct(
            insert_newest_first(t, x),
        ),
    decreases t.len(),
{
    let r = insert_newest_first(t, x);
    if t.len() == 0 {
        assert(r =~= seq![x]);
        assert forall|y: VersionInfo| r.contains(y) <==> (t.contains(y) || y == x) by {
            if y == x {
                assert(r[0] == x);
            }
        }
    } else if newer(x, t[0]) {
        assert(r =~= seq![x] + t);
        assert forall|y: VersionInfo| r.contains(y) <==> (t.contains(y) || y == x) by {
            if y == x {
                assert(r[0] == x);
            }
            if t.contains(y) {
                let i = choose|i: int| 0 <= i < t.len() && t[i] == y;
                assert(r[i + 1] == y);
            }
            if r.contains(y) {
                let i = choose|i: int| 0 <= i < r.len() && r[i] == y;
                if i > 0 {
                    assert(t[i - 1] == y);
                }
            }
        }
        if ids_distinct(t) && (forall|i: int| 0 <= i < t.len() ==> (#[trigger] t[i]).id@ != x.id@) {
            assert forall|i: int, j: int| 0 <= i < j < r.len() implies (#[trigger] r[i]).id@ != (#[trigger] r[j]).id@ by {
                if i == 0 {
                    assert(r[j] == t[j - 1]);
                } else {
                    assert(r[i] == t[i - 1] && r[j] == t[j - 1]);
                }
            }
        }
    } else {
        let t1 = t.drop_first();
        lemma_insert_newest_contents(t1, x);
        let r1 = insert_newest_first(t1, x);
        assert(r =~= seq![t[0]] + r1);
        assert forall|y: VersionInfo| r.contains(y) <==> (t.contains(y) || y == x) by {
            if r.contains(y) {
                let i = choose|i: int| 0 <= i < r.len() && r[i] == y;
                if i == 0 {
                    assert(t[0] == y);
                } else {
                    assert(r1[i - 1] == y);
                    assert(r1.contains(y));
                    if t1.contains(y) {
                        let k = choose|k: int| 0 <= k < t1.len() && t1[k] == y;
                        assert(t[k + 1] == y);
                    }
                }
            }
            if t.contains(y) {
                let i = choose|i: int| 0 <= i < t.len() && t[i] == y;
                if i == 0 {
                    assert(r[0] == y);
                } else {
                    assert(t1[i - 1] == y);
                    assert(t1.contains(y));
                    assert(r1.contains(y));
                    let k = choose|k: int| 0 <= k < r1.len() && r1[k] == y;
                    assert(r[k + 1] == y);
                }
            }
            if y == x {
                assert(r1.contains(x));
                let k = choose|k: int| 0 <= k < r1.len() && r1[k] == x;
                assert(r[k + 1] == x);
            }
        }
        if ids_distinct(t) && (forall|i: int| 0 <= i < t.len() ==> (#[trigger] t[i]).id@ != x.id@) {
            assert(ids_distinct(t1)) by {
                assert forall|i: int, j: int| 0 <= i < j < t1.len() implies (#[trigger] t1[i]).id@ != (#[trigger] t1[j]).id@ by {
                    assert(t1[i] == t[i + 1] && t1[j] == t[j + 1]);
                }
            }
            assert forall|i: int| 0 <= i < t1.len() implies (#[trigger] t1[i]).id@ != x.id@ by {
                assert(t1[i] == t[i + 1]);
            }
            assert forall|i: int, j: int| 0 <= i < j < r.len() implies (#[trigger] r[i]).id@ != (#[trigger] r[j]).id@ by {
                if i == 0 {
                    let y = r1[j - 1];
                    assert(r[j] == y);
                    assert(r1.contains(y));
                    if y == x {
                        assert(t[0].id@ != x.id@);
                    } else {
                        assert(t1.contains(y));
                        let k = choose|k: int| 0 <= k < t1.len() && t1[k] == y;
                        assert(t[k + 1] == y);
                        assert(t[0].id@ != t[k + 1].id@);
                    }
                } else {
                    assert(r[i] == r1[i - 1] && r[j] == r1[j - 1]);
                }
            }
        }
    }
}

/// Sorting keeps the entries and their number; distinct ids stay distinct.
proof fn lemma_sort_newest_contents(s: Seq<VersionInfo>)
    ensures
        sort_newest_first(s).len() == s.len(),
        forall|y: VersionInfo| #[trigger] sort_newest_first(s).contains(y) <==> s.contains(y),
        ids_distinct(s) ==> ids_distinct(sort_newest_first(s)),
    decreases s.len(),
{
    if s.len() > 0 {
        let s1 = s.drop_last();
        let x = s.last();
        lemma_sort_newest_contents(s1);
        let t = sort_newest_first(s1);
        lemma_insert_newest_contents(t, x);
        assert forall|y: VersionInfo| sort_newest_first(s).contains(y) <==> s.contains(y) by {
            if s1.contains(y) {
                let i = choose|i: int| 0 <= i < s1.len() && s1[i] == y;
                assert(s[i] == y);
            }
            if s.contains(y) {
                let i = choose|i: int| 0 <= i < s.len() && s[i] == y;
                if i < s.len() - 1 {
                    assert(s1[i] == y);
                    assert(s1.contains(y));
                }
            }
        }
        if ids_distinct(s) {
            assert(ids_distinct(s1)) by {
                assert forall|i: int, j: int| 0 <= i < j < s1.len() implies (#[trigger] s1[i]).id@ != (#[trigger] s1[j]).id@ by {
                    assert(s1[i] == s[i] && s1[j] == s[j]);
                }
            }
            assert forall|i: int| 0 <= i < t.len() implies (#[trigger] t[i]).id@ != x.id@ by {
                let y = t[i];
                assert(t.contains(y));
                assert(s1.contains(y));
                let k = choose|k: int| 0 <= k < s1.len() && s1[k] == y;
                assert(s[k] == y);
                assert(s[k].id@ != s[s.len() - 1].id@);
            }
        }
    }
}

/// Putting a PHP version in: it is in the list, and distinct ids stay
/// distinct.
proof fn lemma_placed_contents(o: Seq<VersionInfo>, n: VersionInfo)
    requires
        ids_distinct(o),
    ensures
        placed(o, n).contains(n),
        ids_distinct(placed(o, n)),
{
    lemma_entry_index_spec(o, n.id@);
    let p = placed(o, n);
    match entry_index(o, n.id@) {
        Some(k) => {
            assert(p[k] == n);
            assert forall|i: int, j: int| 0 <= i < j < p.len() implies (#[trigger] p[i]).id@ != (#[trigger] p[j]).id@ by {
                assert(p[i].id@ == o[i].id@);
                assert(p[j].id@ == o[j].id@);
            }
        },
        None => {
            assert(p[0] == n);
            assert forall|i: int, j: int| 0 <= i < j < p.len() implies (#[trigger] p[i]).id@ != (#[trigger] p[j]).id@ by {
                assert(p[j].id@ == o[j - 1].id@);
                if i > 0 {
                    assert(p[i].id@ == o[i - 1].id@);
                }
            }
        },
    }
}

/// PHP: where the catalog lists each PHP id once, a second refresh with the
/// same page reports no change.
proof fn lemma_php_again(o: Seq<VersionInfo>, page: Option<String>, f1: Seq<VersionInfo>, c1: bool, f2: Seq<VersionInfo>, c2: bool)
    requires
        ids_distinct(o),
        php_refreshed(o, page, f1, c1),
        php_refreshed(f1, page, f2, c2),
    ensures
        !c2,
{
    reveal(php_refreshed);
    match page_version(page, "downloads of PHP "@) {
        None => {},
        Some(v) => {
            let n1 = choose|n: VersionInfo|
                #[trigger] php_entry(n, v) && f1 == sort_newest_first(placed(o, n)) && c1 == upsert_changes(o, n);
            let n2 = choose|n: VersionInfo|
                #[trigger] php_entry(n, v) && f2 == sort_newest_first(placed(f1, n)) && c2 == upsert_changes(f1, n);
            lemma_placed_contents(o, n1);
            lemma_sort_newest_contents(placed(o, n1));
            assert(f1.contains(n1));
            let k = choose|k: int| 0 <= k < f1.len() && f1[k] == n1;
            assert forall|j: int| 0 <= j < k implies f1[j].id@ != n1.id@ by {
                assert(f1[j].id@ != f1[k].id@);
            }
            lemma_entry_index(f1, n1.id@, k);
            assert(entry_index(f1, n2.id@) == Some(k));
        },
    }
}

/// Folding the same upstream data into a catalog a second time changes
/// nothing: no list is reported changed, so the catalog is not saved again,
/// and every list replaced as a whole (Caddy, MySQL, PostgreSQL, Node.js,
/// Python, Go, Ruby) stays as the first fold left it. This holds for every
/// catalog that lists each PHP id once.
pub proof fn lemma_refresh_twice_changes_nothing(
    c0: RuntimeConfigView,
    u: CatalogUpdates,
    c1: RuntimeConfigView,
    r1: CatalogChanges,
    c2: RuntimeConfigView,
    r2: CatalogChanges,
)
    requires
        ids_distinct(c0.php),
        catalog_refreshed(c0, u, c1, r1),
        catalog_refreshed(c1, u, c2, r2),
    ensures
        !r2.caddy && !r2.php && !r2.mysql && !r2.postgresql && !r2.phpmyadmin && !r2.adminer && !r2.node
            && !r2.python && !r2.go && !r2.ruby,
        c2.caddy == c1.caddy,
        c2.mysql == c1.mysql,
        c2.postgresql == c1.postgresql,
        c2.node == c1.node,
        c2.python == c1.python,
        c2.go == c1.go,
        c2.ruby == c1.ruby,
        c2.version == c1.version,
{
    lemma_caddy_again(c0.caddy, u.caddy_tag, c1.caddy, r1.caddy, c2.caddy, r2.caddy);
    lemma_php_again(c0.php, u.php_page, c1.php, r1.php, c2.php, r2.php);
    lemma_mysql_again(c0.mysql, u.mysql_page, c1.mysql, r1.mysql, c2.mysql, r2.mysql);
    lemma_postgresql_again(c0.postgresql, u.postgresql_page, c1.postgresql, r1.postgresql, c2.postgresql, r2.postgresql);
    let m1 = choose|mid: Seq<VersionInfoSingleUrl>|
        pma_refreshed(c0.phpmyadmin, u.phpmyadmin_page, mid, r1.phpmyadmin)
            && adminer_refreshed(mid, u.adminer_page, c1.phpmyadmin, r1.adminer);
    let m2 = choose|mid: Seq<VersionInfoSingleUrl>|
        pma_refreshed(c1.phpmyadmin, u.phpmyadmin_page, mid, r2.phpmyadmin)
            && adminer_refreshed(mid, u.adminer_page, c2.phpmyadmin, r2.adminer);
    lemma_tools_again(
        c0.phpmyadmin,
        u.phpmyadmin_page,
        u.adminer_page,
        m1,
        c1.phpmyadmin,
        r1.phpmyadmin,
        r1.adminer,
        m2,
        c2.phpmyadmin,
        r2.phpmyadmin,
        r2.adminer,
    );
    lemma_node_again(c0.node, u.node_releases, c1.node, r1.node, c2.node, r2.node);
    lemma_python_again(c0.python, u.python_page, c1.python, r1.python, c2.python, r2.python);
    lemma_go_again(c0.go, u.go_releases, c1.go, r1.go, c2.go, r2.go);
    lemma_ruby_again(c0.ruby, u.ruby_tag, c1.ruby, r1.ruby, c2.ruby, r2.ruby);
}

} // verus!






