//! The database admin tool (phpMyAdmin or Adminer) served at `/phpmyadmin`
//! or `/adminer`: its configuration, the page shown while it is missing,
//! its per-install secret, and whether an installed copy is kept.

use vstd::prelude::*;
use crate::commands::{adminer_selected, is_adminer};
use crate::locator::{join_path, join_spec, joined_all, parent_path, parent_spec, said, strs, DirEntry};
use crate::packages::texts;
use crate::text::{
    utf8_len, utf8_width,
    chars_of, decimal, decimal_string, ends_with, ends_with_chars, is_ascii_alnum_spec, lower, lower_chars, push_str,
    starts_with, starts_with_chars, string_from_chars, trim, trim_chars,
};

verus! {

broadcast use vstd::string::group_string_axioms;

/// The length of the phpMyAdmin cookie secret: phpMyAdmin expects a 32-byte
/// key.
pub const BLOWFISH_SECRET_LEN: usize = 32;

/// One step of the xorshift generator.
pub open spec fn xorshift(s: u64) -> u64 {
    let a = s ^ (s << 13u64);
    let b = a ^ (a >> 7u64);
    b ^ (b << 17u64)
}

/// The state the generator starts from: the seed, or a fixed odd constant
/// for a zero seed, on which xorshift would stay.
pub open spec fn start_state(seed: u64) -> u64 {
    if seed == 0 {
        0x9E37_79B9_7F4A_7C15
    } else {
        seed
    }
}

/// The `k`-th character of `A`-`Z`, `a`-`z`, `0`-`9`.
pub open spec fn alnum_char(k: int) -> char {
    if k < 26 {
        (65 + k) as char
    } else if k < 52 {
        (97 + k - 26) as char
    } else {
        (48 + k - 52) as char
    }
}

/// The characters drawn from state `s`: each step advances the generator
/// and takes the character its state picks modulo 62.
pub open spec fn secret_chars(s: u64, n: nat) -> Seq<char>
    decreases n,
{
    if n == 0 {
        Seq::empty()
    } else {
        let t = xorshift(s);
        seq![alnum_char((t % 62) as int)] + secret_chars(t, (n - 1) as nat)
    }
}

/// The drawn characters are `n` letters and digits.
pub proof fn lemma_secret_chars(s: u64, n: nat)
    ensures
        secret_chars(s, n).len() == n,
        forall|i: int| 0 <= i < n ==> is_ascii_alnum_spec(#[trigger] secret_chars(s, n)[i]),
    decreases n,
{
    if n > 0 {
        let t = xorshift(s);
        lemma_secret_chars(t, (n - 1) as nat);
        let k = (t % 62) as int;
        assert(is_ascii_alnum_spec(alnum_char(k)));
        assert forall|i: int| 0 <= i < n implies is_ascii_alnum_spec(#[trigger] secret_chars(s, n)[i]) by {
            if i > 0 {
                assert(secret_chars(s, n)[i] == secret_chars(t, (n - 1) as nat)[i - 1]);
            }
        }
    }
}

/// The `k`-th letter or digit.
fn alnum(k: u64) -> (c: char)
    requires
        k < 62,
    ensures
        c == alnum_char(k as int),
{
    let code: u8 = if k < 26 {
        65 + k as u8
    } else if k < 52 {
        97 + (k - 26) as u8
    } else {
        48 + (k - 52) as u8
    };
    code as char
}

/// `len` letters and digits drawn from a generator seeded with `seed`; they
/// can stand in a single-quoted PHP string.
pub fn random_alphanumeric(seed: u64, len: usize) -> (r: String)
    ensures
        r@ == secret_chars(start_state(seed), len as nat),
        r@.len() == len,
        forall|i: int| 0 <= i < len ==> is_ascii_alnum_spec(#[trigger] r@[i]),
{
    let mut state: u64 = if seed == 0 {
        0x9E37_79B9_7F4A_7C15
    } else {
        seed
    };
    let mut out: Vec<char> = Vec::new();
    let mut i: usize = 0;
    assert(out@ + secret_chars(state, len as nat) =~= secret_chars(start_state(seed), len as nat));
    while i < len
        invariant
            i <= len,
            out@ + secret_chars(state, (len - i) as nat) == secret_chars(start_state(seed), len as nat),
        decreases len - i,
    {
        let ghost before = out@;
        let ghost old_state = state;
        state = state ^ (state << 13u64);
        state = state ^ (state >> 7u64);
        state = state ^ (state << 17u64);
        assert(state == xorshift(old_state));
        let c = alnum(state % 62);
        out.push(c);
        assert(before + secret_chars(old_state, (len - i) as nat) =~= out@ + secret_chars(
            state,
            (len - i - 1) as nat,
        ));
        i = i + 1;
    }
    assert(out@ + secret_chars(state, 0) =~= out@);
    proof {
        lemma_secret_chars(start_state(seed), len as nat);
    }
    string_from_chars(out.as_slice())
}

/// The number of bytes of a text in UTF-8, where it is below a bound; the
/// bound where it is not.
fn utf8_len_upto(v: &[char], bound: usize) -> (n: usize)
    ensures
        utf8_len(v@) < bound ==> n == utf8_len(v@),
        utf8_len(v@) >= bound ==> n == bound,
{
    let mut n: usize = 0;
    let mut i: usize = 0;
    while i < v.len()
        invariant
            i <= v.len(),
            n <= bound,
            n < bound ==> n == utf8_len(v@.take(i as int)),
            n == bound ==> utf8_len(v@.take(i as int)) >= bound,
        decreases v.len() - i,
    {
        assert(v@.take(i + 1).drop_last() =~= v@.take(i as int));
        let u = v[i] as u32;
        let w: usize = if u < 0x80 {
            1
        } else if u < 0x800 {
            2
        } else if u < 0x10000 {
            3
        } else {
            4
        };
        if n < bound {
            if w >= bound - n {
                n = bound;
            } else {
                n = n + w;
            }
        }
        i = i + 1;
    }
    assert(v@.take(i as int) =~= v@);
    n
}

/// The secret phpMyAdmin is configured with: the one stored where it is
/// exactly the expected number of bytes once trimmed, else a new one drawn
/// from `seed`; and whether the new one is to be stored.
pub open spec fn secret_choice(stored: Option<Seq<char>>, seed: u64) -> (Seq<char>, bool) {
    match stored {
        Some(c) => if utf8_len(trim(c)) == BLOWFISH_SECRET_LEN {
            (trim(c), false)
        } else {
            (secret_chars(start_state(seed), BLOWFISH_SECRET_LEN as nat), true)
        },
        None => (secret_chars(start_state(seed), BLOWFISH_SECRET_LEN as nat), true),
    }
}

/// The secret phpMyAdmin is configured with, from what the secret file
/// holds (`None` where it could not be read), and whether it is to be
/// written back.
pub fn blowfish_secret(stored: &Option<String>, seed: u64) -> (r: (String, bool))
    ensures
        (r.0@, r.1) == secret_choice(
            match stored {
                Some(c) => Some(c@),
                None => None,
            },
            seed,
        ),
{
    match stored {
        Some(c) => {
            let t = trim_chars(chars_of(c.as_str()).as_slice());
            if utf8_len_upto(t.as_slice(), BLOWFISH_SECRET_LEN + 1) == BLOWFISH_SECRET_LEN {
                return (string_from_chars(t.as_slice()), false);
            }
        },
        None => {},
    }
    (random_alphanumeric(seed, BLOWFISH_SECRET_LEN), true)
}

/// The phpMyAdmin configuration for a secret and the ports.
pub open spec fn phpmyadmin_config_spec(secret: Seq<char>, web_port: u16, mysql_port: u16) -> Seq<char> {
    "<?php\n$cfg['blowfish_secret'] = '"@ + secret + "';\n$cfg['PmaAbsoluteUri'] = 'http://localhost:"@ + decimal(
        web_port as nat,
    ) + "/phpmyadmin/';\n$i = 0;\n$i++;\n$cfg['Servers'][$i]['auth_type'] = 'cookie';\n$cfg['Servers'][$i]['host'] = '127.0.0.1';\n$cfg['Servers'][$i]['port'] = '"@
        + decimal(mysql_port as nat)
        + "';\n$cfg['Servers'][$i]['AllowNoPassword'] = true;\n$cfg['CheckConfigurationPermissions'] = false;\n$cfg['TempDir'] = __DIR__ . '/tmp';\n"@
}

/// The phpMyAdmin configuration (`config.inc.php`): cookie login to the
/// local database server on `mysql_port`, served under `web_port`.
pub fn phpmyadmin_config(secret: &str, web_port: u16, mysql_port: u16) -> (r: String)
    ensures
        r@ == phpmyadmin_config_spec(secret@, web_port, mysql_port),
{
    let mut r = String::new();
    push_str(&mut r, "<?php\n$cfg['blowfish_secret'] = '");
    push_str(&mut r, secret);
    push_str(&mut r, "';\n$cfg['PmaAbsoluteUri'] = 'http://localhost:");
    push_str(&mut r, decimal_string(web_port as u64).as_str());
    push_str(
        &mut r,
        "/phpmyadmin/';\n$i = 0;\n$i++;\n$cfg['Servers'][$i]['auth_type'] = 'cookie';\n$cfg['Servers'][$i]['host'] = '127.0.0.1';\n$cfg['Servers'][$i]['port'] = '",
    );
    push_str(&mut r, decimal_string(mysql_port as u64).as_str());
    push_str(
        &mut r,
        "';\n$cfg['Servers'][$i]['AllowNoPassword'] = true;\n$cfg['CheckConfigurationPermissions'] = false;\n$cfg['TempDir'] = __DIR__ . '/tmp';\n",
    );
    r
}

/// Whether a database tool id names phpMyAdmin.
pub open spec fn is_phpmyadmin(tool_id: Seq<char>) -> bool {
    starts_with(tool_id, "phpmyadmin"@)
}

/// Whether a database tool id names phpMyAdmin.
pub fn phpmyadmin_selected(tool_id: &str) -> (b: bool)
    ensures
        b == is_phpmyadmin(tool_id@),
{
    let v = chars_of(tool_id);
    let p = chars_of("phpmyadmin");
    starts_with_chars(v.as_slice(), p.as_slice())
}

/// Whether an installed copy of the tool is kept as it is: its folder
/// exists and its marker names the selected tool; the answer is then
/// whether phpMyAdmin's configuration is rewritten (its ports may have
/// changed).
pub open spec fn kept_install(dir_exists: bool, marker: Option<Seq<char>>, tool_id: Seq<char>) -> Option<bool> {
    match marker {
        Some(m) => if dir_exists && trim(m) == tool_id {
            Some(is_phpmyadmin(tool_id))
        } else {
            None
        },
        None => None,
    }
}

/// Whether an installed copy of the tool is kept, from whether its folder
/// exists and what its marker holds (`None` where it could not be read).
pub fn keep_installed_tool(dir_exists: bool, marker: &Option<String>, tool_id: &str) -> (r: Option<bool>)
    ensures
        r == kept_install(
            dir_exists,
            match marker {
                Some(m) => Some(m@),
                None => None,
            },
            tool_id@,
        ),
{
    if !dir_exists {
        return None;
    }
    match marker {
        Some(m) => {
            let t = trim_chars(chars_of(m.as_str()).as_slice());
            let id = chars_of(tool_id);
            if crate::text::eq_chars(t.as_slice(), id.as_slice()) {
                Some(phpmyadmin_selected(tool_id))
            } else {
                None
            }
        },
        None => None,
    }
}

/// The page served while the tool is not installed.
pub open spec fn placeholder_spec(tool_id: Seq<char>, mysql_port: u16, postgresql_port: u16) -> Seq<char> {
    let adminer = is_adminer(tool_id);
    let name = if adminer {
        "Adminer"@
    } else {
        "phpMyAdmin"@
    };
    let path = if adminer {
        "/adminer"@
    } else {
        "/phpmyadmin"@
    };
    let connection = if adminer {
        "Default PostgreSQL connection: server <code>127.0.0.1:"@ + decimal(postgresql_port as nat)
            + "</code>, user <code>postgres</code>, empty password."@
    } else {
        "Default MySQL connection: server <code>127.0.0.1:"@ + decimal(mysql_port as nat)
            + "</code>, user <code>root</code>, empty password."@
    };
    "<?php\nhttp_response_code(503);\nheader('Content-Type: text/html; charset=utf-8');\n?>\n<!doctype html>\n<html lang=\"en\">\n<head>\n  <meta charset=\"utf-8\">\n  <title>"@
        + name
        + " is not installed</title>\n  <style>\n    body { font-family: system-ui, -apple-system, Segoe UI, sans-serif; margin: 48px; line-height: 1.5; }\n    code { background: #f3f4f6; padding: 2px 6px; border-radius: 4px; }\n  </style>\n</head>\n<body>\n  <h1>"@
        + name + " is not installed</h1>\n  <p>Run the CHAMP runtime installer to install "@ + name
        + ". After installation, open <code>"@ + path + "</code> again.</p>\n  <p>"@ + connection
        + "</p>\n</body>\n</html>\n"@
}

/// The page served at the tool's address while it is not installed (a 503
/// with the default connection settings).
pub fn placeholder_page(tool_id: &str, mysql_port: u16, postgresql_port: u16) -> (r: String)
    ensures
        r@ == placeholder_spec(tool_id@, mysql_port, postgresql_port),
{
    let adminer = adminer_selected(tool_id);
    let name = if adminer {
        "Adminer"
    } else {
        "phpMyAdmin"
    };
    let path = if adminer {
        "/adminer"
    } else {
        "/phpmyadmin"
    };
    let mut connection = String::new();
    if adminer {
        push_str(&mut connection, "Default PostgreSQL connection: server <code>127.0.0.1:");
        push_str(&mut connection, decimal_string(postgresql_port as u64).as_str());
        push_str(&mut connection, "</code>, user <code>postgres</code>, empty password.");
    } else {
        push_str(&mut connection, "Default MySQL connection: server <code>127.0.0.1:");
        push_str(&mut connection, decimal_string(mysql_port as u64).as_str());
        push_str(&mut connection, "</code>, user <code>root</code>, empty password.");
    }
    let mut r = String::new();
    push_str(
        &mut r,
        "<?php\nhttp_response_code(503);\nheader('Content-Type: text/html; charset=utf-8');\n?>\n<!doctype html>\n<html lang=\"en\">\n<head>\n  <meta charset=\"utf-8\">\n  <title>",
    );
    push_str(&mut r, name);
    push_str(
        &mut r,
        " is not installed</title>\n  <style>\n    body { font-family: system-ui, -apple-system, Segoe UI, sans-serif; margin: 48px; line-height: 1.5; }\n    code { background: #f3f4f6; padding: 2px 6px; border-radius: 4px; }\n  </style>\n</head>\n<body>\n  <h1>",
    );
    push_str(&mut r, name);
    push_str(&mut r, " is not installed</h1>\n  <p>Run the CHAMP runtime installer to install ");
    push_str(&mut r, name);
    push_str(&mut r, ". After installation, open <code>");
    push_str(&mut r, path);
    push_str(&mut r, "</code> again.</p>\n  <p>");
    push_str(&mut r, connection.as_str());
    push_str(&mut r, "</p>\n</body>\n</html>\n");
    r
}

/// The directories searched for a tool bundled beside the runtime: the
/// `runtime` folder beside the configuration folder, the folder of the web
/// server, and the one above it.
pub open spec fn tool_roots(config_dir: Seq<char>, caddy: Seq<char>) -> Seq<Seq<char>> {
    (match parent_spec(config_dir) {
        Some(b) => seq![join_spec(b, "runtime"@)],
        None => Seq::empty(),
    }) + match parent_spec(caddy) {
        Some(c) => seq![c] + match parent_spec(c) {
            Some(p) => seq![p],
            None => Seq::empty(),
        },
        None => Seq::empty(),
    }
}

/// The directories searched for a tool bundled beside the runtime.
pub fn database_tool_roots(config_dir: &str, caddy: &str) -> (r: Vec<String>)
    ensures
        texts(r@) == tool_roots(config_dir@, caddy@),
{
    let mut r: Vec<String> = Vec::new();
    match parent_path(config_dir) {
        Some(b) => r.push(join_path(b.as_str(), "runtime")),
        None => {},
    }
    match parent_path(caddy) {
        Some(c) => {
            let up = parent_path(c.as_str());
            r.push(c);
            match up {
                Some(p) => r.push(p),
                None => {},
            }
        },
        None => {},
    }
    assert(texts(r@) =~= tool_roots(config_dir@, caddy@));
    r
}

/// A directory searched for the tool, with its listing.
pub struct ToolRoot {
    pub dir: String,
    pub entries: Vec<DirEntry>,
}

/// A listing as plain values: name, whether a file, whether a directory.
pub open spec fn listing_view(v: Seq<DirEntry>) -> Seq<(Seq<char>, bool, bool)> {
    Seq::new(v.len(), |i: int| (v[i].name@, v[i].is_file, v[i].is_dir))
}

/// The places in a directory where the tool itself may lie.
pub open spec fn direct_tool_candidates(root: Seq<char>, tool_id: Seq<char>) -> Seq<Seq<char>> {
    if is_adminer(tool_id) {
        joined_all(root, seq!["adminer/index.php"@, "adminer.php"@])
    } else {
        seq![join_spec(root, "phpmyadmin"@)]
    }
}

/// A candidate holds the tool: it is a file, or a folder with `index.php`.
pub open spec fn direct_ok<F: Fn(&str) -> bool, G: Fn(&str) -> bool>(present: F, is_file: G, c: Seq<char>) -> bool {
    said(is_file, c, true) || (said(is_file, c, false) && said(present, join_spec(c, "index.php"@), true))
}

/// A candidate does not hold the tool.
pub open spec fn direct_no<F: Fn(&str) -> bool, G: Fn(&str) -> bool>(present: F, is_file: G, c: Seq<char>) -> bool {
    said(is_file, c, false) && said(present, join_spec(c, "index.php"@), false)
}

/// What checking the candidates in order may find.
pub open spec fn direct_result<F: Fn(&str) -> bool, G: Fn(&str) -> bool>(
    present: F,
    is_file: G,
    cands: Seq<Seq<char>>,
    r: Option<Seq<char>>,
) -> bool
    decreases cands.len(),
{
    if cands.len() == 0 {
        r is None
    } else {
        ||| direct_ok(present, is_file, cands[0]) && r == Some(cands[0])
        ||| direct_no(present, is_file, cands[0]) && direct_result(present, is_file, cands.drop_first(), r)
    }
}

/// What scanning a directory's listing in order may find: for Adminer a
/// `adminer*.php` file, for phpMyAdmin a `phpmyadmin*` folder with
/// `index.php` (names compared in ASCII lowercase).
pub open spec fn scan_tool_result<F: Fn(&str) -> bool>(
    present: F,
    root: Seq<char>,
    entries: Seq<(Seq<char>, bool, bool)>,
    tool_id: Seq<char>,
    r: Option<Seq<char>>,
) -> bool
    decreases entries.len(),
{
    if entries.len() == 0 {
        r is None
    } else {
        let e = entries[0];
        let n = lower(e.0);
        let path = join_spec(root, e.0);
        if is_adminer(tool_id) && e.1 && starts_with(n, "adminer"@) && ends_with(n, ".php"@) {
            r == Some(path)
        } else if is_phpmyadmin(tool_id) && e.2 && starts_with(n, "phpmyadmin"@) {
            ||| said(present, join_spec(path, "index.php"@), true) && r == Some(path)
            ||| said(present, join_spec(path, "index.php"@), false) && scan_tool_result(
                present,
                root,
                entries.drop_first(),
                tool_id,
                r,
            )
        } else {
            scan_tool_result(present, root, entries.drop_first(), tool_id, r)
        }
    }
}

/// What searching one directory may find: nothing where it is missing,
/// else the first place that holds the tool, else a match in its listing.
pub open spec fn root_result<F: Fn(&str) -> bool, G: Fn(&str) -> bool>(
    present: F,
    is_file: G,
    root: Seq<char>,
    entries: Seq<(Seq<char>, bool, bool)>,
    tool_id: Seq<char>,
    r: Option<Seq<char>>,
) -> bool {
    ||| said(present, root, false) && r is None
    ||| said(present, root, true) && exists|d: Option<Seq<char>>|
        #[trigger] direct_result(present, is_file, direct_tool_candidates(root, tool_id), d) && match d {
            Some(c) => r == Some(c),
            None => scan_tool_result(present, root, entries, tool_id, r),
        }
}

/// Checks the places in a directory where the tool itself may lie.
fn find_direct<F: Fn(&str) -> bool, G: Fn(&str) -> bool>(cands: &Vec<String>, present: &F, is_file: &G) -> (r: Option<
    String,
>)
    requires
        forall|s: &str| call_requires(*present, (s,)),
        forall|s: &str| call_requires(*is_file, (s,)),
    ensures
        direct_result(
            *present,
            *is_file,
            texts(cands@),
            match r {
                Some(x) => Some(x@),
                None => None,
            },
        ),
{
    let ghost c = texts(cands@);
    let mut i: usize = 0;
    assert(c.skip(0) =~= c);
    while i < cands.len()
        invariant
            i <= cands@.len(),
            c == texts(cands@),
            forall|s: &str| call_requires(*present, (s,)),
            forall|s: &str| call_requires(*is_file, (s,)),
            forall|x: Option<Seq<char>>| direct_result(*present, *is_file, c.skip(i as int), x) ==> direct_result(
                *present,
                *is_file,
                c,
                x,
            ),
        decreases cands.len() - i,
    {
        assert(c.skip(i as int).drop_first() =~= c.skip(i + 1));
        assert(c.skip(i as int)[0] == cands@[i as int]@);
        let p = cands[i].as_str();
        let f = is_file(p);
        assert(said(*is_file, p@, f));
        if f {
            assert(direct_result(*present, *is_file, c.skip(i as int), Some(p@)));
            return Some(cands[i].clone());
        }
        let index = join_path(p, "index.php");
        let e = present(index.as_str());
        assert(said(*present, index@, e));
        if e {
            assert(direct_result(*present, *is_file, c.skip(i as int), Some(p@)));
            return Some(cands[i].clone());
        }
        i = i + 1;
    }
    assert(c.skip(i as int) =~= Seq::<Seq<char>>::empty());
    assert(direct_result(*present, *is_file, c.skip(i as int), None));
    None
}

/// Scans a directory's listing for the tool.
fn scan_for_tool<F: Fn(&str) -> bool>(root: &str, entries: &Vec<DirEntry>, tool_id: &str, present: &F) -> (r: Option<
    String,
>)
    requires
        forall|s: &str| call_requires(*present, (s,)),
    ensures
        scan_tool_result(
            *present,
            root@,
            listing_view(entries@),
            tool_id@,
            match r {
                Some(x) => Some(x@),
                None => None,
            },
        ),
{
    let ghost l = listing_view(entries@);
    let adminer = adminer_selected(tool_id);
    let pma = phpmyadmin_selected(tool_id);
    let a = chars_of("adminer");
    let php = chars_of(".php");
    let pm = chars_of("phpmyadmin");
    let mut i: usize = 0;
    assert(l.skip(0) =~= l);
    while i < entries.len()
        invariant
            i <= entries@.len(),
            l == listing_view(entries@),
            adminer == is_adminer(tool_id@),
            pma == is_phpmyadmin(tool_id@),
            a@ == "adminer"@,
            php@ == ".php"@,
            pm@ == "phpmyadmin"@,
            forall|s: &str| call_requires(*present, (s,)),
            forall|x: Option<Seq<char>>| scan_tool_result(*present, root@, l.skip(i as int), tool_id@, x) ==> scan_tool_result(
                *present,
                root@,
                l,
                tool_id@,
                x,
            ),
        decreases entries.len() - i,
    {
        assert(l.skip(i as int).drop_first() =~= l.skip(i + 1));
        assert(l.skip(i as int)[0] == l[i as int]);
        let e = &entries[i];
        let n = lower_chars(chars_of(e.name.as_str()).as_slice());
        let path = join_path(root, e.name.as_str());
        if adminer && e.is_file && starts_with_chars(n.as_slice(), a.as_slice()) && ends_with_chars(
            n.as_slice(),
            php.as_slice(),
        ) {
            assert(scan_tool_result(*present, root@, l.skip(i as int), tool_id@, Some(path@)));
            return Some(path);
        }
        if pma && e.is_dir && starts_with_chars(n.as_slice(), pm.as_slice()) {
            let index = join_path(path.as_str(), "index.php");
            let found = present(index.as_str());
            assert(said(*present, index@, found));
            if found {
                assert(scan_tool_result(*present, root@, l.skip(i as int), tool_id@, Some(path@)));
                return Some(path);
            }
        }
        i = i + 1;
    }
    assert(l.skip(i as int) =~= Seq::<(Seq<char>, bool, bool)>::empty());
    None
}

/// Searches one directory for the tool.
fn search_root<F: Fn(&str) -> bool, G: Fn(&str) -> bool>(
    root: &ToolRoot,
    tool_id: &str,
    present: &F,
    is_file: &G,
) -> (r: Option<String>)
    requires
        forall|s: &str| call_requires(*present, (s,)),
        forall|s: &str| call_requires(*is_file, (s,)),
    ensures
        root_result(
            *present,
            *is_file,
            root.dir@,
            listing_view(root.entries@),
            tool_id@,
            match r {
                Some(x) => Some(x@),
                None => None,
            },
        ),
{
    let here = present(root.dir.as_str());
    assert(said(*present, root.dir@, here));
    if !here {
        return None;
    }
    let cands = if adminer_selected(tool_id) {
        let tails: &[&str] = &["adminer/index.php", "adminer.php"];
        let c = crate::locator::join_all(root.dir.as_str(), tails);
        assert(strs(tails@) =~= seq!["adminer/index.php"@, "adminer.php"@]);
        c
    } else {
        let mut c: Vec<String> = Vec::new();
        c.push(join_path(root.dir.as_str(), "phpmyadmin"));
        c
    };
    assert(texts(cands@) =~= direct_tool_candidates(root.dir@, tool_id@));
    let d = find_direct(&cands, present, is_file);
    let ghost dv = match &d {
        Some(x) => Some(x@),
        None => None::<Seq<char>>,
    };
    assert(direct_result(*present, *is_file, direct_tool_candidates(root.dir@, tool_id@), dv));
    match d {
        Some(c) => Some(c),
        None => scan_for_tool(root.dir.as_str(), &root.entries, tool_id, present),
    }
}

/// Finds the tool bundled beside the runtime: the first directory, in the
/// order given, where it is found.
pub fn find_database_tool_source<F: Fn(&str) -> bool, G: Fn(&str) -> bool>(
    roots: &Vec<ToolRoot>,
    tool_id: &str,
    present: &F,
    is_file: &G,
) -> (r: Option<String>)
    requires
        forall|s: &str| call_requires(*present, (s,)),
        forall|s: &str| call_requires(*is_file, (s,)),
    ensures
        match r {
            Some(p) => exists|i: int|
                0 <= i < roots@.len() && #[trigger] root_result(
                    *present,
                    *is_file,
                    roots@[i].dir@,
                    listing_view(roots@[i].entries@),
                    tool_id@,
                    Some(p@),
                ) && forall|j: int|
                    0 <= j < i ==> root_result(
                        *present,
                        *is_file,
                        #[trigger] roots@[j].dir@,
                        listing_view(roots@[j].entries@),
                        tool_id@,
                        None,
                    ),
            None => forall|j: int|
                0 <= j < roots@.len() ==> root_result(
                    *present,
                    *is_file,
                    #[trigger] roots@[j].dir@,
                    listing_view(roots@[j].entries@),
                    tool_id@,
                    None,
                ),
        },
{
    let mut i: usize = 0;
    while i < roots.len()
        invariant
            i <= roots@.len(),
            forall|s: &str| call_requires(*present, (s,)),
            forall|s: &str| call_requires(*is_file, (s,)),
            forall|j: int|
                0 <= j < i ==> root_result(
                    *present,
                    *is_file,
                    #[trigger] roots@[j].dir@,
                    listing_view(roots@[j].entries@),
                    tool_id@,
                    None,
                ),
        decreases roots.len() - i,
    {
        match search_root(&roots[i], tool_id, present, is_file) {
            Some(p) => {
                return Some(p);
            },
            None => {},
        }
        i = i + 1;
    }
    None
}

/// What providing the database tool does.
#[derive(Debug, PartialEq, Eq)]
pub enum ToolInstallPlan {
    /// The installed copy stays; phpMyAdmin's configuration is rewritten
    /// where `rewrite_config` holds.
    Keep { rewrite_config: bool },
    /// The folder is emptied, the tool copied in from `source` (a single
    /// file becoming `index.php`, or a folder's contents), configured where
    /// `write_config` holds, and the marker written.
    Install { source: String, source_is_file: bool, write_config: bool },
    /// The folder is emptied and the page for a missing tool put there; no
    /// marker is written, so the next start tries again.
    Placeholder,
}

/// What providing the database tool does, from whether the installed copy
/// is kept (see `keep_installed_tool`) and where the tool was found.
pub fn tool_install_plan(kept: Option<bool>, source: Option<String>, source_is_file: bool, tool_id: &str) -> (r:
    ToolInstallPlan)
    ensures
        match kept {
            Some(rewrite) => r == ToolInstallPlan::Keep { rewrite_config: rewrite },
            None => match source {
                Some(s) => r matches ToolInstallPlan::Install { source: x, source_is_file: f, write_config: w } && x@
                    == s@ && f == source_is_file && w == is_phpmyadmin(tool_id@),
                None => r == ToolInstallPlan::Placeholder,
            },
        },
{
    match kept {
        Some(rewrite) => ToolInstallPlan::Keep { rewrite_config: rewrite },
        None => match source {
            Some(s) => ToolInstallPlan::Install {
                source: s,
                source_is_file,
                write_config: phpmyadmin_selected(tool_id),
            },
            None => ToolInstallPlan::Placeholder,
        },
    }
}

} // verus!
