//! Apache `.htaccess` compatibility: the directives CHAMP understands and the
//! Caddyfile fragments it writes for them.

use vstd::prelude::*;
use crate::text::{
    utf8_len, utf8_len_of,
    concat_chars, contains, contains_chars, ends_with, ends_with_chars, eq_chars, lower, lower_chars,
    starts_with, starts_with_chars, strip_prefixes, strip_prefixes_chars, trim_end_set,
    trim_end_set_chars, trim_set, trim_set_chars, trim_start, trim_start_index, trim_start_set,
    trim_start_set_chars, words, words_of, lines, lines_of, is_ws, is_whitespace, is_ascii_alnum_spec,
    is_ascii_alphanumeric, decimal, push_decimal, replace_all, replace_all_chars, push_chars,
    chars_of, char_index, join, join_chars, replace_char, replace_char_chars, slice_of, split_once,
    string_from_chars, trim, trim_chars, push_str,
};

verus! {

broadcast use vstd::string::group_string_axioms;

/// What one `.htaccess` file asks of the web server.
#[derive(Debug, Clone)]
pub struct HtaccessCompatibilityRule {
    pub request_prefix: String,
    pub project_prefix: String,
    pub extensionless_php: bool,
    pub front_controller: Option<String>,
    pub error_404: Option<String>,
    pub directory_indexes: Vec<String>,
    pub deny_all: bool,
    pub disable_indexes: bool,
}

/// The mathematical content of a rule.
#[verifier::ext_equal]
pub struct RuleView {
    pub request_prefix: Seq<char>,
    pub project_prefix: Seq<char>,
    pub extensionless_php: bool,
    pub front_controller: Option<Seq<char>>,
    pub error_404: Option<Seq<char>>,
    pub directory_indexes: Seq<Seq<char>>,
    pub deny_all: bool,
    pub disable_indexes: bool,
}

pub open spec fn opt_view(o: Option<String>) -> Option<Seq<char>> {
    match o {
        Some(s) => Some(s@),
        None => None,
    }
}

pub open spec fn strings_view(v: Seq<String>) -> Seq<Seq<char>> {
    v.map_values(|s: String| s@)
}

impl View for HtaccessCompatibilityRule {
    type V = RuleView;

    open spec fn view(&self) -> RuleView {
        RuleView {
            request_prefix: self.request_prefix@,
            project_prefix: self.project_prefix@,
            extensionless_php: self.extensionless_php,
            front_controller: opt_view(self.front_controller),
            error_404: opt_view(self.error_404),
            directory_indexes: strings_view(self.directory_indexes@),
            deny_all: self.deny_all,
            disable_indexes: self.disable_indexes,
        }
    }
}

/// The quote characters that `.htaccess` values may be wrapped in.
pub open spec fn quotes() -> Seq<char> {
    seq!['"', '\'']
}

pub fn quote_chars() -> (v: Vec<char>)
    ensures
        v@ == quotes(),
{
    let mut v: Vec<char> = Vec::new();
    v.push('"');
    v.push('\'');
    assert(v@ =~= quotes());
    v
}

/// A line without its `#` comment, trimmed.
pub open spec fn strip_comment(line: Seq<char>) -> Seq<char> {
    match split_once(line, '#') {
        Some((before, _)) => trim(before),
        None => trim(line),
    }
}

pub fn strip_comment_chars(line: &[char]) -> (r: Vec<char>)
    ensures
        r@ == strip_comment(line@),
{
    match char_index(line, '#') {
        Some(i) => {
            let before = slice_of(line, 0, i);
            assert(before@ =~= line@.take(i as int));
            trim_chars(before.as_slice())
        },
        None => trim_chars(line),
    }
}

/// Removes a trailing `#` comment from a `.htaccess` line and trims it.
pub fn strip_htaccess_comment(line: &str) -> (r: String)
    ensures
        r@ == strip_comment(line@),
{
    let v = chars_of(line);
    let r = strip_comment_chars(v.as_slice());
    string_from_chars(r.as_slice())
}

/// Path components with `\` turned into `/`, empty ones dropped.
pub open spec fn url_parts(components: Seq<Seq<char>>) -> Seq<Seq<char>>
    decreases components.len(),
{
    if components.len() == 0 {
        Seq::empty()
    } else {
        let p = replace_char(components.last(), '\\', '/');
        if p.len() == 0 {
            url_parts(components.drop_last())
        } else {
            url_parts(components.drop_last()).push(p)
        }
    }
}

/// The URL path under which a directory of the projects tree is served.
pub open spec fn request_prefix_spec(components: Seq<Seq<char>>) -> Seq<char> {
    let parts = url_parts(components);
    if parts.len() == 0 {
        "/"@
    } else {
        "/"@ + join(parts, "/"@)
    }
}

/// The URL path of the project (the first component) that holds a directory.
pub open spec fn project_prefix_spec(components: Seq<Seq<char>>) -> Seq<char> {
    if components.len() == 0 {
        "/"@
    } else {
        "/"@ + replace_char(components[0], '\\', '/')
    }
}

/// The request prefix of a directory given by its path components relative to
/// the projects directory.
pub fn request_prefix_from_relative_path(components: &Vec<String>) -> (r: String)
    ensures
        r@ == request_prefix_spec(strings_view(components@)),
{
    let ghost cv = strings_view(components@);
    let mut parts: Vec<Vec<char>> = Vec::new();
    let mut i: usize = 0;
    while i < components.len()
        invariant
            i <= components.len(),
            cv == strings_view(components@),
            parts@.map_values(|p: Vec<char>| p@) == url_parts(cv.take(i as int)),
        decreases components.len() - i,
    {
        let c = chars_of(components[i].as_str());
        let p = replace_char_chars(c.as_slice(), '\\', '/');
        assert(cv.take(i + 1).drop_last() =~= cv.take(i as int));
        assert(cv.take(i + 1).last() == c@);
        if p.len() > 0 {
            let ghost old_parts = parts@;
            let ghost pv = p@;
            parts.push(p);
            assert(parts@.map_values(|p: Vec<char>| p@) =~= old_parts.map_values(|p: Vec<char>| p@).push(pv));
        }
        i = i + 1;
    }
    assert(cv.take(components.len() as int) =~= cv);
    let mut out: Vec<char> = Vec::new();
    out.push('/');
    if parts.len() > 0 {
        let slash = chars_of("/");
        let joined = join_chars(&parts, slash.as_slice());
        out.extend_from_slice(joined.as_slice());
        proof {
            reveal_strlit("/");
        }
        assert(out@ =~= "/"@ + join(url_parts(cv), "/"@));
    } else {
        proof {
            reveal_strlit("/");
        }
        assert(out@ =~= "/"@);
    }
    string_from_chars(out.as_slice())
}

/// The project prefix of a directory given by its path components relative to
/// the projects directory.
pub fn project_prefix_from_relative_path(components: &Vec<String>) -> (r: String)
    ensures
        r@ == project_prefix_spec(strings_view(components@)),
{
    proof {
        reveal_strlit("/");
    }
    let mut out: Vec<char> = Vec::new();
    out.push('/');
    if components.len() > 0 {
        let c = chars_of(components[0].as_str());
        let p = replace_char_chars(c.as_slice(), '\\', '/');
        out.extend_from_slice(p.as_slice());
    }
    assert(out@ =~= project_prefix_spec(strings_view(components@)));
    string_from_chars(out.as_slice())
}


/// The third word of a `RewriteRule` line without surrounding quotes, if it is not empty.
pub open spec fn rewrite_replacement(line: Seq<char>) -> Option<Seq<char>> {
    let ws = words(line);
    if ws.len() > 2 && trim_set(ws[2], quotes()).len() > 0 {
        Some(trim_set(ws[2], quotes()))
    } else {
        None
    }
}

pub fn rewrite_replacement_chars(line: &[char]) -> (r: Option<Vec<char>>)
    ensures
        opt_chars_view(r) == rewrite_replacement(line@),
{
    let ws = words_of(line);
    assert(ws@.map_values(|w: Vec<char>| w@).len() == ws@.len());
    if ws.len() > 2 {
        let q = quote_chars();
        let v = trim_set_chars(ws[2].as_slice(), q.as_slice());
        assert(ws@.map_values(|w: Vec<char>| w@)[2] == ws@[2]@);
        if v.len() > 0 {
            return Some(v);
        }
    }
    None
}

pub open spec fn opt_chars_view(o: Option<Vec<char>>) -> Option<Seq<char>> {
    match o {
        Some(v) => Some(v@),
        None => None,
    }
}

/// Extracts the replacement of a `RewriteRule` directive.
pub fn rewrite_rule_replacement(line: &str) -> (r: Option<String>)
    ensures
        opt_view(r) == rewrite_replacement(line@),
{
    let v = chars_of(line);
    match rewrite_replacement_chars(v.as_slice()) {
        Some(rep) => Some(string_from_chars(rep.as_slice())),
        None => None,
    }
}

/// A rewrite target that maps extensionless URLs onto `.php` scripts.
pub open spec fn extensionless_php_spec(r: Seq<char>) -> bool {
    contains(r, "$1.php"@) || contains(r, "${1}.php"@) || ends_with(r, ".php"@)
}

pub fn is_extensionless_php_rewrite(replacement: &str) -> (b: bool)
    ensures
        b == extensionless_php_spec(replacement@),
{
    let r = chars_of(replacement);
    contains_chars(r.as_slice(), chars_of("$1.php").as_slice()) || contains_chars(
        r.as_slice(),
        chars_of("${1}.php").as_slice(),
    ) || ends_with_chars(r.as_slice(), chars_of(".php").as_slice())
}

/// A rewrite target that sends requests to an `index.php` front controller.
pub open spec fn front_controller_spec(r: Seq<char>) -> bool {
    let t = trim_start_set(r, seq!['/']);
    t == "index.php"@ || starts_with(t, "index.php?"@) || ends_with(t, "/index.php"@) || contains(
        t,
        "/index.php?"@,
    )
}

pub fn is_front_controller_rewrite(replacement: &str) -> (b: bool)
    ensures
        b == front_controller_spec(replacement@),
{
    let r = chars_of(replacement);
    let mut slash: Vec<char> = Vec::new();
    slash.push('/');
    assert(slash@ =~= seq!['/']);
    let t = trim_start_set_chars(r.as_slice(), slash.as_slice());
    let t = t.as_slice();
    eq_chars(t, chars_of("index.php").as_slice()) || starts_with_chars(
        t,
        chars_of("index.php?").as_slice(),
    ) || ends_with_chars(t, chars_of("/index.php").as_slice()) || contains_chars(
        t,
        chars_of("/index.php?").as_slice(),
    )
}

/// The target of an `ErrorDocument 404` directive, unless it is empty or an
/// absolute `http(s)` URL.
pub open spec fn error_document_404(line: Seq<char>) -> Option<Seq<char>> {
    let ws = words(line);
    if ws.len() < 2 || lower(ws[0]) != lower("errordocument"@) || ws[1] != "404"@ {
        None
    } else {
        let t0 = join(ws.skip(2), " "@);
        let t1 = if starts_with(t0, "/ "@) {
            "/"@ + trim_start(strip_prefixes(t0, "/ "@))
        } else {
            t0
        };
        let t2 = trim(trim_set(t1, quotes()));
        if t2.len() == 0 || starts_with(t2, "http://"@) || starts_with(t2, "https://"@) {
            None
        } else {
            Some(t2)
        }
    }
}

/// The words of `ws` from index `n` on.
pub fn skip_words(ws: &Vec<Vec<char>>, n: usize) -> (r: Vec<Vec<char>>)
    requires
        n <= ws.len(),
    ensures
        r@.map_values(|w: Vec<char>| w@) == ws@.map_values(|w: Vec<char>| w@).skip(n as int),
{
    let mut r: Vec<Vec<char>> = Vec::new();
    let mut i: usize = n;
    while i < ws.len()
        invariant
            n <= i <= ws.len(),
            r@.map_values(|w: Vec<char>| w@) == ws@.map_values(|w: Vec<char>| w@).subrange(
                n as int,
                i as int,
            ),
        decreases ws.len() - i,
    {
        let ghost old_r = r@;
        let w = slice_of(ws[i].as_slice(), 0, ws[i].len());
        assert(w@ =~= ws@[i as int]@);
        let ghost wv = w@;
        r.push(w);
        assert(r@.map_values(|w: Vec<char>| w@) =~= old_r.map_values(|w: Vec<char>| w@).push(wv));
        assert(r@.map_values(|w: Vec<char>| w@) =~= ws@.map_values(|w: Vec<char>| w@).subrange(
            n as int,
            i + 1,
        ));
        i = i + 1;
    }
    assert(ws@.map_values(|w: Vec<char>| w@).subrange(n as int, ws.len() as int) =~= ws@.map_values(
        |w: Vec<char>| w@,
    ).skip(n as int));
    r
}

pub fn error_document_404_chars(line: &[char]) -> (r: Option<Vec<char>>)
    ensures
        opt_chars_view(r) == error_document_404(line@),
{
    let ws = words_of(line);
    let ghost wv = ws@.map_values(|w: Vec<char>| w@);
    if ws.len() < 2 {
        return None;
    }
    assert(wv[0] == ws@[0]@ && wv[1] == ws@[1]@);
    let d = lower_chars(ws[0].as_slice());
    let e = lower_chars(chars_of("errordocument").as_slice());
    if !eq_chars(d.as_slice(), e.as_slice()) || !eq_chars(ws[1].as_slice(), chars_of("404").as_slice()) {
        return None;
    }
    let rest = skip_words(&ws, 2);
    let t0 = join_chars(&rest, chars_of(" ").as_slice());
    let sp = chars_of("/ ");
    let t1 = if starts_with_chars(t0.as_slice(), sp.as_slice()) {
        let stripped = strip_prefixes_chars(t0.as_slice(), sp.as_slice());
        let k = trim_start_index(stripped.as_slice());
        let tail = slice_of(stripped.as_slice(), k, stripped.len());
        concat_chars(chars_of("/").as_slice(), tail.as_slice())
    } else {
        t0
    };
    let q = quote_chars();
    let t = trim_set_chars(t1.as_slice(), q.as_slice());
    let t2 = trim_chars(t.as_slice());
    if t2.len() == 0 || starts_with_chars(t2.as_slice(), chars_of("http://").as_slice())
        || starts_with_chars(t2.as_slice(), chars_of("https://").as_slice()) {
        None
    } else {
        Some(t2)
    }
}

/// Parses an `ErrorDocument` line and returns its local 404 target.
pub fn parse_error_document_404(line: &str) -> (r: Option<String>)
    ensures
        opt_view(r) == error_document_404(line@),
{
    let v = chars_of(line);
    match error_document_404_chars(v.as_slice()) {
        Some(t) => Some(string_from_chars(t.as_slice())),
        None => None,
    }
}


/// The `.php` entries of a list of `DirectoryIndex` words, unquoted and with `/` separators.
pub open spec fn php_indexes_from(ws: Seq<Seq<char>>) -> Seq<Seq<char>>
    decreases ws.len(),
{
    if ws.len() == 0 {
        Seq::empty()
    } else {
        let v = replace_char(trim_set(ws.last(), quotes()), '\\', '/');
        let rest = php_indexes_from(ws.drop_last());
        if ends_with(lower(v), ".php"@) {
            rest.push(v)
        } else {
            rest
        }
    }
}

/// The `.php` index files named by a `DirectoryIndex` line.
pub open spec fn php_directory_indexes(line: Seq<char>) -> Seq<Seq<char>> {
    let ws = words(line);
    if ws.len() == 0 {
        Seq::empty()
    } else {
        php_indexes_from(ws.skip(1))
    }
}

pub fn php_directory_indexes_chars(line: &[char]) -> (r: Vec<Vec<char>>)
    ensures
        r@.map_values(|w: Vec<char>| w@) == php_directory_indexes(line@),
{
    let ws = words_of(line);
    let mut r: Vec<Vec<char>> = Vec::new();
    if ws.len() == 0 {
        assert(r@.map_values(|w: Vec<char>| w@) =~= Seq::<Seq<char>>::empty());
        return r;
    }
    let tail = skip_words(&ws, 1);
    let ghost tv = tail@.map_values(|w: Vec<char>| w@);
    let q = quote_chars();
    let php = chars_of(".php");
    let mut i: usize = 0;
    assert(r@.map_values(|w: Vec<char>| w@) =~= php_indexes_from(tv.take(0)));
    while i < tail.len()
        invariant
            i <= tail.len(),
            tv == tail@.map_values(|w: Vec<char>| w@),
            q@ == quotes(),
            php@ == ".php"@,
            r@.map_values(|w: Vec<char>| w@) == php_indexes_from(tv.take(i as int)),
        decreases tail.len() - i,
    {
        let t = trim_set_chars(tail[i].as_slice(), q.as_slice());
        let v = replace_char_chars(t.as_slice(), '\\', '/');
        let lv = lower_chars(v.as_slice());
        assert(tv.take(i + 1).drop_last() =~= tv.take(i as int));
        assert(tv.take(i + 1).last() == tail@[i as int]@);
        if ends_with_chars(lv.as_slice(), php.as_slice()) {
            let ghost old_r = r@;
            let ghost vv = v@;
            r.push(v);
            assert(r@.map_values(|w: Vec<char>| w@) =~= old_r.map_values(|w: Vec<char>| w@).push(vv));
        }
        i = i + 1;
    }
    assert(tv.take(tail.len() as int) =~= tv);
    r
}

/// Converts owned character vectors into strings.
pub fn strings_from(v: Vec<Vec<char>>) -> (r: Vec<String>)
    ensures
        strings_view(r@) == v@.map_values(|w: Vec<char>| w@),
{
    let mut r: Vec<String> = Vec::new();
    let mut i: usize = 0;
    while i < v.len()
        invariant
            i <= v.len(),
            strings_view(r@) == v@.map_values(|w: Vec<char>| w@).take(i as int),
        decreases v.len() - i,
    {
        let ghost old_r = r@;
        let s = string_from_chars(v[i].as_slice());
        r.push(s);
        assert(strings_view(r@) =~= strings_view(old_r).push(v@[i as int]@));
        assert(v@.map_values(|w: Vec<char>| w@).take(i + 1) =~= v@.map_values(|w: Vec<char>| w@).take(
            i as int,
        ).push(v@[i as int]@));
        i = i + 1;
    }
    assert(v@.map_values(|w: Vec<char>| w@).take(v.len() as int) =~= v@.map_values(|w: Vec<char>| w@));
    r
}

/// Extracts the PHP scripts named by a `DirectoryIndex` directive.
pub fn parse_php_directory_indexes(line: &str) -> (r: Vec<String>)
    ensures
        strings_view(r@) == php_directory_indexes(line@),
{
    let v = chars_of(line);
    strings_from(php_directory_indexes_chars(v.as_slice()))
}

/// A single `/`.
pub open spec fn slash() -> Seq<char> {
    seq!['/']
}

pub fn slash_chars() -> (v: Vec<char>)
    ensures
        v@ == slash(),
{
    let mut v: Vec<char> = Vec::new();
    v.push('/');
    assert(v@ =~= slash());
    v
}

/// `value` without trailing slashes.
pub fn trim_slash(value: &str) -> (r: String)
    ensures
        r@ == trim_end_set(value@, slash()),
{
    let v = chars_of(value);
    let r = trim_end_set_chars(v.as_slice(), slash_chars().as_slice());
    string_from_chars(r.as_slice())
}

/// Joins a URL path prefix and a relative suffix with exactly one `/` between them.
pub open spec fn join_url(prefix: Seq<char>, suffix: Seq<char>) -> Seq<char> {
    let s = trim_start_set(suffix, slash());
    if prefix == slash() {
        slash() + s
    } else if s.len() == 0 {
        prefix
    } else {
        trim_end_set(prefix, slash()) + slash() + s
    }
}

pub fn join_url_chars(prefix: &[char], suffix: &[char]) -> (r: Vec<char>)
    ensures
        r@ == join_url(prefix@, suffix@),
{
    let sl = slash_chars();
    let s = trim_start_set_chars(suffix, sl.as_slice());
    if eq_chars(prefix, sl.as_slice()) {
        concat_chars(sl.as_slice(), s.as_slice())
    } else if s.len() == 0 {
        slice_of(prefix, 0, prefix.len())
    } else {
        let p = trim_end_set_chars(prefix, sl.as_slice());
        let ps = concat_chars(p.as_slice(), sl.as_slice());
        let r = concat_chars(ps.as_slice(), s.as_slice());
        r
    }
}

/// Joins two URL path pieces (`join_url`).
pub fn join_url_path(prefix: &str, suffix: &str) -> (r: String)
    ensures
        r@ == join_url(prefix@, suffix@),
{
    let p = chars_of(prefix);
    let s = chars_of(suffix);
    let r = join_url_chars(p.as_slice(), s.as_slice());
    string_from_chars(r.as_slice())
}

/// Where a path written in a `.htaccess` file points, as a URL path of the
/// projects tree.
pub open spec fn resolve_target(target: Seq<char>, request_prefix: Seq<char>, project_prefix: Seq<char>) -> Seq<char> {
    let n = replace_char(target, '\\', '/');
    if starts_with(n, slash()) {
        let tp = trim_end_set(project_prefix, slash());
        if project_prefix == slash() || n == tp || starts_with(n, tp + slash()) {
            n
        } else {
            join_url(project_prefix, trim_start_set(n, slash()))
        }
    } else {
        join_url(request_prefix, n)
    }
}

pub fn resolve_target_chars(target: &[char], request_prefix: &[char], project_prefix: &[char]) -> (r: Vec<char>)
    ensures
        r@ == resolve_target(target@, request_prefix@, project_prefix@),
{
    let sl = slash_chars();
    let n = replace_char_chars(target, '\\', '/');
    if starts_with_chars(n.as_slice(), sl.as_slice()) {
        let tp = trim_end_set_chars(project_prefix, sl.as_slice());
        let tps = concat_chars(tp.as_slice(), sl.as_slice());
        if eq_chars(project_prefix, sl.as_slice()) || eq_chars(n.as_slice(), tp.as_slice())
            || starts_with_chars(n.as_slice(), tps.as_slice()) {
            n
        } else {
            let rel = trim_start_set_chars(n.as_slice(), sl.as_slice());
            join_url_chars(project_prefix, rel.as_slice())
        }
    } else {
        join_url_chars(request_prefix, n.as_slice())
    }
}

/// Resolves a `.htaccess` target against the directory's request and project prefixes.
pub fn resolve_htaccess_target(target: &str, request_prefix: &str, project_prefix: &str) -> (r: String)
    ensures
        r@ == resolve_target(target@, request_prefix@, project_prefix@),
{
    let t = chars_of(target);
    let rp = chars_of(request_prefix);
    let pp = chars_of(project_prefix);
    let r = resolve_target_chars(t.as_slice(), rp.as_slice(), pp.as_slice());
    string_from_chars(r.as_slice())
}


/// A rule that asks nothing yet.
pub open spec fn empty_rule(request_prefix: Seq<char>, project_prefix: Seq<char>) -> RuleView {
    RuleView {
        request_prefix,
        project_prefix,
        extensionless_php: false,
        front_controller: None,
        error_404: None,
        directory_indexes: Seq::empty(),
        deny_all: false,
        disable_indexes: false,
    }
}

/// What one line of a `.htaccess` file adds to a rule.
pub open spec fn apply_line(r: RuleView, raw: Seq<char>) -> RuleView {
    let line = strip_comment(raw);
    let lw = lower(line);
    if line.len() == 0 {
        r
    } else if contains(lw, "deny from all"@) || contains(lw, "require all denied"@) {
        RuleView { deny_all: true, ..r }
    } else if starts_with(lw, "options"@) && contains(lw, "-indexes"@) {
        RuleView { disable_indexes: true, ..r }
    } else if starts_with(lw, "errordocument"@) {
        match error_document_404(line) {
            Some(t) => RuleView {
                error_404: Some(resolve_target(t, r.request_prefix, r.project_prefix)),
                ..r
            },
            None => r,
        }
    } else if starts_with(lw, "directoryindex"@) {
        RuleView { directory_indexes: r.directory_indexes + php_directory_indexes(line), ..r }
    } else if starts_with(lw, "rewriterule"@) {
        match rewrite_replacement(line) {
            Some(rep) => if front_controller_spec(lower(rep)) {
                RuleView {
                    front_controller: Some(resolve_target(rep, r.request_prefix, r.project_prefix)),
                    ..r
                }
            } else if extensionless_php_spec(lower(rep)) {
                RuleView { extensionless_php: true, ..r }
            } else {
                r
            },
            None => r,
        }
    } else {
        r
    }
}

/// The rule after reading `ls` in order.
pub open spec fn apply_lines(r: RuleView, ls: Seq<Seq<char>>) -> RuleView
    decreases ls.len(),
{
    if ls.len() == 0 {
        r
    } else {
        apply_lines(apply_line(r, ls[0]), ls.drop_first())
    }
}

/// Reading more lines never takes back a denial of all access.
proof fn lemma_apply_lines_keeps_deny(r: RuleView, ls: Seq<Seq<char>>)
    requires
        r.deny_all,
    ensures
        apply_lines(r, ls).deny_all,
    decreases ls.len(),
{
    if ls.len() > 0 {
        lemma_apply_lines_keeps_deny(apply_line(r, ls[0]), ls.drop_first());
    }
}

/// A `Deny from all` or `Require all denied` line (in any letter case, outside
/// a comment) makes the rule deny all access, whatever the other lines say.
pub proof fn lemma_deny_line_denies_all(r: RuleView, ls: Seq<Seq<char>>, j: int)
    requires
        0 <= j < ls.len(),
        contains(lower(strip_comment(ls[j])), "deny from all"@) || contains(
            lower(strip_comment(ls[j])),
            "require all denied"@,
        ),
    ensures
        apply_lines(r, ls).deny_all,
    decreases ls.len(),
{
    if j == 0 {
        let line = strip_comment(ls[0]);
        let lw = lower(line);
        if contains(lw, "deny from all"@) {
            reveal_strlit("deny from all");
            assert(lw.len() > 0);
        } else {
            reveal_strlit("require all denied");
            assert(lw.len() > 0);
        }
        assert(line.len() > 0);
        assert(apply_line(r, ls[0]).deny_all);
        lemma_apply_lines_keeps_deny(apply_line(r, ls[0]), ls.drop_first());
    } else {
        assert(ls.drop_first()[j - 1] == ls[j]);
        lemma_deny_line_denies_all(apply_line(r, ls[0]), ls.drop_first(), j - 1);
    }
}

/// The rule asks the web server for something.
pub open spec fn has_directives(r: RuleView) -> bool {
    r.extensionless_php || r.front_controller is Some || r.error_404 is Some
        || r.directory_indexes.len() > 0 || r.deny_all || r.disable_indexes
}

/// The rule that a `.htaccess` file with this content yields in the directory with
/// these prefixes, if it holds any directive that CHAMP understands.
pub open spec fn parse_htaccess(request_prefix: Seq<char>, project_prefix: Seq<char>, content: Seq<char>) -> Option<RuleView> {
    let r = apply_lines(empty_rule(request_prefix, project_prefix), lines(content));
    if has_directives(r) {
        Some(r)
    } else {
        None
    }
}

pub fn apply_htaccess_line(rule: &mut HtaccessCompatibilityRule, raw: &[char])
    ensures
        final(rule)@ == apply_line(old(rule)@, raw@),
{
    let line = strip_comment_chars(raw);
    let lw = lower_chars(line.as_slice());
    if line.len() == 0 {
        return ;
    }
    let lw = lw.as_slice();
    if contains_chars(lw, chars_of("deny from all").as_slice()) || contains_chars(
        lw,
        chars_of("require all denied").as_slice(),
    ) {
        rule.deny_all = true;
        return ;
    }
    if starts_with_chars(lw, chars_of("options").as_slice()) && contains_chars(
        lw,
        chars_of("-indexes").as_slice(),
    ) {
        rule.disable_indexes = true;
        return ;
    }
    if starts_with_chars(lw, chars_of("errordocument").as_slice()) {
        match error_document_404_chars(line.as_slice()) {
            Some(t) => {
                let rp = chars_of(rule.request_prefix.as_str());
                let pp = chars_of(rule.project_prefix.as_str());
                let resolved = resolve_target_chars(t.as_slice(), rp.as_slice(), pp.as_slice());
                rule.error_404 = Some(string_from_chars(resolved.as_slice()));
            },
            None => {},
        }
        return ;
    }
    if starts_with_chars(lw, chars_of("directoryindex").as_slice()) {
        let found = php_directory_indexes_chars(line.as_slice());
        let extra = strings_from(found);
        let mut i: usize = 0;
        let ghost before = strings_view(rule.directory_indexes@);
        while i < extra.len()
            invariant
                i <= extra.len(),
                rule.request_prefix == old(rule).request_prefix,
                rule.project_prefix == old(rule).project_prefix,
                rule.extensionless_php == old(rule).extensionless_php,
                rule.front_controller == old(rule).front_controller,
                rule.error_404 == old(rule).error_404,
                rule.deny_all == old(rule).deny_all,
                rule.disable_indexes == old(rule).disable_indexes,
                before == strings_view(old(rule).directory_indexes@),
                strings_view(rule.directory_indexes@) == before + strings_view(extra@).take(i as int),
            decreases extra.len() - i,
        {
            let ghost prev = rule.directory_indexes@;
            rule.directory_indexes.push(extra[i].clone());
            assert(strings_view(rule.directory_indexes@) =~= strings_view(prev).push(extra@[i as int]@));
            assert(strings_view(extra@).take(i + 1) =~= strings_view(extra@).take(i as int).push(
                extra@[i as int]@,
            ));
            i = i + 1;
        }
        assert(strings_view(extra@).take(extra.len() as int) =~= strings_view(extra@));
        return ;
    }
    if starts_with_chars(lw, chars_of("rewriterule").as_slice()) {
        match rewrite_replacement_chars(line.as_slice()) {
            Some(rep) => {
                let rl = lower_chars(rep.as_slice());
                let rls = string_from_chars(rl.as_slice());
                if is_front_controller_rewrite(rls.as_str()) {
                    let rp = chars_of(rule.request_prefix.as_str());
                    let pp = chars_of(rule.project_prefix.as_str());
                    let resolved = resolve_target_chars(rep.as_slice(), rp.as_slice(), pp.as_slice());
                    rule.front_controller = Some(string_from_chars(resolved.as_slice()));
                } else if is_extensionless_php_rewrite(rls.as_str()) {
                    rule.extensionless_php = true;
                }
            },
            None => {},
        }
    }
}

/// The rule that a `.htaccess` file yields, given the request and project
/// prefixes of its directory and its content; `None` when it holds no directive
/// that CHAMP understands.
pub fn parse_htaccess_content(request_prefix: String, project_prefix: String, content: &str) -> (r: Option<HtaccessCompatibilityRule>)
    ensures
        r matches Some(rule) ==> parse_htaccess(request_prefix@, project_prefix@, content@) == Some(rule@),
        r is None ==> parse_htaccess(request_prefix@, project_prefix@, content@) is None,
{
    let ghost req = request_prefix@;
    let ghost proj = project_prefix@;
    let mut rule = HtaccessCompatibilityRule {
        request_prefix,
        project_prefix,
        extensionless_php: false,
        front_controller: None,
        error_404: None,
        directory_indexes: Vec::new(),
        deny_all: false,
        disable_indexes: false,
    };
    assert(strings_view(rule.directory_indexes@) =~= Seq::<Seq<char>>::empty());
    assert(rule@ =~= empty_rule(req, proj));
    let c = chars_of(content);
    let ls = lines_of(c.as_slice());
    let ghost lv = ls@.map_values(|w: Vec<char>| w@);
    let mut i: usize = 0;
    assert(lv.skip(0) =~= lv);
    while i < ls.len()
        invariant
            i <= ls.len(),
            lv == ls@.map_values(|w: Vec<char>| w@),
            lv == lines(content@),
            apply_lines(empty_rule(req, proj), lv) == apply_lines(rule@, lv.skip(i as int)),
        decreases ls.len() - i,
    {
        let ghost before = rule@;
        apply_htaccess_line(&mut rule, ls[i].as_slice());
        assert(lv.skip(i as int)[0] == ls@[i as int]@);
        assert(lv.skip(i as int).drop_first() =~= lv.skip(i + 1));
        i = i + 1;
    }
    if rule.extensionless_php || rule.front_controller.is_some() || rule.error_404.is_some()
        || rule.directory_indexes.len() > 0 || rule.deny_all || rule.disable_indexes {
        Some(rule)
    } else {
        None
    }
}


/// The characters that a double-quoted Caddyfile token writes for `c`.
pub open spec fn escape_char(c: char) -> Seq<char> {
    if c == '\\' {
        seq!['\\', '\\']
    } else if c == '"' {
        seq!['\\', '"']
    } else {
        seq![c]
    }
}

/// `s` with `\` and `"` escaped by a backslash.
pub open spec fn escape_quoted(s: Seq<char>) -> Seq<char>
    decreases s.len(),
{
    if s.len() == 0 {
        Seq::empty()
    } else {
        escape_quoted(s.drop_last()) + escape_char(s.last())
    }
}

/// `s` holds a whitespace character.
pub open spec fn has_ws(s: Seq<char>) -> bool {
    exists|i: int| 0 <= i < s.len() && is_ws(#[trigger] s[i])
}

/// A Caddyfile token for `v`: `v` itself, or `v` quoted when it holds whitespace.
pub open spec fn token(v: Seq<char>) -> Seq<char> {
    if has_ws(v) {
        seq!['"'] + escape_quoted(v) + seq!['"']
    } else {
        v
    }
}

pub fn token_chars(v: &[char]) -> (r: Vec<char>)
    ensures
        r@ == token(v@),
{
    let mut i: usize = 0;
    let mut found = false;
    while i < v.len()
        invariant
            i <= v.len(),
            found == exists|k: int| 0 <= k < i && is_ws(#[trigger] v@[k]),
        decreases v.len() - i,
    {
        if is_whitespace(v[i]) {
            found = true;
        }
        i = i + 1;
    }
    if !found {
        return slice_of(v, 0, v.len());
    }
    let mut r: Vec<char> = Vec::new();
    r.push('"');
    let mut j: usize = 0;
    while j < v.len()
        invariant
            j <= v.len(),
            r@ == seq!['"'] + escape_quoted(v@.take(j as int)),
        decreases v.len() - j,
    {
        let c = v[j];
        if c == '\\' {
            r.push('\\');
            r.push('\\');
        } else if c == '"' {
            r.push('\\');
            r.push('"');
        } else {
            r.push(c);
        }
        assert(v@.take(j + 1).drop_last() =~= v@.take(j as int));
        assert(r@ =~= seq!['"'] + escape_quoted(v@.take(j + 1)));
        j = j + 1;
    }
    r.push('"');
    assert(v@.take(v.len() as int) =~= v@);
    assert(r@ =~= seq!['"'] + escape_quoted(v@) + seq!['"']);
    r
}

/// Writes `value` as a Caddyfile token, quoting it when it holds whitespace.
pub fn caddy_token(value: &str) -> (r: String)
    ensures
        r@ == token(value@),
{
    let v = chars_of(value);
    let r = token_chars(v.as_slice());
    string_from_chars(r.as_slice())
}

/// `s` with every run of characters other than ASCII letters and digits
/// replaced by one `_`.
pub open spec fn sanitize(s: Seq<char>) -> Seq<char>
    decreases s.len(),
{
    if s.len() == 0 {
        Seq::empty()
    } else {
        let t = sanitize(s.drop_last());
        let c = s.last();
        if is_ascii_alnum_spec(c) {
            t.push(c)
        } else if t.len() > 0 && t.last() == '_' {
            t
        } else {
            t.push('_')
        }
    }
}

/// The name of the Caddyfile matcher for a rule.
pub open spec fn matcher_name(prefix: Seq<char>, index: nat, suffix: Seq<char>) -> Seq<char> {
    let s = trim_set(sanitize(prefix), seq!['_']);
    if s.len() == 0 {
        "htaccess"@ + suffix + "_"@ + decimal(index)
    } else {
        "htaccess"@ + suffix + "_"@ + decimal(index) + "_"@ + s
    }
}

pub fn matcher_name_chars(prefix: &[char], index: usize, suffix: &[char]) -> (r: Vec<char>)
    ensures
        r@ == matcher_name(prefix@, index as nat, suffix@),
{
    let mut t: Vec<char> = Vec::new();
    let mut i: usize = 0;
    while i < prefix.len()
        invariant
            i <= prefix.len(),
            t@ == sanitize(prefix@.take(i as int)),
        decreases prefix.len() - i,
    {
        let c = prefix[i];
        if is_ascii_alphanumeric(c) {
            t.push(c);
        } else if !(t.len() > 0 && t[t.len() - 1] == '_') {
            t.push('_');
        }
        assert(prefix@.take(i + 1).drop_last() =~= prefix@.take(i as int));
        i = i + 1;
    }
    assert(prefix@.take(prefix.len() as int) =~= prefix@);
    let mut us: Vec<char> = Vec::new();
    us.push('_');
    assert(us@ =~= seq!['_']);
    let s = trim_set_chars(t.as_slice(), us.as_slice());
    let mut r = chars_of("htaccess");
    r.extend_from_slice(suffix);
    r.extend_from_slice(chars_of("_").as_slice());
    push_decimal(&mut r, index as u64);
    if s.len() > 0 {
        r.extend_from_slice(chars_of("_").as_slice());
        r.extend_from_slice(s.as_slice());
    }
    assert(r@ =~= matcher_name(prefix@, index as nat, suffix@));
    r
}

/// Names the Caddyfile matcher for the rule at `index` with the given kind suffix.
pub fn caddy_matcher_name(prefix: &str, index: usize, suffix: &str) -> (r: String)
    ensures
        r@ == matcher_name(prefix@, index as nat, suffix@),
{
    let p = chars_of(prefix);
    let sfx = chars_of(suffix);
    let r = matcher_name_chars(p.as_slice(), index, sfx.as_slice());
    string_from_chars(r.as_slice())
}

/// The `path` line that limits a matcher to a request prefix; none for `/`.
pub open spec fn path_matcher_line(prefix: Seq<char>) -> Option<Seq<char>> {
    if prefix == slash() {
        None
    } else {
        Some(
            "        path "@ + token(prefix) + " "@ + token(trim_end_set(prefix, slash()) + "/*"@)
                + "\n"@,
        )
    }
}

pub fn path_matcher_line_chars(prefix: &[char]) -> (r: Option<Vec<char>>)
    ensures
        opt_chars_view(r) == path_matcher_line(prefix@),
{
    let sl = slash_chars();
    if eq_chars(prefix, sl.as_slice()) {
        return None;
    }
    let mut r = chars_of("        path ");
    r.extend_from_slice(token_chars(prefix).as_slice());
    r.extend_from_slice(chars_of(" ").as_slice());
    let base = trim_end_set_chars(prefix, sl.as_slice());
    let star = concat_chars(base.as_slice(), chars_of("/*").as_slice());
    r.extend_from_slice(token_chars(star.as_slice()).as_slice());
    r.extend_from_slice(chars_of("\n").as_slice());
    assert(r@ =~= path_matcher_line(prefix@).unwrap());
    Some(r)
}

/// Writes the `path` matcher line for a request prefix.
pub fn caddy_path_matcher_line(prefix: &str) -> (r: Option<String>)
    ensures
        opt_view(r) == path_matcher_line(prefix@),
{
    let p = chars_of(prefix);
    match path_matcher_line_chars(p.as_slice()) {
        Some(l) => Some(string_from_chars(l.as_slice())),
        None => None,
    }
}


/// A `php_fastcgi` line with the given indentation.
pub open spec fn fastcgi_line(indent: Seq<char>, php_port: u16) -> Seq<char> {
    indent + "php_fastcgi 127.0.0.1:"@ + decimal(php_port as nat) + "\n"@
}

pub fn fastcgi_line_chars(indent: &str, php_port: u16) -> (r: Vec<char>)
    ensures
        r@ == fastcgi_line(indent@, php_port),
{
    let mut r = chars_of(indent);
    r.extend_from_slice(chars_of("php_fastcgi 127.0.0.1:").as_slice());
    push_decimal(&mut r, php_port as u64);
    r.extend_from_slice(chars_of("\n").as_slice());
    assert(r@ =~= fastcgi_line(indent@, php_port));
    r
}

/// The text of an optional line; nothing when it is absent.
pub open spec fn opt_text(o: Option<Seq<char>>) -> Seq<char> {
    match o {
        Some(t) => t,
        None => Seq::empty(),
    }
}

pub fn opt_text_chars(o: Option<Vec<char>>) -> (r: Vec<char>)
    ensures
        r@ == opt_text(opt_chars_view(o)),
{
    match o {
        Some(t) => t,
        None => Vec::new(),
    }
}

/// The block that answers 403 under a directory that denies all access.
pub open spec fn deny_block(r: RuleView, i: nat) -> Seq<char> {
    if r.deny_all {
        let m = matcher_name(r.request_prefix, i, "Deny"@);
        "    @"@ + m + " {\n"@ + opt_text(path_matcher_line(r.request_prefix)) + "    }\n"@
            + "    respond @"@ + m + " 403\n"@ + "\n"@
    } else {
        Seq::empty()
    }
}

/// The block that serves `name.php` for an extensionless request.
pub open spec fn ext_php_block(r: RuleView, i: nat, php_port: u16) -> Seq<char> {
    if r.extensionless_php {
        let m = matcher_name(r.request_prefix, i, "ExtPhp"@);
        "    @"@ + m + " {\n"@ + opt_text(path_matcher_line(r.request_prefix))
            + "        not path */ *.php\n"@ + "        file {\n"@
            + "            try_files {path}.php\n"@ + "        }\n"@ + "    }\n"@ + "    handle @"@ + m
            + " {\n"@ + "        rewrite * {file_match.relative}\n"@ + fastcgi_line("        "@, php_port)
            + "    }\n"@ + "\n"@
    } else {
        Seq::empty()
    }
}

/// The `try_files` candidates for a list of directory index files.
pub open spec fn index_candidates(files: Seq<Seq<char>>) -> Seq<char>
    decreases files.len(),
{
    if files.len() == 0 {
        Seq::empty()
    } else {
        index_candidates(files.drop_last()) + " {path}/"@ + files.last() + " {path}"@ + files.last()
    }
}

/// The `path` line of an index or no-browse matcher.
pub open spec fn index_path_line(prefix: Seq<char>) -> Seq<char> {
    if prefix == slash() {
        "        path */\n"@
    } else {
        let p = trim_end_set(prefix, slash());
        "        path "@ + token(p + "/"@) + " "@ + token(p + "/*/"@) + "\n"@
    }
}

/// The block that serves PHP directory indexes named by `DirectoryIndex`.
pub open spec fn index_block(r: RuleView, i: nat, php_port: u16) -> Seq<char> {
    if r.directory_indexes.len() > 0 {
        let m = matcher_name(r.request_prefix, i, "Index"@);
        "    @"@ + m + " {\n"@ + index_path_line(r.request_prefix) + "        file {\n"@
            + "            try_files"@ + index_candidates(r.directory_indexes) + "\n"@
            + "        }\n"@ + "    }\n"@ + "    handle @"@ + m + " {\n"@
            + "        rewrite * {file_match.relative}\n"@ + fastcgi_line("        "@, php_port)
            + "    }\n"@ + "\n"@
    } else {
        Seq::empty()
    }
}

/// The block that routes unknown paths to the front controller.
pub open spec fn front_block(r: RuleView, i: nat, php_port: u16) -> Seq<char> {
    match r.front_controller {
        Some(f) => {
            let m = matcher_name(r.request_prefix, i, "Front"@);
            "    @"@ + m + " {\n"@ + opt_text(path_matcher_line(r.request_prefix))
                + "        not path */ *.php\n"@ + "        not file {\n"@
                + "            try_files {path} {path}/\n"@ + "        }\n"@ + "    }\n"@
                + "    handle @"@ + m + " {\n"@ + "        rewrite * "@ + token(f) + "\n"@
                + fastcgi_line("        "@, php_port) + "    }\n"@ + "\n"@
        },
        None => Seq::empty(),
    }
}

/// The route blocks of one rule.
pub open spec fn rule_routes(r: RuleView, i: nat, php_port: u16) -> Seq<char> {
    deny_block(r, i) + ext_php_block(r, i, php_port) + index_block(r, i, php_port) + front_block(
        r,
        i,
        php_port,
    )
}

/// The route blocks of the first `n` rules.
pub open spec fn routes_upto(rules: Seq<RuleView>, n: nat, php_port: u16) -> Seq<char>
    decreases n,
{
    if n == 0 {
        Seq::empty()
    } else {
        routes_upto(rules, (n - 1) as nat, php_port) + rule_routes(rules[n - 1], (n - 1) as nat, php_port)
    }
}

/// All route blocks, under a heading; nothing when there are no rules.
pub open spec fn route_rules_text(rules: Seq<RuleView>, php_port: u16) -> Seq<char> {
    if rules.len() == 0 {
        Seq::empty()
    } else {
        "    # Apache .htaccess compatibility: project-specific rewrites\n"@ + routes_upto(
            rules,
            rules.len(),
            php_port,
        )
    }
}

pub open spec fn rules_view(rules: Seq<HtaccessCompatibilityRule>) -> Seq<RuleView> {
    rules.map_values(|r: HtaccessCompatibilityRule| r@)
}

fn matcher_open(m: &[char]) -> (r: Vec<char>)
    ensures
        r@ == "    @"@ + m@ + " {\n"@,
{
    let mut r = chars_of("    @");
    r.extend_from_slice(m);
    r.extend_from_slice(chars_of(" {\n").as_slice());
    assert(r@ =~= "    @"@ + m@ + " {\n"@);
    r
}

fn handle_open(m: &[char]) -> (r: Vec<char>)
    ensures
        r@ == "    handle @"@ + m@ + " {\n"@,
{
    let mut r = chars_of("    handle @");
    r.extend_from_slice(m);
    r.extend_from_slice(chars_of(" {\n").as_slice());
    assert(r@ =~= "    handle @"@ + m@ + " {\n"@);
    r
}

fn deny_block_chars(rule: &HtaccessCompatibilityRule, i: usize) -> (r: Vec<char>)
    ensures
        r@ == deny_block(rule@, i as nat),
{
    if !rule.deny_all {
        return Vec::new();
    }
    let prefix = chars_of(rule.request_prefix.as_str());
    let m = matcher_name_chars(prefix.as_slice(), i, chars_of("Deny").as_slice());
    let mut r = matcher_open(m.as_slice());
    let pl = opt_text_chars(path_matcher_line_chars(prefix.as_slice()));
    r.extend_from_slice(pl.as_slice());
    r.extend_from_slice(chars_of("    }\n").as_slice());
    r.extend_from_slice(chars_of("    respond @").as_slice());
    r.extend_from_slice(m.as_slice());
    r.extend_from_slice(chars_of(" 403\n").as_slice());
    r.extend_from_slice(chars_of("\n").as_slice());
    assert(r@ =~= deny_block(rule@, i as nat));
    r
}

fn ext_php_block_chars(rule: &HtaccessCompatibilityRule, i: usize, php_port: u16) -> (r: Vec<char>)
    ensures
        r@ == ext_php_block(rule@, i as nat, php_port),
{
    if !rule.extensionless_php {
        return Vec::new();
    }
    let prefix = chars_of(rule.request_prefix.as_str());
    let m = matcher_name_chars(prefix.as_slice(), i, chars_of("ExtPhp").as_slice());
    let mut r = matcher_open(m.as_slice());
    let pl = opt_text_chars(path_matcher_line_chars(prefix.as_slice()));
    r.extend_from_slice(pl.as_slice());
    r.extend_from_slice(chars_of("        not path */ *.php\n").as_slice());
    r.extend_from_slice(chars_of("        file {\n").as_slice());
    r.extend_from_slice(chars_of("            try_files {path}.php\n").as_slice());
    r.extend_from_slice(chars_of("        }\n").as_slice());
    r.extend_from_slice(chars_of("    }\n").as_slice());
    r.extend_from_slice(handle_open(m.as_slice()).as_slice());
    r.extend_from_slice(chars_of("        rewrite * {file_match.relative}\n").as_slice());
    r.extend_from_slice(fastcgi_line_chars("        ", php_port).as_slice());
    r.extend_from_slice(chars_of("    }\n").as_slice());
    r.extend_from_slice(chars_of("\n").as_slice());
    assert(r@ =~= ext_php_block(rule@, i as nat, php_port));
    r
}

fn index_path_line_chars(prefix: &[char]) -> (r: Vec<char>)
    ensures
        r@ == index_path_line(prefix@),
{
    let sl = slash_chars();
    if eq_chars(prefix, sl.as_slice()) {
        return chars_of("        path */\n");
    }
    let p = trim_end_set_chars(prefix, sl.as_slice());
    let a = concat_chars(p.as_slice(), chars_of("/").as_slice());
    let b = concat_chars(p.as_slice(), chars_of("/*/").as_slice());
    let mut r = chars_of("        path ");
    r.extend_from_slice(token_chars(a.as_slice()).as_slice());
    r.extend_from_slice(chars_of(" ").as_slice());
    r.extend_from_slice(token_chars(b.as_slice()).as_slice());
    r.extend_from_slice(chars_of("\n").as_slice());
    assert(r@ =~= index_path_line(prefix@));
    r
}

fn index_candidates_chars(files: &Vec<String>) -> (r: Vec<char>)
    ensures
        r@ == index_candidates(strings_view(files@)),
{
    let ghost fv = strings_view(files@);
    let mut r: Vec<char> = Vec::new();
    let mut i: usize = 0;
    while i < files.len()
        invariant
            i <= files.len(),
            fv == strings_view(files@),
            r@ == index_candidates(fv.take(i as int)),
        decreases files.len() - i,
    {
        let f = chars_of(files[i].as_str());
        let ghost old_r = r@;
        r.extend_from_slice(chars_of(" {path}/").as_slice());
        r.extend_from_slice(f.as_slice());
        r.extend_from_slice(chars_of(" {path}").as_slice());
        r.extend_from_slice(f.as_slice());
        assert(fv.take(i + 1).drop_last() =~= fv.take(i as int));
        assert(fv.take(i + 1).last() == f@);
        assert(r@ =~= old_r + " {path}/"@ + f@ + " {path}"@ + f@);
        i = i + 1;
    }
    assert(fv.take(files.len() as int) =~= fv);
    r
}

fn index_block_chars(rule: &HtaccessCompatibilityRule, i: usize, php_port: u16) -> (r: Vec<char>)
    ensures
        r@ == index_block(rule@, i as nat, php_port),
{
    if rule.directory_indexes.len() == 0 {
        return Vec::new();
    }
    let prefix = chars_of(rule.request_prefix.as_str());
    let m = matcher_name_chars(prefix.as_slice(), i, chars_of("Index").as_slice());
    let mut r = matcher_open(m.as_slice());
    r.extend_from_slice(index_path_line_chars(prefix.as_slice()).as_slice());
    r.extend_from_slice(chars_of("        file {\n").as_slice());
    r.extend_from_slice(chars_of("            try_files").as_slice());
    r.extend_from_slice(index_candidates_chars(&rule.directory_indexes).as_slice());
    r.extend_from_slice(chars_of("\n").as_slice());
    r.extend_from_slice(chars_of("        }\n").as_slice());
    r.extend_from_slice(chars_of("    }\n").as_slice());
    r.extend_from_slice(handle_open(m.as_slice()).as_slice());
    r.extend_from_slice(chars_of("        rewrite * {file_match.relative}\n").as_slice());
    r.extend_from_slice(fastcgi_line_chars("        ", php_port).as_slice());
    r.extend_from_slice(chars_of("    }\n").as_slice());
    r.extend_from_slice(chars_of("\n").as_slice());
    assert(r@ =~= index_block(rule@, i as nat, php_port));
    r
}

fn front_block_chars(rule: &HtaccessCompatibilityRule, i: usize, php_port: u16) -> (r: Vec<char>)
    ensures
        r@ == front_block(rule@, i as nat, php_port),
{
    match &rule.front_controller {
        None => Vec::new(),
        Some(front) => {
            let prefix = chars_of(rule.request_prefix.as_str());
            let f = chars_of(front.as_str());
            let m = matcher_name_chars(prefix.as_slice(), i, chars_of("Front").as_slice());
            let mut r = matcher_open(m.as_slice());
            let pl = opt_text_chars(path_matcher_line_chars(prefix.as_slice()));
            r.extend_from_slice(pl.as_slice());
            r.extend_from_slice(chars_of("        not path */ *.php\n").as_slice());
            r.extend_from_slice(chars_of("        not file {\n").as_slice());
            r.extend_from_slice(chars_of("            try_files {path} {path}/\n").as_slice());
            r.extend_from_slice(chars_of("        }\n").as_slice());
            r.extend_from_slice(chars_of("    }\n").as_slice());
            r.extend_from_slice(handle_open(m.as_slice()).as_slice());
            r.extend_from_slice(chars_of("        rewrite * ").as_slice());
            r.extend_from_slice(token_chars(f.as_slice()).as_slice());
            r.extend_from_slice(chars_of("\n").as_slice());
            r.extend_from_slice(fastcgi_line_chars("        ", php_port).as_slice());
            r.extend_from_slice(chars_of("    }\n").as_slice());
            r.extend_from_slice(chars_of("\n").as_slice());
            assert(r@ =~= front_block(rule@, i as nat, php_port));
            r
        },
    }
}

/// Appends the project-specific rewrite blocks of `rules` to a Caddyfile.
pub fn append_htaccess_route_rules(content: &mut String, rules: &Vec<HtaccessCompatibilityRule>, php_port: u16)
    ensures
        final(content)@ == old(content)@ + route_rules_text(rules_view(rules@), php_port),
{
    let ghost rv = rules_view(rules@);
    if rules.len() == 0 {
        assert(old(content)@ + route_rules_text(rv, php_port) =~= old(content)@);
        return ;
    }
    push_str(content, "    # Apache .htaccess compatibility: project-specific rewrites\n");
    let ghost start = content@;
    let mut i: usize = 0;
    while i < rules.len()
        invariant
            i <= rules.len(),
            rv == rules_view(rules@),
            content@ == start + routes_upto(rv, i as nat, php_port),
        decreases rules.len() - i,
    {
        let rule = &rules[i];
        let mut block = deny_block_chars(rule, i);
        block.extend_from_slice(ext_php_block_chars(rule, i, php_port).as_slice());
        block.extend_from_slice(index_block_chars(rule, i, php_port).as_slice());
        block.extend_from_slice(front_block_chars(rule, i, php_port).as_slice());
        assert(block@ =~= rule_routes(rv[i as int], i as nat, php_port));
        let ghost before = content@;
        push_chars(content, block.as_slice());
        assert(routes_upto(rv, (i + 1) as nat, php_port) == routes_upto(rv, i as nat, php_port)
            + rule_routes(rv[i as int], i as nat, php_port));
        assert(content@ =~= start + routes_upto(rv, (i + 1) as nat, php_port));
        i = i + 1;
    }
    assert(content@ =~= old(content)@ + route_rules_text(rv, php_port));
}


/// The route blocks of the first `m` rules begin those of the first `n`.
proof fn lemma_routes_upto_prefix(rules: Seq<RuleView>, m: nat, n: nat, php_port: u16)
    requires
        m <= n <= rules.len(),
    ensures
        routes_upto(rules, m, php_port).len() <= routes_upto(rules, n, php_port).len(),
        routes_upto(rules, n, php_port).subrange(0, routes_upto(rules, m, php_port).len() as int)
            =~= routes_upto(rules, m, php_port),
    decreases n - m,
{
    if m < n {
        lemma_routes_upto_prefix(rules, m, (n - 1) as nat, php_port);
        let a = routes_upto(rules, (n - 1) as nat, php_port);
        let b = routes_upto(rules, n, php_port);
        let l = routes_upto(rules, m, php_port).len() as int;
        assert(b == a + rule_routes(rules[n - 1], (n - 1) as nat, php_port));
        assert(b.subrange(0, l) =~= a.subrange(0, l));
    }
}

/// The 403 block of a rule that denies all access, without its closing blank
/// line.
spec fn deny_answer(r: RuleView, i: nat) -> Seq<char> {
    let m = matcher_name(r.request_prefix, i, "Deny"@);
    "    @"@ + m + " {\n"@ + opt_text(path_matcher_line(r.request_prefix)) + "    }\n"@ + "    respond @"@ + m
        + " 403\n"@
}

proof fn lemma_rule_routes_open_with_deny(r: RuleView, i: nat, php_port: u16)
    requires
        r.deny_all,
    ensures
        rule_routes(r, i, php_port).len() >= deny_answer(r, i).len(),
        rule_routes(r, i, php_port).subrange(0, deny_answer(r, i).len() as int) =~= deny_answer(r, i),
{
    let rr = rule_routes(r, i, php_port);
    let blk = deny_answer(r, i);
    assert(deny_block(r, i) == blk + "\n"@);
    assert(rr == blk + ("\n"@ + ext_php_block(r, i, php_port) + index_block(r, i, php_port) + front_block(
        r,
        i,
        php_port,
    )));
}

proof fn lemma_occurs_inside(text: Seq<char>, head: Seq<char>, all: Seq<char>, pre: Seq<char>, rr: Seq<char>, blk: Seq<char>)
    requires
        text == head + all,
        pre.len() + rr.len() <= all.len(),
        all.subrange(0, (pre.len() + rr.len()) as int) == pre + rr,
        blk.len() <= rr.len(),
        rr.subrange(0, blk.len() as int) == blk,
    ensures
        crate::text::occurs_at(text, blk, (head.len() + pre.len()) as int),
{
    let i: int = (head.len() + pre.len()) as int;
    let upto = pre + rr;
    assert(upto.subrange(pre.len() as int, (pre.len() + blk.len()) as int) =~= rr.subrange(0, blk.len() as int));
    assert(all.subrange(pre.len() as int, (pre.len() + blk.len()) as int) =~= upto.subrange(
        pre.len() as int,
        (pre.len() + blk.len()) as int,
    ));
    assert(text.subrange(i, i + blk.len()) =~= all.subrange(pre.len() as int, (pre.len() + blk.len()) as int));
}

/// A directory that denies all access is answered 403: for a rule with
/// `deny_all`, the route text holds a matcher named for the rule, limited to
/// the rule's request prefix, followed at once by `respond @<matcher> 403`.
pub proof fn lemma_denied_directory_answers_403(rules: Seq<RuleView>, php_port: u16, k: int)
    requires
        0 <= k < rules.len(),
        rules[k].deny_all,
    ensures
        contains(
            route_rules_text(rules, php_port),
            "    @"@ + matcher_name(rules[k].request_prefix, k as nat, "Deny"@) + " {\n"@ + opt_text(
                path_matcher_line(rules[k].request_prefix),
            ) + "    }\n"@ + "    respond @"@ + matcher_name(rules[k].request_prefix, k as nat, "Deny"@)
                + " 403\n"@,
        ),
{
    let head = "    # Apache .htaccess compatibility: project-specific rewrites\n"@;
    let blk = deny_answer(rules[k], k as nat);
    lemma_routes_upto_prefix(rules, (k + 1) as nat, rules.len(), php_port);
    lemma_rule_routes_open_with_deny(rules[k], k as nat, php_port);
    let pre = routes_upto(rules, k as nat, php_port);
    let rr = rule_routes(rules[k], k as nat, php_port);
    let all = routes_upto(rules, rules.len(), php_port);
    assert(routes_upto(rules, (k + 1) as nat, php_port) == pre + rr);
    let text = route_rules_text(rules, php_port);
    assert(text == head + all);
    lemma_occurs_inside(text, head, all, pre, rr, blk);
}

/// The route blocks of every rule stand in the route text.
pub proof fn lemma_rule_routes_in_text(rules: Seq<RuleView>, php_port: u16, k: int)
    requires
        0 <= k < rules.len(),
    ensures
        contains(route_rules_text(rules, php_port), rule_routes(rules[k], k as nat, php_port)),
{
    let head = "    # Apache .htaccess compatibility: project-specific rewrites\n"@;
    lemma_routes_upto_prefix(rules, (k + 1) as nat, rules.len(), php_port);
    let pre = routes_upto(rules, k as nat, php_port);
    let rr = rule_routes(rules[k], k as nat, php_port);
    let all = routes_upto(rules, rules.len(), php_port);
    assert(routes_upto(rules, (k + 1) as nat, php_port) == pre + rr);
    let text = route_rules_text(rules, php_port);
    assert(text == head + all);
    assert(rr.subrange(0, rr.len() as int) =~= rr);
    lemma_occurs_inside(text, head, all, pre, rr, rr);
}

/// The text that hands a matched request to PHP on a port.
spec fn php_handle(m: Seq<char>, rewrite: Seq<char>, php_port: u16) -> Seq<char> {
    "    handle @"@ + m + " {\n"@ + "        rewrite * "@ + rewrite + "\n"@ + "        php_fastcgi 127.0.0.1:"@
        + decimal(php_port as nat) + "\n"@
}

proof fn lemma_fastcgi_line_text(php_port: u16)
    ensures
        fastcgi_line("        "@, php_port) == "        php_fastcgi 127.0.0.1:"@ + decimal(php_port as nat) + "\n"@,
{
    reveal_strlit("        ");
    reveal_strlit("        php_fastcgi 127.0.0.1:");
    reveal_strlit("php_fastcgi 127.0.0.1:");
    assert(fastcgi_line("        "@, php_port) =~= "        php_fastcgi 127.0.0.1:"@ + decimal(php_port as nat) + "\n"@);
}

proof fn lemma_rewrite_line()
    ensures
        "        rewrite * "@ + "{file_match.relative}"@ + "\n"@ == "        rewrite * {file_match.relative}\n"@,
{
    reveal_strlit("        rewrite * {file_match.relative}\n");
    reveal_strlit("        rewrite * ");
    reveal_strlit("{file_match.relative}");
    reveal_strlit("\n");
    assert("        rewrite * "@ + "{file_match.relative}"@ + "\n"@ =~= "        rewrite * {file_match.relative}\n"@);
}

proof fn lemma_php_handle_relative(m: Seq<char>, php_port: u16)
    ensures
        php_handle(m, "{file_match.relative}"@, php_port) == "    handle @"@ + m + " {\n"@
            + "        rewrite * {file_match.relative}\n"@ + "        php_fastcgi 127.0.0.1:"@ + decimal(
            php_port as nat,
        ) + "\n"@,
{
    lemma_rewrite_line();
    assert(php_handle(m, "{file_match.relative}"@, php_port) =~= "    handle @"@ + m + " {\n"@
        + "        rewrite * {file_match.relative}\n"@ + "        php_fastcgi 127.0.0.1:"@ + decimal(php_port as nat)
        + "\n"@);
}

/// What a rule's block holds, its routes hold.
proof fn lemma_rule_routes_hold_blocks(r: RuleView, i: nat, php_port: u16, p: Seq<char>)
    requires
        contains(deny_block(r, i), p) || contains(ext_php_block(r, i, php_port), p) || contains(
            index_block(r, i, php_port),
            p,
        ) || contains(front_block(r, i, php_port), p),
    ensures
        contains(rule_routes(r, i, php_port), p),
{
    let d = deny_block(r, i);
    let e = ext_php_block(r, i, php_port);
    let x = index_block(r, i, php_port);
    let f = front_block(r, i, php_port);
    let rr = rule_routes(r, i, php_port);
    let z = Seq::<char>::empty();
    if contains(d, p) {
        assert(rr =~= z + d + (e + x + f));
        crate::text::lemma_contains_part(z, d, e + x + f);
        crate::text::lemma_contains_trans(rr, d, p);
    } else if contains(e, p) {
        assert(rr =~= d + e + (x + f));
        crate::text::lemma_contains_part(d, e, x + f);
        crate::text::lemma_contains_trans(rr, e, p);
    } else if contains(x, p) {
        assert(rr =~= (d + e) + x + f);
        crate::text::lemma_contains_part(d + e, x, f);
        crate::text::lemma_contains_trans(rr, x, p);
    } else {
        assert(rr =~= (d + e + x) + f + z);
        crate::text::lemma_contains_part(d + e + x, f, z);
        crate::text::lemma_contains_trans(rr, f, p);
    }
}

#[verifier::rlimit(50)]
proof fn lemma_front_block_parts(r: RuleView, i: nat, php_port: u16)
    requires
        r.front_controller is Some,
    ensures
        contains(
            rule_routes(r, i, php_port),
            php_handle(matcher_name(r.request_prefix, i, "Front"@), token(r.front_controller->0), php_port),
        ),
{
    let m = matcher_name(r.request_prefix, i, "Front"@);
    let piece = php_handle(m, token(r.front_controller->0), php_port);
    let before = "    @"@ + m + " {\n"@ + opt_text(path_matcher_line(r.request_prefix))
        + "        not path */ *.php\n"@ + "        not file {\n"@ + "            try_files {path} {path}/\n"@
        + "        }\n"@ + "    }\n"@;
    let tail = "    }\n"@ + "\n"@;
    lemma_fastcgi_line_text(php_port);
    assert(front_block(r, i, php_port) =~= before + piece + tail);
    crate::text::lemma_contains_part(before, piece, tail);
    lemma_rule_routes_hold_blocks(r, i, php_port, piece);
}

#[verifier::rlimit(50)]
proof fn lemma_ext_php_block_parts(r: RuleView, i: nat, php_port: u16)
    requires
        r.extensionless_php,
    ensures
        contains(
            rule_routes(r, i, php_port),
            "    @"@ + matcher_name(r.request_prefix, i, "ExtPhp"@) + " {\n"@ + opt_text(
                path_matcher_line(r.request_prefix),
            ) + "        not path */ *.php\n"@ + "        file {\n"@ + "            try_files {path}.php\n"@,
        ),
        contains(
            rule_routes(r, i, php_port),
            php_handle(matcher_name(r.request_prefix, i, "ExtPhp"@), "{file_match.relative}"@, php_port),
        ),
{
    let m = matcher_name(r.request_prefix, i, "ExtPhp"@);
    let open = "    @"@ + m + " {\n"@ + opt_text(path_matcher_line(r.request_prefix))
        + "        not path */ *.php\n"@ + "        file {\n"@ + "            try_files {path}.php\n"@;
    let handle = php_handle(m, "{file_match.relative}"@, php_port);
    let mid = "        }\n"@ + "    }\n"@;
    let tail = "    }\n"@ + "\n"@;
    let z = Seq::<char>::empty();
    lemma_fastcgi_line_text(php_port);
    lemma_rewrite_line();
    let e = ext_php_block(r, i, php_port);
    assert(e =~= z + open + (mid + handle + tail));
    assert(e =~= (open + mid) + handle + tail);
    crate::text::lemma_contains_part(z, open, mid + handle + tail);
    crate::text::lemma_contains_part(open + mid, handle, tail);
    lemma_rule_routes_hold_blocks(r, i, php_port, open);
    lemma_rule_routes_hold_blocks(r, i, php_port, handle);
}

#[verifier::rlimit(50)]
proof fn lemma_index_block_parts(r: RuleView, i: nat, php_port: u16)
    requires
        r.directory_indexes.len() > 0,
    ensures
        contains(
            rule_routes(r, i, php_port),
            php_handle(matcher_name(r.request_prefix, i, "Index"@), "{file_match.relative}"@, php_port),
        ),
{
    let m = matcher_name(r.request_prefix, i, "Index"@);
    let before = "    @"@ + m + " {\n"@ + index_path_line(r.request_prefix) + "        file {\n"@
        + "            try_files"@ + index_candidates(r.directory_indexes) + "\n"@ + "        }\n"@ + "    }\n"@;
    let handle = php_handle(m, "{file_match.relative}"@, php_port);
    let tail = "    }\n"@ + "\n"@;
    lemma_fastcgi_line_text(php_port);
    lemma_rewrite_line();
    assert(index_block(r, i, php_port) =~= before + handle + tail);
    crate::text::lemma_contains_part(before, handle, tail);
    lemma_rule_routes_hold_blocks(r, i, php_port, handle);
}

/// Unknown paths under a directory with a front controller are rewritten to
/// that controller and handed to PHP on `php_port`.
pub proof fn lemma_front_controller_is_routed_to_php(rules: Seq<RuleView>, php_port: u16, k: int)
    requires
        0 <= k < rules.len(),
        rules[k].front_controller is Some,
    ensures
        contains(
            route_rules_text(rules, php_port),
            "    handle @"@ + matcher_name(rules[k].request_prefix, k as nat, "Front"@) + " {\n"@
                + "        rewrite * "@ + token(rules[k].front_controller->0) + "\n"@
                + "        php_fastcgi 127.0.0.1:"@ + decimal(php_port as nat) + "\n"@,
        ),
{
    lemma_front_block_parts(rules[k], k as nat, php_port);
    lemma_rule_routes_in_text(rules, php_port, k);
    crate::text::lemma_contains_trans(
        route_rules_text(rules, php_port),
        rule_routes(rules[k], k as nat, php_port),
        php_handle(matcher_name(rules[k].request_prefix, k as nat, "Front"@), token(rules[k].front_controller->0), php_port),
    );
}

/// An extensionless request under a directory that asks for it is tried as
/// `<path>.php` and, where that file exists, served through PHP on
/// `php_port`.
pub proof fn lemma_extensionless_php_is_served(rules: Seq<RuleView>, php_port: u16, k: int)
    requires
        0 <= k < rules.len(),
        rules[k].extensionless_php,
    ensures
        contains(
            route_rules_text(rules, php_port),
            "    @"@ + matcher_name(rules[k].request_prefix, k as nat, "ExtPhp"@) + " {\n"@ + opt_text(
                path_matcher_line(rules[k].request_prefix),
            ) + "        not path */ *.php\n"@ + "        file {\n"@ + "            try_files {path}.php\n"@,
        ),
        contains(
            route_rules_text(rules, php_port),
            "    handle @"@ + matcher_name(rules[k].request_prefix, k as nat, "ExtPhp"@) + " {\n"@
                + "        rewrite * {file_match.relative}\n"@ + "        php_fastcgi 127.0.0.1:"@ + decimal(
                php_port as nat,
            ) + "\n"@,
        ),
{
    let r = rules[k];
    let m = matcher_name(r.request_prefix, k as nat, "ExtPhp"@);
    let text = route_rules_text(rules, php_port);
    let rr = rule_routes(r, k as nat, php_port);
    lemma_ext_php_block_parts(r, k as nat, php_port);
    lemma_rule_routes_in_text(rules, php_port, k);
    crate::text::lemma_contains_trans(
        text,
        rr,
        "    @"@ + m + " {\n"@ + opt_text(path_matcher_line(r.request_prefix)) + "        not path */ *.php\n"@
            + "        file {\n"@ + "            try_files {path}.php\n"@,
    );
    crate::text::lemma_contains_trans(text, rr, php_handle(m, "{file_match.relative}"@, php_port));
    lemma_php_handle_relative(m, php_port);
}

/// A directory that names PHP index files has its directory requests tried
/// against them and handed to PHP on `php_port`.
pub proof fn lemma_directory_index_is_served(rules: Seq<RuleView>, php_port: u16, k: int)
    requires
        0 <= k < rules.len(),
        rules[k].directory_indexes.len() > 0,
    ensures
        contains(
            route_rules_text(rules, php_port),
            "    handle @"@ + matcher_name(rules[k].request_prefix, k as nat, "Index"@) + " {\n"@
                + "        rewrite * {file_match.relative}\n"@ + "        php_fastcgi 127.0.0.1:"@ + decimal(
                php_port as nat,
            ) + "\n"@,
        ),
{
    let m = matcher_name(rules[k].request_prefix, k as nat, "Index"@);
    lemma_index_block_parts(rules[k], k as nat, php_port);
    lemma_rule_routes_in_text(rules, php_port, k);
    crate::text::lemma_contains_trans(
        route_rules_text(rules, php_port),
        rule_routes(rules[k], k as nat, php_port),
        php_handle(m, "{file_match.relative}"@, php_port),
    );
    lemma_php_handle_relative(m, php_port);
}

/// A matcher's name tells the kind of block and the rule's place in the
/// list: it begins `htaccess<kind>_<index>`.
pub proof fn lemma_matcher_name_starts_with_kind_and_index(prefix: Seq<char>, index: nat, kind: Seq<char>)
    ensures
        starts_with(matcher_name(prefix, index, kind), "htaccess"@ + kind + "_"@ + decimal(index)),
{
    let h = "htaccess"@ + kind + "_"@ + decimal(index);
    let n = matcher_name(prefix, index, kind);
    assert(n.take(h.len() as int) =~= h);
}

/// The rules of `rules` that satisfy `keep`, in order.
pub open spec fn filter_rules(rules: Seq<RuleView>, keep: spec_fn(RuleView) -> bool) -> Seq<RuleView>
    decreases rules.len(),
{
    if rules.len() == 0 {
        Seq::empty()
    } else {
        let t = filter_rules(rules.drop_last(), keep);
        if keep(rules.last()) {
            t.push(rules.last())
        } else {
            t
        }
    }
}

pub proof fn lemma_filter_rules(rules: Seq<RuleView>, keep: spec_fn(RuleView) -> bool)
    ensures
        filter_rules(rules, keep).len() <= rules.len(),
        forall|k: int|
            0 <= k < filter_rules(rules, keep).len() ==> keep(#[trigger] filter_rules(rules, keep)[k]),
    decreases rules.len(),
{
    if rules.len() > 0 {
        lemma_filter_rules(rules.drop_last(), keep);
    }
}

pub open spec fn has_error_404(r: RuleView) -> bool {
    r.error_404 is Some
}

pub open spec fn has_disable_indexes(r: RuleView) -> bool {
    r.disable_indexes
}

/// The rules selected by a list of indices.
pub open spec fn select_rules(rules: Seq<RuleView>, idx: Seq<usize>) -> Seq<RuleView> {
    idx.map_values(|k: usize| rules[k as int])
}

/// Indices of the rules that map a 404 page (`error_only`) or that disable
/// directory listings (otherwise).
fn filtered_indices(rules: &Vec<HtaccessCompatibilityRule>, error_only: bool) -> (r: Vec<usize>)
    ensures
        forall|k: int| 0 <= k < r.len() ==> r@[k] < rules.len(),
        select_rules(rules_view(rules@), r@) == filter_rules(
            rules_view(rules@),
            if error_only {
                |x: RuleView| has_error_404(x)
            } else {
                |x: RuleView| has_disable_indexes(x)
            },
        ),
{
    let ghost rv = rules_view(rules@);
    let ghost keep = if error_only {
        |x: RuleView| has_error_404(x)
    } else {
        |x: RuleView| has_disable_indexes(x)
    };
    let mut r: Vec<usize> = Vec::new();
    let mut i: usize = 0;
    while i < rules.len()
        invariant
            i <= rules.len(),
            rv == rules_view(rules@),
            keep == (if error_only {
                |x: RuleView| has_error_404(x)
            } else {
                |x: RuleView| has_disable_indexes(x)
            }),
            forall|k: int| 0 <= k < r.len() ==> r@[k] < i,
            select_rules(rv, r@) == filter_rules(rv.take(i as int), keep),
        decreases rules.len() - i,
    {
        let take = if error_only {
            rules[i].error_404.is_some()
        } else {
            rules[i].disable_indexes
        };
        assert(rv.take(i + 1).drop_last() =~= rv.take(i as int));
        assert(rv.take(i + 1).last() == rv[i as int]);
        assert(take == keep(rv[i as int]));
        if take {
            let ghost old_r = r@;
            r.push(i);
            assert(select_rules(rv, r@) =~= select_rules(rv, old_r).push(rv[i as int]));
        }
        i = i + 1;
    }
    assert(rv.take(rules.len() as int) =~= rv);
    r
}

/// The `path` line of a matcher nested one level deeper.
pub open spec fn nested_path_line(prefix: Seq<char>) -> Seq<char> {
    match path_matcher_line(prefix) {
        Some(l) => replace_all(l, "        path"@, "            path"@),
        None => Seq::empty(),
    }
}

/// The `handle_errors` entry of one rule with a 404 page.
pub open spec fn error_block(r: RuleView, i: nat, php_port: u16) -> Seq<char> {
    let m = matcher_name(r.request_prefix, i, "Error404"@);
    let e = r.error_404.unwrap();
    "        @"@ + m + " {\n"@ + "            expression {err.status_code} == 404\n"@ + nested_path_line(
        r.request_prefix,
    ) + "        }\n"@ + "        handle @"@ + m + " {\n"@ + "            rewrite * "@ + token(e) + "\n"@
        + (if ends_with(lower(e), ".php"@) {
        fastcgi_line("            "@, php_port)
    } else {
        "            file_server\n"@
    }) + "        }\n"@
}

pub open spec fn errors_upto(rules: Seq<RuleView>, n: nat, php_port: u16) -> Seq<char>
    decreases n,
{
    if n == 0 {
        Seq::empty()
    } else {
        errors_upto(rules, (n - 1) as nat, php_port) + error_block(rules[n - 1], (n - 1) as nat, php_port)
    }
}

/// The `handle_errors` section for the rules with a 404 page; nothing when none has one.
pub open spec fn error_rules_text(rules: Seq<RuleView>, php_port: u16) -> Seq<char> {
    let es = filter_rules(rules, |x: RuleView| has_error_404(x));
    if es.len() == 0 {
        Seq::empty()
    } else {
        "    # Apache .htaccess compatibility: ErrorDocument mappings\n"@ + "    handle_errors {\n"@
            + errors_upto(es, es.len(), php_port)
            + "        respond \"{err.status_code} {err.status_text}\" {err.status_code}\n"@
            + "    }\n"@ + "\n"@
    }
}

fn error_block_chars(rule: &HtaccessCompatibilityRule, i: usize, php_port: u16) -> (r: Vec<char>)
    requires
        rule.error_404 is Some,
    ensures
        r@ == error_block(rule@, i as nat, php_port),
{
    let prefix = chars_of(rule.request_prefix.as_str());
    let e = match &rule.error_404 {
        Some(e) => chars_of(e.as_str()),
        None => Vec::new(),
    };
    let m = matcher_name_chars(prefix.as_slice(), i, chars_of("Error404").as_slice());
    let mut r = chars_of("        @");
    r.extend_from_slice(m.as_slice());
    r.extend_from_slice(chars_of(" {\n").as_slice());
    r.extend_from_slice(chars_of("            expression {err.status_code} == 404\n").as_slice());
    proof {
        reveal_strlit("        path");
    }
    let nested = match path_matcher_line_chars(prefix.as_slice()) {
        Some(l) => replace_all_chars(
            l.as_slice(),
            chars_of("        path").as_slice(),
            chars_of("            path").as_slice(),
        ),
        None => Vec::new(),
    };
    assert(nested@ == nested_path_line(prefix@));
    r.extend_from_slice(nested.as_slice());
    r.extend_from_slice(chars_of("        }\n").as_slice());
    r.extend_from_slice(chars_of("        handle @").as_slice());
    r.extend_from_slice(m.as_slice());
    r.extend_from_slice(chars_of(" {\n").as_slice());
    r.extend_from_slice(chars_of("            rewrite * ").as_slice());
    r.extend_from_slice(token_chars(e.as_slice()).as_slice());
    r.extend_from_slice(chars_of("\n").as_slice());
    let le = lower_chars(e.as_slice());
    if ends_with_chars(le.as_slice(), chars_of(".php").as_slice()) {
        r.extend_from_slice(fastcgi_line_chars("            ", php_port).as_slice());
    } else {
        r.extend_from_slice(chars_of("            file_server\n").as_slice());
    }
    r.extend_from_slice(chars_of("        }\n").as_slice());
    assert(r@ =~= error_block(rule@, i as nat, php_port));
    r
}

/// Appends the `handle_errors` section for the rules with a 404 page.
pub fn append_htaccess_error_rules(content: &mut String, rules: &Vec<HtaccessCompatibilityRule>, php_port: u16)
    ensures
        final(content)@ == old(content)@ + error_rules_text(rules_view(rules@), php_port),
{
    let ghost rv = rules_view(rules@);
    let idx = filtered_indices(rules, true);
    let ghost es = filter_rules(rv, |x: RuleView| has_error_404(x));
    assert(select_rules(rv, idx@) == es);
    proof {
        lemma_filter_rules(rv, |x: RuleView| has_error_404(x));
    }
    if idx.len() == 0 {
        assert(es.len() == 0);
        assert(old(content)@ + error_rules_text(rv, php_port) =~= old(content)@);
        return ;
    }
    push_str(content, "    # Apache .htaccess compatibility: ErrorDocument mappings\n");
    push_str(content, "    handle_errors {\n");
    let ghost start = content@;
    let mut i: usize = 0;
    while i < idx.len()
        invariant
            i <= idx.len(),
            rv == rules_view(rules@),
            forall|k: int| 0 <= k < idx.len() ==> idx@[k] < rules.len(),
            select_rules(rv, idx@) == es,
            es.len() == idx.len(),
            forall|k: int| 0 <= k < es.len() ==> has_error_404(#[trigger] es[k]),
            content@ == start + errors_upto(es, i as nat, php_port),
        decreases idx.len() - i,
    {
        let k = idx[i];
        assert(es[i as int] == rv[k as int]);
        assert(has_error_404(es[i as int]));
        let block = error_block_chars(&rules[k], i, php_port);
        push_chars(content, block.as_slice());
        assert(content@ =~= start + errors_upto(es, (i + 1) as nat, php_port));
        i = i + 1;
    }
    push_str(content, "        respond \"{err.status_code} {err.status_text}\" {err.status_code}\n");
    push_str(content, "    }\n");
    push_str(content, "\n");
    assert(content@ =~= old(content)@ + error_rules_text(rv, php_port));
}

/// The block that forbids directory listings under a prefix.
pub open spec fn no_browse_block(r: RuleView, i: nat) -> Seq<char> {
    let m = matcher_name(r.request_prefix, i, "NoBrowse"@);
    let p = trim_end_set(r.request_prefix, slash());
    "    @"@ + m + " {\n"@ + (if r.request_prefix == slash() {
        "        path */\n"@
    } else {
        "        path "@ + token(p) + " "@ + token(p + "/"@) + " "@ + token(p + "/*/"@) + "\n"@
    }) + "    }\n"@ + "    respond @"@ + m + " 403\n"@ + "\n"@
}

pub open spec fn no_browse_upto(rules: Seq<RuleView>, n: nat) -> Seq<char>
    decreases n,
{
    if n == 0 {
        Seq::empty()
    } else {
        no_browse_upto(rules, (n - 1) as nat) + no_browse_block(rules[n - 1], (n - 1) as nat)
    }
}

/// The blocks for `Options -Indexes`; nothing when no rule asks for it.
pub open spec fn no_browse_rules_text(rules: Seq<RuleView>) -> Seq<char> {
    let ns = filter_rules(rules, |x: RuleView| has_disable_indexes(x));
    if ns.len() == 0 {
        Seq::empty()
    } else {
        "    # Apache .htaccess compatibility: Options -Indexes\n"@ + no_browse_upto(ns, ns.len())
    }
}

fn no_browse_block_chars(rule: &HtaccessCompatibilityRule, i: usize) -> (r: Vec<char>)
    ensures
        r@ == no_browse_block(rule@, i as nat),
{
    let prefix = chars_of(rule.request_prefix.as_str());
    let m = matcher_name_chars(prefix.as_slice(), i, chars_of("NoBrowse").as_slice());
    let sl = slash_chars();
    let mut r = matcher_open(m.as_slice());
    if eq_chars(prefix.as_slice(), sl.as_slice()) {
        r.extend_from_slice(chars_of("        path */\n").as_slice());
    } else {
        let p = trim_end_set_chars(prefix.as_slice(), sl.as_slice());
        let a = concat_chars(p.as_slice(), chars_of("/").as_slice());
        let b = concat_chars(p.as_slice(), chars_of("/*/").as_slice());
        r.extend_from_slice(chars_of("        path ").as_slice());
        r.extend_from_slice(token_chars(p.as_slice()).as_slice());
        r.extend_from_slice(chars_of(" ").as_slice());
        r.extend_from_slice(token_chars(a.as_slice()).as_slice());
        r.extend_from_slice(chars_of(" ").as_slice());
        r.extend_from_slice(token_chars(b.as_slice()).as_slice());
        r.extend_from_slice(chars_of("\n").as_slice());
    }
    r.extend_from_slice(chars_of("    }\n").as_slice());
    r.extend_from_slice(chars_of("    respond @").as_slice());
    r.extend_from_slice(m.as_slice());
    r.extend_from_slice(chars_of(" 403\n").as_slice());
    r.extend_from_slice(chars_of("\n").as_slice());
    assert(r@ =~= no_browse_block(rule@, i as nat));
    r
}

/// Appends the blocks that forbid directory listings.
pub fn append_htaccess_no_browse_rules(content: &mut String, rules: &Vec<HtaccessCompatibilityRule>)
    ensures
        final(content)@ == old(content)@ + no_browse_rules_text(rules_view(rules@)),
{
    let ghost rv = rules_view(rules@);
    let idx = filtered_indices(rules, false);
    let ghost ns = filter_rules(rv, |x: RuleView| has_disable_indexes(x));
    if idx.len() == 0 {
        assert(old(content)@ + no_browse_rules_text(rv) =~= old(content)@);
        return ;
    }
    push_str(content, "    # Apache .htaccess compatibility: Options -Indexes\n");
    let ghost start = content@;
    let mut i: usize = 0;
    while i < idx.len()
        invariant
            i <= idx.len(),
            rv == rules_view(rules@),
            forall|k: int| 0 <= k < idx.len() ==> idx@[k] < rules.len(),
            select_rules(rv, idx@) == ns,
            content@ == start + no_browse_upto(ns, i as nat),
        decreases idx.len() - i,
    {
        let k = idx[i];
        assert(ns[i as int] == rv[k as int]);
        let block = no_browse_block_chars(&rules[k], i);
        push_chars(content, block.as_slice());
        assert(content@ =~= start + no_browse_upto(ns, (i + 1) as nat));
        i = i + 1;
    }
    assert(content@ =~= old(content)@ + no_browse_rules_text(rv));
}


/// `a` comes before `b` in code point order (`str` ordering).
pub open spec fn lex_less(a: Seq<char>, b: Seq<char>) -> bool
    decreases a.len(),
{
    if a.len() == 0 {
        b.len() > 0
    } else if b.len() == 0 {
        false
    } else if a[0] != b[0] {
        (a[0] as u32) < (b[0] as u32)
    } else {
        lex_less(a.drop_first(), b.drop_first())
    }
}

pub fn lex_less_chars(a: &[char], b: &[char]) -> (r: bool)
    ensures
        r == lex_less(a@, b@),
{
    let mut i: usize = 0;
    assert(a@.skip(0) =~= a@);
    assert(b@.skip(0) =~= b@);
    while i < a.len() && i < b.len() && a[i] == b[i]
        invariant
            i <= a.len(),
            i <= b.len(),
            lex_less(a@, b@) == lex_less(a@.skip(i as int), b@.skip(i as int)),
        decreases a.len() - i,
    {
        assert(a@.skip(i as int).drop_first() =~= a@.skip(i + 1));
        assert(b@.skip(i as int).drop_first() =~= b@.skip(i + 1));
        i = i + 1;
    }
    if i == a.len() {
        i < b.len()
    } else if i == b.len() {
        false
    } else {
        (a[i] as u32) < (b[i] as u32)
    }
}

/// Rules for longer (more specific) prefixes come first, their length taken
/// in UTF-8 bytes; equal lengths go in code point order (which is the byte
/// order of UTF-8).
pub open spec fn rule_before(a: RuleView, b: RuleView) -> bool {
    utf8_len(a.request_prefix) > utf8_len(b.request_prefix) || (utf8_len(a.request_prefix) == utf8_len(
        b.request_prefix,
    ) && lex_less(a.request_prefix, b.request_prefix))
}

/// `x` inserted into `s` before the first rule that it comes before.
pub open spec fn insert_rule(s: Seq<RuleView>, x: RuleView) -> Seq<RuleView>
    decreases s.len(),
{
    if s.len() == 0 {
        seq![x]
    } else if rule_before(x, s[0]) {
        seq![x] + s
    } else {
        seq![s[0]] + insert_rule(s.drop_first(), x)
    }
}

/// The stable sort of `s` by specificity.
pub open spec fn sort_rules(s: Seq<RuleView>) -> Seq<RuleView>
    decreases s.len(),
{
    if s.len() == 0 {
        Seq::empty()
    } else {
        insert_rule(sort_rules(s.drop_last()), s.last())
    }
}

proof fn lemma_insert_at(s: Seq<RuleView>, x: RuleView, j: int)
    requires
        0 <= j <= s.len(),
        forall|k: int| 0 <= k < j ==> !rule_before(x, #[trigger] s[k]),
        j < s.len() ==> rule_before(x, s[j]),
    ensures
        insert_rule(s, x) == s.take(j) + seq![x] + s.skip(j),
    decreases s.len(),
{
    if s.len() == 0 {
        assert(s.take(j) + seq![x] + s.skip(j) =~= seq![x]);
    } else if j == 0 {
        assert(s.take(0) + seq![x] + s.skip(0) =~= seq![x] + s);
    } else {
        assert forall|k: int| 0 <= k < j - 1 implies !rule_before(x, #[trigger] s.drop_first()[k]) by {
            assert(s.drop_first()[k] == s[k + 1]);
        }
        lemma_insert_at(s.drop_first(), x, j - 1);
        assert(seq![s[0]] + (s.drop_first().take(j - 1) + seq![x] + s.drop_first().skip(j - 1))
            =~= s.take(j) + seq![x] + s.skip(j));
    }
}

fn copy_rule(r: &HtaccessCompatibilityRule) -> (c: HtaccessCompatibilityRule)
    ensures
        c@ == r@,
{
    let front = match &r.front_controller {
        Some(f) => Some(f.clone()),
        None => None,
    };
    let err = match &r.error_404 {
        Some(e) => Some(e.clone()),
        None => None,
    };
    let mut idx: Vec<String> = Vec::new();
    let mut i: usize = 0;
    while i < r.directory_indexes.len()
        invariant
            i <= r.directory_indexes.len(),
            strings_view(idx@) == strings_view(r.directory_indexes@).take(i as int),
        decreases r.directory_indexes.len() - i,
    {
        let ghost old_idx = idx@;
        idx.push(r.directory_indexes[i].clone());
        assert(strings_view(idx@) =~= strings_view(old_idx).push(r.directory_indexes@[i as int]@));
        assert(strings_view(r.directory_indexes@).take(i + 1) =~= strings_view(
            r.directory_indexes@,
        ).take(i as int).push(r.directory_indexes@[i as int]@));
        i = i + 1;
    }
    assert(strings_view(r.directory_indexes@).take(r.directory_indexes.len() as int) =~= strings_view(
        r.directory_indexes@,
    ));
    let c = HtaccessCompatibilityRule {
        request_prefix: r.request_prefix.clone(),
        project_prefix: r.project_prefix.clone(),
        extensionless_php: r.extensionless_php,
        front_controller: front,
        error_404: err,
        directory_indexes: idx,
        deny_all: r.deny_all,
        disable_indexes: r.disable_indexes,
    };
    assert(c@ =~= r@);
    c
}

/// The rules ordered from the most specific request prefix to the least, in
/// code point order among prefixes of equal length; a stable sort.
pub fn order_htaccess_rules(rules: &Vec<HtaccessCompatibilityRule>) -> (r: Vec<HtaccessCompatibilityRule>)
    ensures
        rules_view(r@) == sort_rules(rules_view(rules@)),
{
    let ghost rv = rules_view(rules@);
    let mut out: Vec<HtaccessCompatibilityRule> = Vec::new();
    let mut i: usize = 0;
    assert(rules_view(out@) =~= sort_rules(rv.take(0)));
    while i < rules.len()
        invariant
            i <= rules.len(),
            rv == rules_view(rules@),
            rules_view(out@) == sort_rules(rv.take(i as int)),
        decreases rules.len() - i,
    {
        let x = copy_rule(&rules[i]);
        let ghost xv = x@;
        let xp = chars_of(x.request_prefix.as_str());
        let xn = utf8_len_of(xp.as_slice());
        let mut j: usize = 0;
        let ghost ov = rules_view(out@);
        let mut found = false;
        while j < out.len() && !found
            invariant
                j <= out.len(),
                found ==> j < out.len() && rule_before(xv, ov[j as int]),
                ov == rules_view(out@),
                xv == x@,
                xp@ == x.request_prefix@,
                xn == utf8_len(xp@),
                forall|k: int| 0 <= k < j ==> !rule_before(xv, #[trigger] ov[k]),
            decreases out.len() - j + (if found { 0int } else { 1int }),
        {
            let yp = chars_of(out[j].request_prefix.as_str());
            let yn = utf8_len_of(yp.as_slice());
            let before = xn > yn || (xn == yn && lex_less_chars(
                xp.as_slice(),
                yp.as_slice(),
            ));
            assert(ov[j as int] == out@[j as int]@);
            if before {
                found = true;
            } else {
                j = j + 1;
            }
        }
        proof {
            if j < out.len() {
                assert(ov[j as int] == out@[j as int]@);
            }
            lemma_insert_at(ov, xv, j as int);
        }
        out.insert(j, x);
        assert(rules_view(out@) =~= ov.take(j as int) + seq![xv] + ov.skip(j as int));
        assert(rv.take(i + 1).drop_last() =~= rv.take(i as int));
        assert(rv.take(i + 1).last() == xv);
        i = i + 1;
    }
    assert(rv.take(rules.len() as int) =~= rv);
    out
}


/// A `.htaccess` file found under the projects directory: the components of
/// its directory relative to the projects directory, and its content.
pub struct HtaccessFile {
    pub components: Vec<String>,
    pub content: String,
}

/// The rule of a `.htaccess` file, if it holds a directive CHAMP understands.
pub open spec fn rule_of_file(components: Seq<Seq<char>>, content: Seq<char>) -> Option<RuleView> {
    parse_htaccess(request_prefix_spec(components), project_prefix_spec(components), content)
}

/// Parses the `.htaccess` file of the directory with these relative path components.
pub fn parse_htaccess_file(components: &Vec<String>, content: &str) -> (r: Option<HtaccessCompatibilityRule>)
    ensures
        r matches Some(rule) ==> rule_of_file(strings_view(components@), content@) == Some(rule@),
        r is None ==> rule_of_file(strings_view(components@), content@) is None,
{
    let request_prefix = request_prefix_from_relative_path(components);
    let project_prefix = project_prefix_from_relative_path(components);
    parse_htaccess_content(request_prefix, project_prefix, content)
}

/// The rules of the files that hold directives, in file order.
pub open spec fn parsed_rules(files: Seq<(Seq<Seq<char>>, Seq<char>)>) -> Seq<RuleView>
    decreases files.len(),
{
    if files.len() == 0 {
        Seq::empty()
    } else {
        let rest = parsed_rules(files.drop_last());
        match rule_of_file(files.last().0, files.last().1) {
            Some(r) => rest.push(r),
            None => rest,
        }
    }
}

pub open spec fn files_view(files: Seq<HtaccessFile>) -> Seq<(Seq<Seq<char>>, Seq<char>)> {
    files.map_values(|f: HtaccessFile| (strings_view(f.components@), f.content@))
}

/// The compatibility rules of the `.htaccess` files of a projects tree, most
/// specific request prefix first.
pub fn discover_htaccess_rules(files: &Vec<HtaccessFile>) -> (r: Vec<HtaccessCompatibilityRule>)
    ensures
        rules_view(r@) == sort_rules(parsed_rules(files_view(files@))),
{
    let ghost fv = files_view(files@);
    let mut rules: Vec<HtaccessCompatibilityRule> = Vec::new();
    let mut i: usize = 0;
    assert(rules_view(rules@) =~= parsed_rules(fv.take(0)));
    while i < files.len()
        invariant
            i <= files.len(),
            fv == files_view(files@),
            rules_view(rules@) == parsed_rules(fv.take(i as int)),
        decreases files.len() - i,
    {
        assert(fv.take(i + 1).drop_last() =~= fv.take(i as int));
        assert(fv.take(i + 1).last() == fv[i as int]);
        match parse_htaccess_file(&files[i].components, files[i].content.as_str()) {
            Some(rule) => {
                let ghost old_rules = rules@;
                rules.push(rule);
                assert(rules_view(rules@) =~= rules_view(old_rules).push(rules@[rules.len() - 1]@));
            },
            None => {},
        }
        i = i + 1;
    }
    assert(fv.take(files.len() as int) =~= fv);
    order_htaccess_rules(&rules)
}

/// How deep below the projects directory `.htaccess` files are looked for.
pub const MAX_HTACCESS_DEPTH: usize = 12;

/// What to do with one entry of a directory at `depth` while looking for `.htaccess` files.
#[derive(Debug, Clone, Copy, PartialEq, Eq, Structural)]
pub enum WalkStep {
    Skip,
    Descend,
    Collect,
}

/// Dependency and version-control directories that are never searched.
pub open spec fn is_skipped_dir(name: Seq<char>) -> bool {
    let l = lower(name);
    l == lower("node_modules"@) || l == lower("vendor"@) || l == lower(".git"@) || l == lower(".svn"@)
        || l == lower(".hg"@) || l == lower("bower_components"@)
}

pub open spec fn walk_step(is_symlink: bool, is_dir: bool, name: Seq<char>, depth: nat) -> WalkStep {
    if is_symlink {
        WalkStep::Skip
    } else if is_dir {
        if is_skipped_dir(name) || depth + 1 > MAX_HTACCESS_DEPTH {
            WalkStep::Skip
        } else {
            WalkStep::Descend
        }
    } else if lower(name) == lower(".htaccess"@) {
        WalkStep::Collect
    } else {
        WalkStep::Skip
    }
}

fn eq_ignore_case(a: &[char], b: &str) -> (r: bool)
    ensures
        r == (lower(a@) == lower(b@)),
{
    let la = lower_chars(a);
    let lb = lower_chars(chars_of(b).as_slice());
    eq_chars(la.as_slice(), lb.as_slice())
}

/// Decides what the search for `.htaccess` files does with a directory entry:
/// symlinks are never followed, dependency directories are skipped and the
/// search stops below the depth cap.
pub fn htaccess_walk_step(is_symlink: bool, is_dir: bool, name: &str, depth: usize) -> (r: WalkStep)
    ensures
        r == walk_step(is_symlink, is_dir, name@, depth as nat),
{
    let n = chars_of(name);
    let n = n.as_slice();
    if is_symlink {
        WalkStep::Skip
    } else if is_dir {
        let skipped = eq_ignore_case(n, "node_modules") || eq_ignore_case(n, "vendor")
            || eq_ignore_case(n, ".git") || eq_ignore_case(n, ".svn") || eq_ignore_case(n, ".hg")
            || eq_ignore_case(n, "bower_components");
        if skipped || depth >= MAX_HTACCESS_DEPTH {
            WalkStep::Skip
        } else {
            WalkStep::Descend
        }
    } else if eq_ignore_case(n, ".htaccess") {
        WalkStep::Collect
    } else {
        WalkStep::Skip
    }
}

} // verus!
