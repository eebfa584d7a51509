//! The Caddyfile that serves the projects tree, the database tools and PHP.

use vstd::prelude::*;
use crate::htaccess::{
    append_htaccess_error_rules, append_htaccess_no_browse_rules, append_htaccess_route_rules,
    error_rules_text, fastcgi_line, fastcgi_line_chars, no_browse_rules_text, route_rules_text,
    rules_view, HtaccessCompatibilityRule, RuleView, matcher_name, opt_text, path_matcher_line,
    lemma_denied_directory_answers_403,
};
use crate::text::{chars_of, decimal, push_chars, push_decimal, push_str, replace_char, replace_char_chars};

verus! {

/// The global options and the site address.
#[verifier::opaque]
pub open spec fn caddy_header(port: u16) -> Seq<char> {
    "{\n"@ + "    admin off\n"@ + "}\n\n"@ + ":"@ + decimal(port as nat) + " {\n"@
}

/// One database tool route, served from the tool directory.
#[verifier::opaque]
pub open spec fn tool_route(path: Seq<char>, tool_dir: Seq<char>, php_port: u16) -> Seq<char> {
    "    handle_path "@ + path + "/* {\n"@ + "        root * \""@ + tool_dir + "\"\n"@ + fastcgi_line(
        "        "@,
        php_port,
    ) + "        file_server\n"@ + "    }\n"@
}

/// The routes of the database tools; both point at the single installed tool.
#[verifier::opaque]
pub open spec fn caddy_tools(tool_dir: Seq<char>, php_port: u16) -> Seq<char> {
    "    # Database tools - must come before project root directives\n"@
        + "    redir /adminer /adminer/\n"@ + "    redir /phpmyadmin /phpmyadmin/\n"@ + "\n"@
        + tool_route("/adminer"@, tool_dir, php_port) + "\n"@ + tool_route("/phpmyadmin"@, tool_dir, php_port)
        + "\n"@
}

/// The document root and the refusal to serve Apache control files.
#[verifier::opaque]
pub open spec fn caddy_root(projects: Seq<char>) -> Seq<char> {
    "    # Root directory for serving files (default project root)\n"@ + "    root * \""@ + projects
        + "\"\n"@ + "\n"@ + "    # Apache .htaccess compatibility: never serve control files\n"@
        + "    @apacheControlFiles {\n"@ + "        path .htaccess .htpasswd */.htaccess */.htpasswd\n"@
        + "    }\n"@ + "    respond @apacheControlFiles 404\n"@ + "\n"@
}

/// Extensionless PHP URLs are served by the PHP file of their name.
#[verifier::opaque]
pub open spec fn caddy_php_extensionless(php_port: u16) -> Seq<char> {
    "    # Apache .htaccess compatibility: extensionless PHP rewrites\n"@ + "    @phpExtensionless {\n"@
        + "        not path */\n"@ + "        not path *.php\n"@ + "        file {\n"@
        + "            try_files {path}.php\n"@ + "        }\n"@ + "    }\n"@
        + "    handle @phpExtensionless {\n"@ + "        rewrite * {file_match.relative}\n"@
        + fastcgi_line("        "@, php_port) + "    }\n"@ + "\n"@
}

/// Existing PHP scripts are executed.
#[verifier::opaque]
pub open spec fn caddy_php_file(php_port: u16) -> Seq<char> {
    "    # Execute PHP files only when the target script exists\n"@ + "    @phpFile {\n"@
        + "        path *.php\n"@ + "        file {path}\n"@ + "    }\n"@ + "    handle @phpFile {\n"@
        + fastcgi_line("        "@, php_port) + "    }\n"@ + "\n"@
}

/// PHP directory indexes are executed where they exist.
#[verifier::opaque]
pub open spec fn caddy_php_index(php_port: u16) -> Seq<char> {
    "    # Execute directory indexes only when index.php exists\n"@ + "    @phpIndex {\n"@
        + "        file {\n"@ + "            try_files {path}/index.php {path}index.php\n"@
        + "        }\n"@ + "    }\n"@ + "    handle @phpIndex {\n"@
        + "        rewrite * {file_match.relative}\n"@ + fastcgi_line("        "@, php_port)
        + "    }\n"@ + "\n"@
}

/// Extensionless PHP URLs, existing PHP scripts and PHP directory indexes.
pub open spec fn caddy_php(php_port: u16) -> Seq<char> {
    caddy_php_extensionless(php_port) + caddy_php_file(php_port) + caddy_php_index(php_port)
}

/// The static file server; directory browsing stays off.
#[verifier::opaque]
pub open spec fn caddy_file_server() -> Seq<char> {
    "    # File server for project files (directory browsing disabled for safety)\n"@
        + "    file_server\n"@ + "\n"@
}

/// Access logging, compression and security headers.
#[verifier::opaque]
pub open spec fn caddy_footer(log_file: Seq<char>) -> Seq<char> {
    "    # Logging\n"@ + "    log {\n"@ + "        output file \""@ + log_file + "\"\n"@
        + "        format json\n"@ + "    }\n"@ + "\n"@ + "    # Encode responses\n"@
        + "    encode gzip\n"@ + "\n"@ + "    # Security headers\n"@ + "    header {\n"@
        + "        X-Content-Type-Options nosniff\n"@ + "        X-Frame-Options SAMEORIGIN\n"@
        + "        Referrer-Policy no-referrer\n"@ + "    }\n"@ + "}\n"@
}

/// The whole Caddyfile, with paths written with `/` separators.
pub open spec fn caddyfile_text(
    projects: Seq<char>,
    log_file: Seq<char>,
    tool_dir: Seq<char>,
    rules: Seq<RuleView>,
    port: u16,
    php_port: u16,
) -> Seq<char> {
    let projects = replace_char(projects, '\\', '/');
    let log_file = replace_char(log_file, '\\', '/');
    let tool_dir = replace_char(tool_dir, '\\', '/');
    caddy_header(port) + caddy_tools(tool_dir, php_port) + caddy_root(projects) + route_rules_text(
        rules,
        php_port,
    ) + caddy_php(php_port) + no_browse_rules_text(rules) + caddy_file_server()
        + error_rules_text(rules, php_port) + caddy_footer(log_file)
}

/// The Caddyfile answers 403 under every directory whose `.htaccess` denies
/// all access: it holds that rule's deny matcher, limited to the rule's
/// request prefix, followed at once by `respond @<matcher> 403`.
pub proof fn lemma_caddyfile_refuses_denied_directories(
    projects: Seq<char>,
    log_file: Seq<char>,
    tool_dir: Seq<char>,
    rules: Seq<RuleView>,
    port: u16,
    php_port: u16,
    k: int,
)
    requires
        0 <= k < rules.len(),
        rules[k].deny_all,
    ensures
        crate::text::contains(
            caddyfile_text(projects, log_file, tool_dir, rules, port, php_port),
            "    @"@ + matcher_name(rules[k].request_prefix, k as nat, "Deny"@) + " {\n"@ + opt_text(
                path_matcher_line(rules[k].request_prefix),
            ) + "    }\n"@ + "    respond @"@ + matcher_name(rules[k].request_prefix, k as nat, "Deny"@)
                + " 403\n"@,
        ),
{
    let p = replace_char(projects, '\\', '/');
    let l = replace_char(log_file, '\\', '/');
    let t = replace_char(tool_dir, '\\', '/');
    let before = caddy_header(port) + caddy_tools(t, php_port) + caddy_root(p);
    let routes = route_rules_text(rules, php_port);
    let after = caddy_php(php_port) + no_browse_rules_text(rules) + caddy_file_server() + error_rules_text(
        rules,
        php_port,
    ) + caddy_footer(l);
    let text = caddyfile_text(projects, log_file, tool_dir, rules, port, php_port);
    assert(text =~= before + routes + after);
    crate::text::lemma_contains_part(before, routes, after);
    lemma_denied_directory_answers_403(rules, php_port, k);
    crate::text::lemma_contains_trans(
        text,
        routes,
        "    @"@ + matcher_name(rules[k].request_prefix, k as nat, "Deny"@) + " {\n"@ + opt_text(
            path_matcher_line(rules[k].request_prefix),
        ) + "    }\n"@ + "    respond @"@ + matcher_name(rules[k].request_prefix, k as nat, "Deny"@) + " 403\n"@,
    );
}

fn push_tool_route(s: &mut String, path: &str, tool_dir: &[char], php_port: u16)
    ensures
        final(s)@ == old(s)@ + tool_route(path@, tool_dir@, php_port),
{
    push_str(s, "    handle_path ");
    push_str(s, path);
    push_str(s, "/* {\n");
    push_str(s, "        root * \"");
    push_chars(s, tool_dir);
    push_str(s, "\"\n");
    push_chars(s, fastcgi_line_chars("        ", php_port).as_slice());
    push_str(s, "        file_server\n");
    push_str(s, "    }\n");
    reveal(tool_route);
    assert(s@ =~= old(s)@ + tool_route(path@, tool_dir@, php_port));
}

fn push_header_and_tools(s: &mut String, tool_dir: &[char], port: u16, php_port: u16)
    ensures
        final(s)@ == old(s)@ + caddy_header(port) + caddy_tools(tool_dir@, php_port),
{
    push_str(s, "{\n");
    push_str(s, "    admin off\n");
    push_str(s, "}\n\n");
    push_str(s, ":");
    let mut d: Vec<char> = Vec::new();
    push_decimal(&mut d, port as u64);
    push_chars(s, d.as_slice());
    push_str(s, " {\n");
    reveal(caddy_header);
    assert(s@ =~= old(s)@ + caddy_header(port));
    let ghost mid = s@;
    push_str(s, "    # Database tools - must come before project root directives\n");
    push_str(s, "    redir /adminer /adminer/\n");
    push_str(s, "    redir /phpmyadmin /phpmyadmin/\n");
    push_str(s, "\n");
    push_tool_route(s, "/adminer", tool_dir, php_port);
    push_str(s, "\n");
    push_tool_route(s, "/phpmyadmin", tool_dir, php_port);
    push_str(s, "\n");
    reveal(caddy_tools);
    assert(s@ =~= mid + caddy_tools(tool_dir@, php_port));
}

fn push_root(s: &mut String, projects: &[char])
    ensures
        final(s)@ == old(s)@ + caddy_root(projects@),
{
    push_str(s, "    # Root directory for serving files (default project root)\n");
    push_str(s, "    root * \"");
    push_chars(s, projects);
    push_str(s, "\"\n");
    push_str(s, "\n");
    push_str(s, "    # Apache .htaccess compatibility: never serve control files\n");
    push_str(s, "    @apacheControlFiles {\n");
    push_str(s, "        path .htaccess .htpasswd */.htaccess */.htpasswd\n");
    push_str(s, "    }\n");
    push_str(s, "    respond @apacheControlFiles 404\n");
    push_str(s, "\n");
    reveal(caddy_root);
    assert(s@ =~= old(s)@ + caddy_root(projects@));
}

fn push_php_extensionless(s: &mut String, fcgi: &[char], php_port: u16)
    requires
        fcgi@ == fastcgi_line("        "@, php_port),
    ensures
        final(s)@ == old(s)@ + caddy_php_extensionless(php_port),
{
    push_str(s, "    # Apache .htaccess compatibility: extensionless PHP rewrites\n");
    push_str(s, "    @phpExtensionless {\n");
    push_str(s, "        not path */\n");
    push_str(s, "        not path *.php\n");
    push_str(s, "        file {\n");
    push_str(s, "            try_files {path}.php\n");
    push_str(s, "        }\n");
    push_str(s, "    }\n");
    push_str(s, "    handle @phpExtensionless {\n");
    push_str(s, "        rewrite * {file_match.relative}\n");
    push_chars(s, fcgi);
    push_str(s, "    }\n");
    push_str(s, "\n");
    reveal(caddy_php_extensionless);
    assert(s@ =~= old(s)@ + caddy_php_extensionless(php_port));
}

fn push_php_file(s: &mut String, fcgi: &[char], php_port: u16)
    requires
        fcgi@ == fastcgi_line("        "@, php_port),
    ensures
        final(s)@ == old(s)@ + caddy_php_file(php_port),
{
    push_str(s, "    # Execute PHP files only when the target script exists\n");
    push_str(s, "    @phpFile {\n");
    push_str(s, "        path *.php\n");
    push_str(s, "        file {path}\n");
    push_str(s, "    }\n");
    push_str(s, "    handle @phpFile {\n");
    push_chars(s, fcgi);
    push_str(s, "    }\n");
    push_str(s, "\n");
    reveal(caddy_php_file);
    assert(s@ =~= old(s)@ + caddy_php_file(php_port));
}

fn push_php_index(s: &mut String, fcgi: &[char], php_port: u16)
    requires
        fcgi@ == fastcgi_line("        "@, php_port),
    ensures
        final(s)@ == old(s)@ + caddy_php_index(php_port),
{
    push_str(s, "    # Execute directory indexes only when index.php exists\n");
    push_str(s, "    @phpIndex {\n");
    push_str(s, "        file {\n");
    push_str(s, "            try_files {path}/index.php {path}index.php\n");
    push_str(s, "        }\n");
    push_str(s, "    }\n");
    push_str(s, "    handle @phpIndex {\n");
    push_str(s, "        rewrite * {file_match.relative}\n");
    push_chars(s, fcgi);
    push_str(s, "    }\n");
    push_str(s, "\n");
    reveal(caddy_php_index);
    assert(s@ =~= old(s)@ + caddy_php_index(php_port));
}

fn push_php(s: &mut String, php_port: u16)
    ensures
        final(s)@ == old(s)@ + caddy_php(php_port),
{
    let fcgi = fastcgi_line_chars("        ", php_port);
    let ghost s0 = s@;
    push_php_extensionless(s, fcgi.as_slice(), php_port);
    push_php_file(s, fcgi.as_slice(), php_port);
    push_php_index(s, fcgi.as_slice(), php_port);
    assert(s@ =~= s0 + caddy_php(php_port));
}

fn push_file_server(s: &mut String)
    ensures
        final(s)@ == old(s)@ + caddy_file_server(),
{
    push_str(s, "    # File server for project files (directory browsing disabled for safety)\n");
    push_str(s, "    file_server\n");
    push_str(s, "\n");
    reveal(caddy_file_server);
    assert(s@ =~= old(s)@ + caddy_file_server());
}

fn push_footer(s: &mut String, log_file: &[char])
    ensures
        final(s)@ == old(s)@ + caddy_footer(log_file@),
{
    push_str(s, "    # Logging\n");
    push_str(s, "    log {\n");
    push_str(s, "        output file \"");
    push_chars(s, log_file);
    push_str(s, "\"\n");
    push_str(s, "        format json\n");
    push_str(s, "    }\n");
    push_str(s, "\n");
    push_str(s, "    # Encode responses\n");
    push_str(s, "    encode gzip\n");
    push_str(s, "\n");
    push_str(s, "    # Security headers\n");
    push_str(s, "    header {\n");
    push_str(s, "        X-Content-Type-Options nosniff\n");
    push_str(s, "        X-Frame-Options SAMEORIGIN\n");
    push_str(s, "        Referrer-Policy no-referrer\n");
    push_str(s, "    }\n");
    push_str(s, "}\n");
    reveal(caddy_footer);
    assert(s@ =~= old(s)@ + caddy_footer(log_file@));
}

/// The Caddyfile for the projects directory, the access log file and the
/// database tool directory, with the `.htaccess` rules of the projects tree.
pub fn generate_caddyfile(
    projects_dir: &str,
    log_file: &str,
    tool_dir: &str,
    rules: &Vec<HtaccessCompatibilityRule>,
    port: u16,
    php_port: u16,
) -> (content: String)
    ensures
        content@ == caddyfile_text(projects_dir@, log_file@, tool_dir@, rules_view(rules@), port, php_port),
{
    let projects = replace_char_chars(chars_of(projects_dir).as_slice(), '\\', '/');
    let log = replace_char_chars(chars_of(log_file).as_slice(), '\\', '/');
    let tools = replace_char_chars(chars_of(tool_dir).as_slice(), '\\', '/');
    let mut content = String::new();
    push_header_and_tools(&mut content, tools.as_slice(), port, php_port);
    push_root(&mut content, projects.as_slice());
    append_htaccess_route_rules(&mut content, rules, php_port);
    push_php(&mut content, php_port);
    append_htaccess_no_browse_rules(&mut content, rules);
    push_file_server(&mut content);
    append_htaccess_error_rules(&mut content, rules, php_port);
    push_footer(&mut content, log.as_slice());
    assert(content@ =~= caddyfile_text(projects_dir@, log_file@, tool_dir@, rules_view(rules@), port, php_port));
    content
}

} // verus!
