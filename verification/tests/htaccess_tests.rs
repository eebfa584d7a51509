use champ::caddyfile::generate_caddyfile;
use champ::htaccess::{discover_htaccess_rules, parse_htaccess_content, HtaccessFile};
use champ::htaccess::strip_htaccess_comment;
use champ::htaccess::{
    htaccess_walk_step, is_extensionless_php_rewrite, is_front_controller_rewrite, order_htaccess_rules,
    parse_htaccess_file, project_prefix_from_relative_path, request_prefix_from_relative_path, WalkStep,
};
use champ::htaccess::rewrite_rule_replacement;
use champ::htaccess::parse_error_document_404;
use champ::htaccess::parse_php_directory_indexes;
use champ::htaccess::{join_url_path, trim_slash};
use champ::htaccess::resolve_htaccess_target;
use champ::htaccess::{caddy_matcher_name, caddy_path_matcher_line, caddy_token};

fn file(components: &[&str], content: &str) -> HtaccessFile {
    HtaccessFile {
        components: components.iter().map(|c| c.to_string()).collect(),
        content: content.to_string(),
    }
}

#[test]
fn test_htaccess_parser_maps_extensionless_php_and_error_document() {
    let content = "\nRewriteEngine On\nErrorDocument 404 /404.php\nRewriteCond %{REQUEST_FILENAME} !-d\nRewriteCond %{REQUEST_FILENAME} !-f\nRewriteRule (.*) $1.php [L]\n";
    let rules = discover_htaccess_rules(&vec![file(&["IT-NVC"], content)]);

    assert_eq!(rules.len(), 1);
    assert_eq!(rules[0].request_prefix, "/IT-NVC");
    assert_eq!(rules[0].project_prefix, "/IT-NVC");
    assert!(rules[0].extensionless_php);
    assert_eq!(rules[0].error_404.as_deref(), Some("/IT-NVC/404.php"));
}

#[test]
fn test_htaccess_parser_maps_nested_relative_front_controller() {
    let content = "\nRewriteEngine On\nRewriteCond %{REQUEST_FILENAME} !-d\nRewriteCond %{REQUEST_FILENAME} !-f\nRewriteRule ^ index.php [L]\nOptions -Indexes\n";
    let rules = discover_htaccess_rules(&vec![file(&["demo", "public"], content)]);

    assert_eq!(rules.len(), 1);
    assert_eq!(rules[0].request_prefix, "/demo/public");
    assert_eq!(rules[0].front_controller.as_deref(), Some("/demo/public/index.php"));
    assert!(rules[0].disable_indexes);
}

#[test]
fn test_htaccess_parser_maps_php_directory_index() {
    let rules = discover_htaccess_rules(&vec![file(&["demo"], "DirectoryIndex home.php index.html index.php\n")]);

    assert_eq!(rules.len(), 1);
    assert_eq!(rules[0].directory_indexes, vec!["home.php".to_string(), "index.php".to_string()]);
}

#[test]
fn test_generate_caddyfile_includes_htaccess_compatibility_rules() {
    let rules = discover_htaccess_rules(&vec![file(
        &["IT-NVC"],
        "RewriteEngine On\nRewriteRule (.*) $1.php [L]\nErrorDocument 404 /404.php\n",
    )]);
    let content = generate_caddyfile("/tmp/champ/projects", "/tmp/champ/logs/caddy-access.log", "/tmp/champ/adminer", &rules, 8080, 9000);

    assert!(content.contains("@htaccessExtPhp_0_IT_NVC"));
    assert!(content.contains("rewrite * {file_match.relative}"));
    assert!(content.contains("@htaccessError404_0_IT_NVC"));
    assert!(content.contains("rewrite * /IT-NVC/404.php"));
}

#[test]
fn a_file_without_known_directives_gives_no_rule() {
    assert!(parse_htaccess_content("/x".to_string(), "/x".to_string(), "# nothing here\nHeader set X 1\n").is_none());
    let deny = parse_htaccess_content("/x".to_string(), "/x".to_string(), "Require all denied\n").expect("rule");
    assert!(deny.deny_all);
}

#[test]
fn deeper_prefixes_come_first() {
    let rules = discover_htaccess_rules(&vec![
        file(&["a"], "Options -Indexes\n"),
        file(&["a", "b"], "Options -Indexes\n"),
    ]);
    assert_eq!(rules.len(), 2);
    assert_eq!(rules[0].request_prefix, "/a/b");
    assert_eq!(rules[1].request_prefix, "/a");
}

#[test]
fn caddyfile_listens_on_the_web_port_and_forwards_php() {
    let content = generate_caddyfile("C:\\champ\\projects", "C:\\champ\\logs\\caddy.log", "C:\\champ\\adminer", &vec![], 8081, 9001);
    assert!(content.contains(":8081"));
    assert!(content.contains("127.0.0.1:9001"));
    assert!(content.contains("C:/champ/projects"));
    assert!(!content.contains('\\'));
}

#[test]
fn htaccess_comment_is_cut_and_line_trimmed() {
    assert_eq!(strip_htaccess_comment("  RewriteEngine On  # enable"), "RewriteEngine On");
    assert_eq!(strip_htaccess_comment("# only a comment"), "");
    assert_eq!(strip_htaccess_comment("\tOptions -Indexes\t"), "Options -Indexes");
}

#[test]
fn rewrite_rule_replacement_is_third_field_unquoted() {
    assert_eq!(rewrite_rule_replacement("RewriteRule ^(.*)$ \"$1.php\" [L]").as_deref(), Some("$1.php"));
    assert_eq!(rewrite_rule_replacement("RewriteRule ^ index.php"), Some("index.php".to_string()));
    assert_eq!(rewrite_rule_replacement("RewriteRule ^"), None);
    assert_eq!(rewrite_rule_replacement("RewriteRule ^ ''"), None);
}

#[test]
fn error_document_404_targets() {
    assert_eq!(parse_error_document_404("ErrorDocument 404 /404.php").as_deref(), Some("/404.php"));
    assert_eq!(parse_error_document_404("errordocument 404 \"missing.html\"").as_deref(), Some("missing.html"));
    assert_eq!(parse_error_document_404("ErrorDocument 404 / errors/404.php").as_deref(), Some("/errors/404.php"));
    assert_eq!(parse_error_document_404("ErrorDocument 500 /500.php"), None);
    assert_eq!(parse_error_document_404("ErrorDocument 404 https://example.com/"), None);
    assert_eq!(parse_error_document_404("ErrorDocument 404"), None);
    assert_eq!(parse_error_document_404("DirectoryIndex index.php"), None);
}

#[test]
fn directory_indexes_keep_php_entries() {
    assert_eq!(
        parse_php_directory_indexes("DirectoryIndex index.html 'app\\main.PHP' index.php"),
        vec!["app/main.PHP".to_string(), "index.php".to_string()]
    );
    assert!(parse_php_directory_indexes("DirectoryIndex index.html").is_empty());
}

#[test]
fn url_paths_join_and_trim() {
    assert_eq!(trim_slash("/demo//"), "/demo");
    assert_eq!(trim_slash("/"), "");
    assert_eq!(join_url_path("/", "/index.php"), "/index.php");
    assert_eq!(join_url_path("/demo/", ""), "/demo/");
    assert_eq!(join_url_path("/demo/", "//index.php"), "/demo/index.php");
}

#[test]
fn htaccess_targets_resolve_against_prefixes() {
    assert_eq!(resolve_htaccess_target("404.php", "/demo/public", "/demo"), "/demo/public/404.php");
    assert_eq!(resolve_htaccess_target("/404.php", "/demo/public", "/demo"), "/demo/404.php");
    assert_eq!(resolve_htaccess_target("/demo/404.php", "/demo/public", "/demo"), "/demo/404.php");
    assert_eq!(resolve_htaccess_target("/x\\y.php", "/", "/"), "/x/y.php");
}

#[test]
fn caddy_tokens_and_matchers() {
    assert_eq!(caddy_token("/demo"), "/demo");
    assert_eq!(caddy_token("/my \"app\""), "\"/my \\\"app\\\"\"");
    assert_eq!(caddy_path_matcher_line("/"), None);
    assert_eq!(caddy_path_matcher_line("/demo/").as_deref(), Some("        path /demo/ /demo/*\n"));
    assert_eq!(caddy_matcher_name("/IT-NVC/public", 3, "_fc"), "htaccess_fc_3_IT_NVC_public");
    assert_eq!(caddy_matcher_name("/", 0, ""), "htaccess_0");
}

fn parts(p: &[&str]) -> Vec<String> {
    p.iter().map(|c| c.to_string()).collect()
}

#[test]
fn request_and_project_prefixes() {
    assert_eq!(request_prefix_from_relative_path(&parts(&[])), "/");
    assert_eq!(request_prefix_from_relative_path(&parts(&["demo", "public"])), "/demo/public");
    assert_eq!(request_prefix_from_relative_path(&parts(&["a\\b", "", "c"])), "/a/b/c");
    assert_eq!(project_prefix_from_relative_path(&parts(&[])), "/");
    assert_eq!(project_prefix_from_relative_path(&parts(&["demo", "public"])), "/demo");
}

#[test]
fn rewrite_targets_are_classified() {
    assert!(is_front_controller_rewrite("index.php"));
    assert!(is_front_controller_rewrite("/index.php?route=$1"));
    assert!(is_front_controller_rewrite("public/index.php"));
    assert!(is_front_controller_rewrite("app/index.php?x=1"));
    assert!(!is_front_controller_rewrite("main.php"));
    assert!(is_extensionless_php_rewrite("$1.php"));
    assert!(is_extensionless_php_rewrite("${1}.php"));
    assert!(is_extensionless_php_rewrite("page.php"));
    assert!(!is_extensionless_php_rewrite("$1.html"));
}

#[test]
fn htaccess_files_parse_into_rules() {
    let rule = parse_htaccess_file(&parts(&["shop"]), "Order deny,allow\nDeny from all\n").expect("a rule");
    assert!(rule.deny_all);
    assert_eq!(rule.request_prefix, "/shop");
    let rule = parse_htaccess_file(&parts(&["blog"]), "Options -Indexes\nDirectoryIndex home.php\n").expect("a rule");
    assert!(rule.disable_indexes);
    assert_eq!(rule.directory_indexes, vec!["home.php".to_string()]);
    assert!(parse_htaccess_file(&parts(&["plain"]), "# nothing to map\nRewriteEngine On\n").is_none());
}

#[test]
fn rules_are_ordered_longest_prefix_first() {
    let mk = |p: &[&str]| parse_htaccess_file(&parts(p), "Deny from all").expect("a rule");
    let ordered = order_htaccess_rules(&vec![mk(&["b"]), mk(&["a", "x"]), mk(&[]), mk(&["a"])]);
    let prefixes: Vec<&str> = ordered.iter().map(|r| r.request_prefix.as_str()).collect();
    assert_eq!(prefixes, vec!["/a/x", "/a", "/b", "/"]);
}

#[test]
fn htaccess_search_steps() {
    assert!(matches!(htaccess_walk_step(true, true, "site", 0), WalkStep::Skip));
    assert!(matches!(htaccess_walk_step(false, true, "site", 0), WalkStep::Descend));
    assert!(matches!(htaccess_walk_step(false, true, "Node_Modules", 0), WalkStep::Skip));
    assert!(matches!(htaccess_walk_step(false, true, "deep", 12), WalkStep::Skip));
    assert!(matches!(htaccess_walk_step(false, true, "deep", 11), WalkStep::Descend));
    assert!(matches!(htaccess_walk_step(false, false, ".HTACCESS", 3), WalkStep::Collect));
    assert!(matches!(htaccess_walk_step(false, false, "index.php", 3), WalkStep::Skip));
}

#[test]
fn rule_prefixes_are_compared_by_byte_length() {
    let mk = |p: &[&str]| parse_htaccess_file(&parts(p), "Deny from all").expect("a rule");
    let ordered = order_htaccess_rules(&vec![mk(&["abcde"]), mk(&["ééé"])]);
    let prefixes: Vec<&str> = ordered.iter().map(|r| r.request_prefix.as_str()).collect();
    assert_eq!(prefixes, vec!["/ééé", "/abcde"]);
}
