//! The logic behind the commands of the user interface: project templates,
//! names, installed versions and the checks made before acting.

use vstd::prelude::*;
use crate::packages::{
    find_package, get_phpmyadmin_package, package_index, same_text, texts, tool_package_index, GenericPackage,
    PackagesConfig, PhpMyAdminPackage, PhpPackage,
};
use crate::downloader::{marker_version, marker_version_spec};
use crate::service::ServiceType;
use crate::text::{
    non_empty, split_nonempty, split_on,
    char_index, char_index_from, chars_of, is_ascii_alnum_spec, is_ascii_alphanumeric, join,
    join_chars, lower_char, push_chars, push_str, slice_of, starts_with, starts_with_chars,
    string_from_chars, to_ascii_lowercase, trim, trim_chars,
};

verus! {

broadcast use vstd::string::group_string_axioms;

/// Application paths as shown to the user interface.
#[derive(Debug)]
pub struct AppPathsDto {
    pub base_dir: String,
    pub portable: bool,
    pub runtime_dir: String,
    pub config_dir: String,
    pub mysql_data_dir: String,
    pub postgresql_data_dir: String,
    pub logs_dir: String,
    pub projects_dir: String,
}

/// A PHP version as the user interface lists it.
#[derive(Debug)]
pub struct InstalledPhpVersionDto {
    pub id: String,
    pub version: String,
    pub display_name: String,
    pub installed: bool,
    pub active: bool,
    pub eol: bool,
    pub lts: bool,
    pub recommended: bool,
    pub path: Option<String>,
}

/// Language and sound preferences.
#[derive(Debug)]
pub struct LanguageSettingsDto {
    pub language: String,
    pub sound_enabled: bool,
}

/// Supported project starter templates.
#[derive(Clone, Copy, Debug, PartialEq, Eq, Structural)]
pub enum ProjectTemplate {
    Static,
    Php,
    Node,
    Python,
    Go,
    Ruby,
}

/// What creating a starter project answers.
#[derive(Debug)]
pub struct ProjectScaffoldResult {
    pub name: String,
    pub template: String,
    pub path: String,
    pub entry_file: String,
}

/// A Unicode control character (general category Cc).
pub open spec fn is_control_spec(c: char) -> bool {
    let u = c as u32;
    u <= 0x1f || (0x7f <= u && u <= 0x9f)
}

/// A character that a folder name cannot hold.
pub open spec fn forbidden_in_name(c: char) -> bool {
    is_control_spec(c) || c == '<' || c == '>' || c == ':' || c == '"' || c == '/' || c == '\\' || c == '|'
        || c == '?' || c == '*'
}

/// What validating a project name answers: the trimmed name, or why it is
/// refused.
pub open spec fn project_name_check(name: Seq<char>) -> Result<Seq<char>, Seq<char>> {
    let n = trim(name);
    if n.len() == 0 {
        Err("Project name is required"@)
    } else if n == "."@ || n == ".."@ {
        Err("Project name cannot be '.' or '..'"@)
    } else if exists|i: int| 0 <= i < n.len() && forbidden_in_name(#[trigger] n[i]) {
        Err("Project name contains characters that are not valid in a folder name"@)
    } else {
        Ok(n)
    }
}

/// Validates a project name: it is trimmed, and must be neither empty nor
/// `.` or `..`, and hold no control character and none of `<>:"/\|?*`.
pub fn validate_project_name(project_name: &str) -> (r: Result<String, String>)
    ensures
        match project_name_check(project_name@) {
            Ok(n) => r matches Ok(x) && x@ == n,
            Err(m) => r matches Err(e) && e@ == m,
        },
{
    let n = trim_chars(chars_of(project_name).as_slice());
    if n.len() == 0 {
        return Err("Project name is required".to_string());
    }
    let dot = chars_of(".");
    let dots = chars_of("..");
    if crate::text::eq_chars(n.as_slice(), dot.as_slice()) || crate::text::eq_chars(n.as_slice(), dots.as_slice()) {
        return Err("Project name cannot be '.' or '..'".to_string());
    }
    let mut i: usize = 0;
    while i < n.len()
        invariant
            i <= n.len(),
            n@ == trim(project_name@),
            n@.len() > 0,
            n@ != "."@,
            n@ != ".."@,
            forall|k: int| 0 <= k < i ==> !forbidden_in_name(#[trigger] n@[k]),
        decreases n.len() - i,
    {
        let c = n[i];
        let u = c as u32;
        if u <= 0x1f || (0x7f <= u && u <= 0x9f) || c == '<' || c == '>' || c == ':' || c == '"' || c == '/'
            || c == '\\' || c == '|' || c == '?' || c == '*' {
            assert(forbidden_in_name(n@[i as int]));
            return Err("Project name contains characters that are not valid in a folder name".to_string());
        }
        i = i + 1;
    }
    Ok(string_from_chars(n.as_slice()))
}

/// The id of a template.
pub open spec fn template_id(t: ProjectTemplate) -> Seq<char> {
    match t {
        ProjectTemplate::Static => "static"@,
        ProjectTemplate::Php => "php"@,
        ProjectTemplate::Node => "node"@,
        ProjectTemplate::Python => "python"@,
        ProjectTemplate::Go => "go"@,
        ProjectTemplate::Ruby => "ruby"@,
    }
}

/// The id of a template.
pub fn project_template_id(template: ProjectTemplate) -> (s: &'static str)
    ensures
        s@ == template_id(template),
{
    match template {
        ProjectTemplate::Static => "static",
        ProjectTemplate::Php => "php",
        ProjectTemplate::Node => "node",
        ProjectTemplate::Python => "python",
        ProjectTemplate::Go => "go",
        ProjectTemplate::Ruby => "ruby",
    }
}

/// The file a new project of a template opens with.
pub open spec fn template_entry(t: ProjectTemplate) -> Seq<char> {
    match t {
        ProjectTemplate::Static => "index.html"@,
        ProjectTemplate::Php => "index.php"@,
        _ => "README.md"@,
    }
}

/// The file a new project of a template opens with.
pub fn project_entry_file(template: ProjectTemplate) -> (s: &'static str)
    ensures
        s@ == template_entry(template),
{
    match template {
        ProjectTemplate::Static => "index.html",
        ProjectTemplate::Php => "index.php",
        ProjectTemplate::Node => "README.md",
        ProjectTemplate::Python => "README.md",
        ProjectTemplate::Go => "README.md",
        ProjectTemplate::Ruby => "README.md",
    }
}

/// A character of a package name: ASCII letters and digits in lowercase,
/// anything else a dash.
pub open spec fn slug_char(c: char) -> char {
    if is_ascii_alnum_spec(c) {
        lower_char(c)
    } else {
        '-'
    }
}

/// A package name made of a project name: its ASCII letters and digits in
/// lowercase, every other run of characters one dash, none at either end;
/// `champ-node-project` where nothing is left.
pub open spec fn package_slug(name: Seq<char>) -> Seq<char> {
    let mapped = Seq::new(name.len(), |i: int| slug_char(name[i]));
    let j = join(non_empty(split_on(mapped, '-')), "-"@);
    if j.len() == 0 {
        "champ-node-project"@
    } else {
        j
    }
}

/// A package name made of a project name.
pub fn package_name_slug(name: &str) -> (s: String)
    ensures
        s@ == package_slug(name@),
{
    let n = chars_of(name);
    let mut mapped: Vec<char> = Vec::new();
    let mut i: usize = 0;
    while i < n.len()
        invariant
            i <= n.len(),
            mapped@ == Seq::new(i as nat, |k: int| slug_char(n@[k])),
        decreases n.len() - i,
    {
        let c = n[i];
        let m = if is_ascii_alphanumeric(c) {
            to_ascii_lowercase(c)
        } else {
            '-'
        };
        mapped.push(m);
        assert(mapped@ =~= Seq::new((i + 1) as nat, |k: int| slug_char(n@[k])));
        i = i + 1;
    }
    let ghost full = mapped@;
    assert(full =~= Seq::new(name@.len(), |k: int| slug_char(name@[k])));
    let parts = split_nonempty(mapped.as_slice(), '-');
    let dash = ['-'];
    let j = join_chars(&parts, &dash);
    assert(dash@ =~= "-"@) by {
        reveal_strlit("-");
    }
    if j.len() == 0 {
        "champ-node-project".to_string()
    } else {
        string_from_chars(j.as_slice())
    }
}

/// `a`, then `x`, then `b`.
fn fill2(a: &str, x: &str, b: &str) -> (s: String)
    ensures
        s@ == a@ + x@ + b@,
{
    let mut s = String::new();
    push_str(&mut s, a);
    push_str(&mut s, x);
    push_str(&mut s, b);
    s
}

/// `a`, `x`, `b`, `x`, `c`.
fn fill3(a: &str, x: &str, b: &str, c: &str) -> (s: String)
    ensures
        s@ == a@ + x@ + b@ + x@ + c@,
{
    let mut s = fill2(a, x, b);
    push_str(&mut s, x);
    push_str(&mut s, c);
    s
}

/// The files of a new project of a template, by relative path.
pub open spec fn template_files(template: ProjectTemplate, name: Seq<char>) -> Seq<(Seq<char>, Seq<char>)> {
    match template {
        ProjectTemplate::Static => seq![("index.html"@, "<!doctype html>\n<html lang=\"en\">\n  <head>\n    <meta charset=\"utf-8\" />\n    <meta name=\"viewport\" content=\"width=device-width, initial-scale=1\" />\n    <title>"@ + name + "</title>\n    <link rel=\"stylesheet\" href=\"./styles.css\" />\n  </head>\n  <body>\n    <main>\n      <h1>"@ + name + "</h1>\n      <p>Static project served from the CHAMP projects folder.</p>\n    </main>\n    <script src=\"./script.js\"></script>\n  </body>\n</html>\n"@), ("styles.css"@, "body { margin: 0; min-height: 100vh; display: grid; place-items: center; font-family: system-ui, sans-serif; background: #f8fafc; color: #111827; }\nmain { width: min(720px, calc(100vw - 32px)); }\n"@), ("script.js"@, "console.log('CHAMP static project ready');\n"@)],
        ProjectTemplate::Php => seq![("index.php"@, "<?php\n$projectName = \""@ + name + "\";\n?>\n<!doctype html>\n<html lang=\"en\">\n  <head>\n    <meta charset=\"utf-8\" />\n    <meta name=\"viewport\" content=\"width=device-width, initial-scale=1\" />\n    <title><?= htmlspecialchars($projectName) ?></title>\n  </head>\n  <body>\n    <h1><?= htmlspecialchars($projectName) ?></h1>\n    <p>PHP <?= phpversion() ?> is running through CHAMP.</p>\n  </body>\n</html>\n"@)],
        ProjectTemplate::Node => seq![("package.json"@, "{\n  \"name\": \""@ + package_slug(name) + "\",\n  \"private\": true,\n  \"type\": \"module\",\n  \"scripts\": {\n    \"dev\": \"node src/server.js\"\n  }\n}\n"@), ("src/server.js"@, "import { createServer } from 'node:http';\n\nconst port = Number(process.env.PORT || 3000);\n\ncreateServer((_req, res) => {\n  res.writeHead(200, { 'content-type': 'text/plain; charset=utf-8' });\n  res.end('Node project ready from CHAMP workspace\\n');\n}).listen(port, () => {\n  console.log(`Node app running at http://localhost:${port}`);\n});\n"@), ("README.md"@, "# Node starter\n\nRun `npm run dev` from this folder. CHAMP keeps the project with the rest of your local web workspace.\n"@)],
        ProjectTemplate::Python => seq![("app.py"@, "from http.server import ThreadingHTTPServer, SimpleHTTPRequestHandler\n\nPORT = 5000\n\nif __name__ == \"__main__\":\n    server = ThreadingHTTPServer((\"127.0.0.1\", PORT), SimpleHTTPRequestHandler)\n    print(f\"Python app running at http://127.0.0.1:{PORT}\")\n    server.serve_forever()\n"@), ("README.md"@, "# Python starter\n\nRun `python app.py` from this folder. CHAMP keeps the project with the rest of your local web workspace.\n"@)],
        ProjectTemplate::Go => seq![("main.go"@, "package main\n\nimport (\n\t\"fmt\"\n\t\"net/http\"\n)\n\nfunc main() {\n\thttp.HandleFunc(\"/\", func(w http.ResponseWriter, r *http.Request) {\n\t\tfmt.Fprintf(w, \"Go project ready from CHAMP workspace\\n\")\n\t})\n\n\tport := \":8080\"\n\tfmt.Printf(\"Go server listening on %s\\n\", port)\n\thttp.ListenAndServe(port, nil)\n}\n"@), ("go.mod"@, "module "@ + package_slug(name) + "\n\ngo 1.21\n"@), ("README.md"@, "# Go starter\n\nRun `go run main.go` from this folder. CHAMP keeps the project with the rest of your local web workspace.\n"@)],
        ProjectTemplate::Ruby => seq![("app.rb"@, "require 'webrick'\n\nserver = WEBrick::HTTPServer.new(Port: 4567)\n\nserver.mount_proc '/' do |req, res|\n  res.body = \"Ruby project ready from CHAMP workspace\\n\"\nend\n\nputs \"Ruby server running at http://localhost:4567\"\nserver.start\n"@), ("README.md"@, "# Ruby starter\n\nRun `ruby app.rb` from this folder. CHAMP keeps the project with the rest of your local web workspace.\n"@)],
    }
}

/// The files of a new project of a template named `name`, by relative path.
pub fn project_template_files(template: ProjectTemplate, name: &str) -> (v: Vec<(String, String)>)
    ensures
        v@.map_values(|p: (String, String)| (p.0@, p.1@)) == template_files(template, name@),
{
    let slug = package_name_slug(name);
    let v: Vec<(String, String)> = match template {
        ProjectTemplate::Static => vec![("index.html".to_string(), fill3("<!doctype html>\n<html lang=\"en\">\n  <head>\n    <meta charset=\"utf-8\" />\n    <meta name=\"viewport\" content=\"width=device-width, initial-scale=1\" />\n    <title>", name, "</title>\n    <link rel=\"stylesheet\" href=\"./styles.css\" />\n  </head>\n  <body>\n    <main>\n      <h1>", "</h1>\n      <p>Static project served from the CHAMP projects folder.</p>\n    </main>\n    <script src=\"./script.js\"></script>\n  </body>\n</html>\n")), ("styles.css".to_string(), "body { margin: 0; min-height: 100vh; display: grid; place-items: center; font-family: system-ui, sans-serif; background: #f8fafc; color: #111827; }\nmain { width: min(720px, calc(100vw - 32px)); }\n".to_string()), ("script.js".to_string(), "console.log('CHAMP static project ready');\n".to_string())],
        ProjectTemplate::Php => vec![("index.php".to_string(), fill2("<?php\n$projectName = \"", name, "\";\n?>\n<!doctype html>\n<html lang=\"en\">\n  <head>\n    <meta charset=\"utf-8\" />\n    <meta name=\"viewport\" content=\"width=device-width, initial-scale=1\" />\n    <title><?= htmlspecialchars($projectName) ?></title>\n  </head>\n  <body>\n    <h1><?= htmlspecialchars($projectName) ?></h1>\n    <p>PHP <?= phpversion() ?> is running through CHAMP.</p>\n  </body>\n</html>\n"))],
        ProjectTemplate::Node => vec![("package.json".to_string(), fill2("{\n  \"name\": \"", slug.as_str(), "\",\n  \"private\": true,\n  \"type\": \"module\",\n  \"scripts\": {\n    \"dev\": \"node src/server.js\"\n  }\n}\n")), ("src/server.js".to_string(), "import { createServer } from 'node:http';\n\nconst port = Number(process.env.PORT || 3000);\n\ncreateServer((_req, res) => {\n  res.writeHead(200, { 'content-type': 'text/plain; charset=utf-8' });\n  res.end('Node project ready from CHAMP workspace\\n');\n}).listen(port, () => {\n  console.log(`Node app running at http://localhost:${port}`);\n});\n".to_string()), ("README.md".to_string(), "# Node starter\n\nRun `npm run dev` from this folder. CHAMP keeps the project with the rest of your local web workspace.\n".to_string())],
        ProjectTemplate::Python => vec![("app.py".to_string(), "from http.server import ThreadingHTTPServer, SimpleHTTPRequestHandler\n\nPORT = 5000\n\nif __name__ == \"__main__\":\n    server = ThreadingHTTPServer((\"127.0.0.1\", PORT), SimpleHTTPRequestHandler)\n    print(f\"Python app running at http://127.0.0.1:{PORT}\")\n    server.serve_forever()\n".to_string()), ("README.md".to_string(), "# Python starter\n\nRun `python app.py` from this folder. CHAMP keeps the project with the rest of your local web workspace.\n".to_string())],
        ProjectTemplate::Go => vec![("main.go".to_string(), "package main\n\nimport (\n\t\"fmt\"\n\t\"net/http\"\n)\n\nfunc main() {\n\thttp.HandleFunc(\"/\", func(w http.ResponseWriter, r *http.Request) {\n\t\tfmt.Fprintf(w, \"Go project ready from CHAMP workspace\\n\")\n\t})\n\n\tport := \":8080\"\n\tfmt.Printf(\"Go server listening on %s\\n\", port)\n\thttp.ListenAndServe(port, nil)\n}\n".to_string()), ("go.mod".to_string(), fill2("module ", slug.as_str(), "\n\ngo 1.21\n")), ("README.md".to_string(), "# Go starter\n\nRun `go run main.go` from this folder. CHAMP keeps the project with the rest of your local web workspace.\n".to_string())],
        ProjectTemplate::Ruby => vec![("app.rb".to_string(), "require 'webrick'\n\nserver = WEBrick::HTTPServer.new(Port: 4567)\n\nserver.mount_proc '/' do |req, res|\n  res.body = \"Ruby project ready from CHAMP workspace\\n\"\nend\n\nputs \"Ruby server running at http://localhost:4567\"\nserver.start\n".to_string()), ("README.md".to_string(), "# Ruby starter\n\nRun `ruby app.rb` from this folder. CHAMP keeps the project with the rest of your local web workspace.\n".to_string())],
    };
    assert(v@.map_values(|p: (String, String)| (p.0@, p.1@)) =~= template_files(template, name@));
    v
}

/// A static project's page shows the project's name as it was typed, in its
/// title and in its heading.
pub proof fn lemma_static_page_shows_the_name(name: Seq<char>)
    ensures
        template_files(ProjectTemplate::Static, name).len() == 3,
        template_files(ProjectTemplate::Static, name)[0].0 == "index.html"@,
        crate::text::contains(template_files(ProjectTemplate::Static, name)[0].1, "<title>"@ + name + "</title>"@),
        crate::text::contains(template_files(ProjectTemplate::Static, name)[0].1, "<h1>"@ + name + "</h1>"@),
{
    let a = "<!doctype html>\n<html lang=\"en\">\n  <head>\n    <meta charset=\"utf-8\" />\n    <meta name=\"viewport\" content=\"width=device-width, initial-scale=1\" />\n    <title>"@;
    let b = "</title>\n    <link rel=\"stylesheet\" href=\"./styles.css\" />\n  </head>\n  <body>\n    <main>\n      <h1>"@;
    let c = "</h1>\n      <p>Static project served from the CHAMP projects folder.</p>\n    </main>\n    <script src=\"./script.js\"></script>\n  </body>\n</html>\n"@;
    reveal_strlit("<!doctype html>\n<html lang=\"en\">\n  <head>\n    <meta charset=\"utf-8\" />\n    <meta name=\"viewport\" content=\"width=device-width, initial-scale=1\" />\n    <title>");
    reveal_strlit("</title>\n    <link rel=\"stylesheet\" href=\"./styles.css\" />\n  </head>\n  <body>\n    <main>\n      <h1>");
    reveal_strlit("</h1>\n      <p>Static project served from the CHAMP projects folder.</p>\n    </main>\n    <script src=\"./script.js\"></script>\n  </body>\n</html>\n");
    reveal_strlit("<title>");
    reveal_strlit("</title>");
    reveal_strlit("<h1>");
    reveal_strlit("</h1>");
    let page = template_files(ProjectTemplate::Static, name)[0].1;
    assert(page == a + name + b + name + c);
    assert(a.skip(a.len() - 7) =~= "<title>"@);
    assert(crate::text::ends_with(a, "<title>"@));
    assert(b.take(8) =~= "</title>"@);
    assert(crate::text::starts_with(b, "</title>"@));
    assert(b.skip(b.len() - 4) =~= "<h1>"@);
    assert(crate::text::ends_with(b, "<h1>"@));
    assert(c.take(5) =~= "</h1>"@);
    assert(crate::text::starts_with(c, "</h1>"@));
    crate::text::lemma_occurs_enclosed(a, name, b, "<title>"@, "</title>"@);
    crate::text::lemma_occurs_within(Seq::empty(), a + name + b, name + c, "<title>"@ + name + "</title>"@, a.len() - 7);
    assert(Seq::<char>::empty() + (a + name + b) + (name + c) =~= page);
    crate::text::lemma_occurs_enclosed(b, name, c, "<h1>"@, "</h1>"@);
    crate::text::lemma_occurs_within(a + name, b + name + c, Seq::empty(), "<h1>"@ + name + "</h1>"@, b.len() - 4);
    assert((a + name) + (b + name + c) + Seq::<char>::empty() =~= page);
}

/// A PHP project's page keeps the project's name as it was typed.
pub proof fn lemma_php_page_keeps_the_name(name: Seq<char>)
    ensures
        template_files(ProjectTemplate::Php, name).len() == 1,
        template_files(ProjectTemplate::Php, name)[0].0 == "index.php"@,
        crate::text::contains(
            template_files(ProjectTemplate::Php, name)[0].1,
            "$projectName = \""@ + name + "\";"@,
        ),
{
    let a = "<?php\n$projectName = \""@;
    let b = "\";\n?>\n<!doctype html>\n<html lang=\"en\">\n  <head>\n    <meta charset=\"utf-8\" />\n    <meta name=\"viewport\" content=\"width=device-width, initial-scale=1\" />\n    <title><?= htmlspecialchars($projectName) ?></title>\n  </head>\n  <body>\n    <h1><?= htmlspecialchars($projectName) ?></h1>\n    <p>PHP <?= phpversion() ?> is running through CHAMP.</p>\n  </body>\n</html>\n"@;
    reveal_strlit("<?php\n$projectName = \"");
    reveal_strlit("\";\n?>\n<!doctype html>\n<html lang=\"en\">\n  <head>\n    <meta charset=\"utf-8\" />\n    <meta name=\"viewport\" content=\"width=device-width, initial-scale=1\" />\n    <title><?= htmlspecialchars($projectName) ?></title>\n  </head>\n  <body>\n    <h1><?= htmlspecialchars($projectName) ?></h1>\n    <p>PHP <?= phpversion() ?> is running through CHAMP.</p>\n  </body>\n</html>\n");
    reveal_strlit("$projectName = \"");
    reveal_strlit("\";");
    let page = template_files(ProjectTemplate::Php, name)[0].1;
    assert(page == a + name + b);
    assert(a.skip(a.len() - 16) =~= "$projectName = \""@);
    assert(crate::text::ends_with(a, "$projectName = \""@));
    assert(b.take(2) =~= "\";"@);
    assert(crate::text::starts_with(b, "\";"@));
    crate::text::lemma_occurs_enclosed(a, name, b, "$projectName = \""@, "\";"@);
    crate::text::lemma_occurs_within(Seq::empty(), a + name + b, Seq::empty(), "$projectName = \""@ + name + "\";"@, a.len() - 16);
    assert(Seq::<char>::empty() + (a + name + b) + Seq::<char>::empty() =~= page);
}

/// A Node project's manifest is named with the npm-safe package name made
/// of the project name.
pub proof fn lemma_node_manifest_uses_the_package_name(name: Seq<char>)
    ensures
        template_files(ProjectTemplate::Node, name)[0].0 == "package.json"@,
        crate::text::contains(
            template_files(ProjectTemplate::Node, name)[0].1,
            "\"name\": \""@ + package_slug(name) + "\","@,
        ),
{
    let a = "{\n  \"name\": \""@;
    let b = "\",\n  \"private\": true,\n  \"type\": \"module\",\n  \"scripts\": {\n    \"dev\": \"node src/server.js\"\n  }\n}\n"@;
    let slug = package_slug(name);
    reveal_strlit("{\n  \"name\": \"");
    reveal_strlit("\",\n  \"private\": true,\n  \"type\": \"module\",\n  \"scripts\": {\n    \"dev\": \"node src/server.js\"\n  }\n}\n");
    reveal_strlit("\"name\": \"");
    reveal_strlit("\",");
    let page = template_files(ProjectTemplate::Node, name)[0].1;
    assert(page == a + slug + b);
    assert(a.skip(a.len() - 9) =~= "\"name\": \""@);
    assert(b.take(2) =~= "\","@);
    crate::text::lemma_occurs_enclosed(a, slug, b, "\"name\": \""@, "\","@);
    crate::text::lemma_occurs_within(Seq::empty(), a + slug + b, Seq::empty(), "\"name\": \""@ + slug + "\","@, a.len() - 9);
    assert(Seq::<char>::empty() + (a + slug + b) + Seq::<char>::empty() =~= page);
}

/// A Go project's module is named with the package name made of the project
/// name.
pub proof fn lemma_go_module_uses_the_package_name(name: Seq<char>)
    ensures
        template_files(ProjectTemplate::Go, name)[1].0 == "go.mod"@,
        crate::text::starts_with(template_files(ProjectTemplate::Go, name)[1].1, "module "@ + package_slug(name) + "\n"@),
{
    reveal_strlit("\n\ngo 1.21\n");
    reveal_strlit("\n");
    let m = template_files(ProjectTemplate::Go, name)[1].1;
    assert(m == "module "@ + package_slug(name) + "\n\ngo 1.21\n"@);
    assert(m.take(("module "@ + package_slug(name) + "\n"@).len() as int) =~= "module "@ + package_slug(name) + "\n"@);
}

/// Whether a database tool id names Adminer (the PostgreSQL tool).
pub open spec fn is_adminer(tool_id: Seq<char>) -> bool {
    starts_with(tool_id, "adminer"@)
}

/// Whether a database tool id names Adminer.
pub fn adminer_selected(tool_id: &str) -> (b: bool)
    ensures
        b == is_adminer(tool_id@),
{
    let v = chars_of(tool_id);
    let p = chars_of("adminer");
    starts_with_chars(v.as_slice(), p.as_slice())
}

/// The files, relative to the runtime folder, any one of which shows that a
/// database tool is installed.
pub open spec fn tool_files(tool_id: Seq<char>) -> Seq<Seq<char>> {
    if is_adminer(tool_id) {
        seq!["adminer/index.php"@, "adminer.php"@]
    } else {
        seq!["phpmyadmin/index.php"@]
    }
}

/// The files, relative to the runtime folder, any one of which shows that the
/// database that a tool serves is installed.
pub open spec fn database_files(tool_id: Seq<char>) -> Seq<Seq<char>> {
    if is_adminer(tool_id) {
        seq![
            "postgresql_installed.txt"@,
            "postgresql/bin/postgres.exe"@,
            "postgresql/bin/postgres"@,
            "bin/postgres.exe"@,
            "bin/postgres"@,
        ]
    } else {
        seq![
            "mysql_installed.txt"@,
            "mysql/bin/mysqld.exe"@,
            "mysql/bin/mysqld"@,
            "bin/mysqld.exe"@,
            "bin/mysqld"@,
        ]
    }
}

/// Strings of a list of literals.
pub(crate) fn strings_of(v: &[&str]) -> (r: Vec<String>)
    ensures
        r@.len() == v@.len(),
        forall|i: int| 0 <= i < v@.len() ==> (#[trigger] r@[i])@ == v@[i]@,
{
    let mut r: Vec<String> = Vec::new();
    let mut i: usize = 0;
    while i < v.len()
        invariant
            i <= v@.len(),
            r@.len() == i,
            forall|k: int| 0 <= k < i ==> (#[trigger] r@[k])@ == v@[k]@,
        decreases v.len() - i,
    {
        r.push(v[i].to_string());
        i = i + 1;
    }
    r
}

/// The files that show a database tool installed.
pub fn database_tool_files(tool_id: &str) -> (r: Vec<String>)
    ensures
        texts(r@) == tool_files(tool_id@),
{
    let r = if adminer_selected(tool_id) {
        strings_of(&["adminer/index.php", "adminer.php"])
    } else {
        strings_of(&["phpmyadmin/index.php"])
    };
    assert(texts(r@) =~= tool_files(tool_id@));
    r
}

/// The files that show the database behind a tool installed.
pub fn selected_database_files(tool_id: &str) -> (r: Vec<String>)
    ensures
        texts(r@) == database_files(tool_id@),
{
    let r = if adminer_selected(tool_id) {
        strings_of(
            &[
                "postgresql_installed.txt",
                "postgresql/bin/postgres.exe",
                "postgresql/bin/postgres",
                "bin/postgres.exe",
                "bin/postgres",
            ],
        )
    } else {
        strings_of(
            &[
                "mysql_installed.txt",
                "mysql/bin/mysqld.exe",
                "mysql/bin/mysqld",
                "bin/mysqld.exe",
                "bin/mysqld",
            ],
        )
    };
    assert(texts(r@) =~= database_files(tool_id@));
    r
}

/// Whether any of `files` is present, by what `present` answers for each; it
/// is asked in order, and no further once it answers `true`.
pub fn any_present<F: Fn(&String) -> bool>(files: &Vec<String>, present: &F) -> (b: bool)
    requires
        forall|i: int| 0 <= i < files@.len() ==> call_requires(*present, (&#[trigger] files@[i],)),
    ensures
        b ==> exists|i: int| 0 <= i < files@.len() && call_ensures(*present, (&#[trigger] files@[i],), true),
        !b ==> forall|i: int| 0 <= i < files@.len() ==> call_ensures(*present, (&#[trigger] files@[i],), false),
{
    let mut i: usize = 0;
    while i < files.len()
        invariant
            i <= files@.len(),
            forall|k: int| 0 <= k < files@.len() ==> call_requires(*present, (&#[trigger] files@[k],)),
            forall|k: int| 0 <= k < i ==> call_ensures(*present, (&#[trigger] files@[k],), false),
        decreases files.len() - i,
    {
        if present(&files[i]) {
            return true;
        }
        i = i + 1;
    }
    false
}

/// The components that installing a database tool leaves alone: the web
/// stack, and the database and tool of the other kind.
pub open spec fn tool_skip_list(tool_id: Seq<char>) -> Seq<Seq<char>> {
    if is_adminer(tool_id) {
        seq!["caddy"@, "php"@, "mysql"@, "phpmyadmin"@]
    } else {
        seq!["caddy"@, "php"@, "postgresql"@, "adminer"@]
    }
}

/// The components that installing a database tool leaves alone.
pub fn database_tool_skip_list(tool_id: &str) -> (r: Vec<String>)
    ensures
        texts(r@) == tool_skip_list(tool_id@),
{
    let r = if adminer_selected(tool_id) {
        strings_of(&["caddy", "php", "mysql", "phpmyadmin"])
    } else {
        strings_of(&["caddy", "php", "postgresql", "adminer"])
    };
    assert(texts(r@) =~= tool_skip_list(tool_id@));
    r
}

/// The components that installing a PHP version leaves alone.
pub fn php_version_skip_list() -> (r: Vec<String>)
    ensures
        texts(r@) == seq!["caddy"@, "mysql"@, "postgresql"@, "adminer"@, "phpmyadmin"@],
{
    let r = strings_of(&["caddy", "mysql", "postgresql", "adminer", "phpmyadmin"]);
    assert(texts(r@) =~= seq!["caddy"@, "mysql"@, "postgresql"@, "adminer"@, "phpmyadmin"@]);
    r
}

/// `prefix`, then `x`, then `suffix`.
fn message(prefix: &str, x: &str, suffix: &str) -> (s: String)
    ensures
        s@ == prefix@ + x@ + suffix@,
{
    fill2(prefix, x, suffix)
}

/// The database tool that a selection names, or the error that none of the
/// catalog's tools has its id.
pub fn find_database_tool(packages: &PackagesConfig, tool_id: &str) -> (r: Result<PhpMyAdminPackage, String>)
    ensures
        match tool_package_index(packages.phpmyadmin@, tool_id@) {
            Some(i) => r == Ok::<PhpMyAdminPackage, String>(packages.phpmyadmin@[i]),
            None => r matches Err(e) && e@ == "Unknown database tool: "@ + tool_id@,
        },
{
    match get_phpmyadmin_package(packages, tool_id) {
        Some(p) => Ok(p),
        None => {
            let e = message("Unknown database tool: ", tool_id, "");
            assert(e@ =~= "Unknown database tool: "@ + tool_id@) by {
                reveal_strlit("");
            }
            Err(e)
        },
    }
}

/// What is said when a database tool was fetched and its files are still
/// missing.
pub fn tool_still_missing_message(display_name: &str, runtime_dir: &str) -> (s: String)
    ensures
        s@ == display_name@ + " was downloaded, but CHAMP could not find all required files in "@
            + runtime_dir@,
{
    let mut s = String::new();
    push_str(&mut s, display_name);
    push_str(&mut s, " was downloaded, but CHAMP could not find all required files in ");
    push_str(&mut s, runtime_dir);
    s
}

/// Whether a language is one the interface offers.
pub open spec fn supported_language(language: Seq<char>) -> bool {
    language == "en"@ || language == "th"@
}

/// Checks a language before it is saved: English and Thai are offered.
pub fn check_language(language: &str) -> (r: Result<(), String>)
    ensures
        supported_language(language@) ==> r is Ok,
        !supported_language(language@) ==> (r matches Err(e) && e@ == "Unsupported language: "@ + language@),
{
    let v = chars_of(language);
    let en = chars_of("en");
    let th = chars_of("th");
    if crate::text::eq_chars(v.as_slice(), en.as_slice()) || crate::text::eq_chars(v.as_slice(), th.as_slice()) {
        Ok(())
    } else {
        let e = message("Unsupported language: ", language, "");
        assert(e@ =~= "Unsupported language: "@ + language@) by {
            reveal_strlit("");
        }
        Err(e)
    }
}

/// Whether the web stack runs among the running services.
pub open spec fn stack_running(running: Seq<ServiceType>) -> bool {
    running.contains(ServiceType::Caddy) || running.contains(ServiceType::PhpFpm)
}

/// Whether the web server or PHP is among the running services; saving
/// settings then restarts the whole stack, and otherwise each running
/// database on its own.
pub fn web_stack_was_running(running: &Vec<ServiceType>) -> (b: bool)
    ensures
        b == stack_running(running@),
{
    let mut i: usize = 0;
    while i < running.len()
        invariant
            i <= running@.len(),
            forall|k: int| 0 <= k < i ==> running@[k] != ServiceType::Caddy && running@[k] != ServiceType::PhpFpm,
        decreases running.len() - i,
    {
        if running[i] == ServiceType::Caddy || running[i] == ServiceType::PhpFpm {
            assert(running@[i as int] == ServiceType::Caddy ==> running@.contains(ServiceType::Caddy));
            assert(running@[i as int] == ServiceType::PhpFpm ==> running@.contains(ServiceType::PhpFpm));
            return true;
        }
        i = i + 1;
    }
    false
}

/// The version a marker's contents record, if the marker was read.
pub open spec fn read_marker(content: Option<Seq<char>>) -> Option<Seq<char>> {
    match content {
        Some(c) => marker_version_spec(c),
        None => None,
    }
}

/// The view of an optional string.
pub open spec fn opt_view(o: Option<String>) -> Option<Seq<char>> {
    match o {
        Some(s) => Some(s@),
        None => None,
    }
}

/// Whether a PHP version counts as installed: its own marker records a
/// version, or the single-version marker records exactly its version.
pub open spec fn php_installed(own: Option<Seq<char>>, legacy: Option<Seq<char>>, version: Seq<char>) -> bool {
    own is Some || legacy == Some(version)
}

/// The version read from a marker's contents, if it was read.
fn read_marker_version(content: &Option<String>) -> (r: Option<String>)
    ensures
        opt_view(r) == read_marker(opt_view(*content)),
{
    match content {
        Some(c) => marker_version(c.as_str()),
        None => None,
    }
}

/// How the interface lists one PHP version of the catalog: `own_marker` is
/// what its own installed marker holds, `legacy_marker` what the marker of a
/// single PHP install holds (each `None` where there is none), `path` its
/// folder where that exists.
pub fn installed_php_version(
    package: &PhpPackage,
    own_marker: &Option<String>,
    legacy_marker: &Option<String>,
    active_php: &str,
    path: Option<String>,
) -> (d: InstalledPhpVersionDto)
    ensures
        d.id@ == package.id@,
        d.version@ == (match read_marker(opt_view(*own_marker)) {
            Some(v) => v,
            None => package.version@,
        }),
        d.display_name@ == package.display_name@,
        d.installed == php_installed(
            read_marker(opt_view(*own_marker)),
            read_marker(opt_view(*legacy_marker)),
            package.version@,
        ),
        d.active == (active_php@ == package.id@),
        d.eol == package.eol,
        d.lts == package.lts,
        d.recommended == package.recommended,
        d.path == path,
{
    let own = read_marker_version(own_marker);
    let legacy = read_marker_version(legacy_marker);
    let legacy_matches = match &legacy {
        Some(v) => same_text(v.as_str(), package.version.as_str()),
        None => false,
    };
    let installed = own.is_some() || legacy_matches;
    let version = match own {
        Some(v) => v,
        None => package.version.clone(),
    };
    InstalledPhpVersionDto {
        id: package.id.clone(),
        version,
        display_name: package.display_name.clone(),
        installed,
        active: same_text(active_php, package.id.as_str()),
        eol: package.eol,
        lts: package.lts,
        recommended: package.recommended,
        path,
    }
}

/// The index of the first listed PHP version with the given id.
pub open spec fn listed_index(v: Seq<InstalledPhpVersionDto>, id: Seq<char>) -> Option<int> {
    if exists|i: int| 0 <= i < v.len() && #[trigger] v[i].id@ == id {
        Some(
            choose|i: int|
                0 <= i < v.len() && #[trigger] v[i].id@ == id && forall|j: int|
                    0 <= j < i ==> v[j].id@ != id,
        )
    } else {
        None
    }
}

/// What switching to a PHP version answers before anything is stopped: an
/// unknown id and a version not installed are refused.
pub open spec fn php_switch_check(
    catalog: Seq<GenericPackage>,
    listed: Seq<InstalledPhpVersionDto>,
    php_id: Seq<char>,
) -> Result<(), Seq<char>> {
    if package_index(catalog, php_id) is None {
        Err("Unknown PHP version: "@ + php_id)
    } else {
        match listed_index(listed, php_id) {
            None => Err("Unknown PHP version: "@ + php_id),
            Some(i) => if listed[i].installed {
                Ok(())
            } else {
                Err(listed[i].display_name@ + " is not installed yet. Install it before switching."@)
            },
        }
    }
}

/// Checks a PHP version id against the catalog before it is installed.
pub fn check_php_known(packages: &PackagesConfig, php_id: &str) -> (r: Result<(), String>)
    ensures
        package_index(packages.php@, php_id@) is Some ==> r is Ok,
        package_index(packages.php@, php_id@) is None ==> (r matches Err(e) && e@ == "Unknown PHP version: "@
            + php_id@),
{
    match find_package(&packages.php, php_id) {
        Some(_) => Ok(()),
        None => {
            let e = message("Unknown PHP version: ", php_id, "");
            assert(e@ =~= "Unknown PHP version: "@ + php_id@) by {
                reveal_strlit("");
            }
            Err(e)
        },
    }
}

/// Checks a switch to a PHP version: it must be in the catalog, listed, and
/// installed.
pub fn check_php_switch(
    packages: &PackagesConfig,
    listed: &Vec<InstalledPhpVersionDto>,
    php_id: &str,
) -> (r: Result<(), String>)
    ensures
        match php_switch_check(packages.php@, listed@, php_id@) {
            Ok(()) => r is Ok,
            Err(m) => r matches Err(e) && e@ == m,
        },
{
    check_php_known(packages, php_id)?;
    let mut i: usize = 0;
    while i < listed.len()
        invariant
            i <= listed@.len(),
            package_index(packages.php@, php_id@) is Some,
            forall|j: int| 0 <= j < i ==> listed@[j].id@ != php_id@,
        decreases listed.len() - i,
    {
        if same_text(listed[i].id.as_str(), php_id) {
            proof {
                let v = listed@;
                let k = i as int;
                let c = choose|x: int|
                    0 <= x < v.len() && #[trigger] v[x].id@ == php_id@ && forall|j: int|
                        0 <= j < x ==> v[j].id@ != php_id@;
                assert(0 <= k < v.len() && v[k].id@ == php_id@ && forall|j: int| 0 <= j < k ==> v[j].id@ != php_id@);
                if c < k {
                    assert(v[c].id@ != php_id@);
                }
                if c > k {
                    assert(v[k].id@ != php_id@);
                }
                assert(listed_index(v, php_id@) == Some(k));
            }
            if listed[i].installed {
                return Ok(());
            } else {
                let mut e = listed[i].display_name.clone();
                push_str(&mut e, " is not installed yet. Install it before switching.");
                return Err(e);
            }
        }
        i = i + 1;
    }
    let e = message("Unknown PHP version: ", php_id, "");
    assert(e@ =~= "Unknown PHP version: "@ + php_id@) by {
        reveal_strlit("");
    }
    Err(e)
}

/// Where a new project goes: the validated name and its folder in the
/// projects directory; a folder outside it is refused.
pub open spec fn project_dir_check(projects_root: Seq<char>, project_name: Seq<char>) -> Result<(Seq<char>, Seq<char>), Seq<char>> {
    match project_name_check(project_name) {
        Err(e) => Err(e),
        Ok(n) => {
            let dir = crate::locator::join_spec(projects_root, n);
            if starts_with(dir, projects_root) {
                Ok((n, dir))
            } else {
                Err("Project path must stay inside the projects directory"@)
            }
        },
    }
}

/// Where a new project goes, under the (resolved) projects directory.
pub fn project_dir_for(projects_root: &str, project_name: &str) -> (r: Result<(String, String), String>)
    ensures
        match project_dir_check(projects_root@, project_name@) {
            Ok((n, d)) => r matches Ok(x) && x.0@ == n && x.1@ == d,
            Err(e) => r matches Err(x) && x@ == e,
        },
{
    let name = validate_project_name(project_name)?;
    let dir = crate::locator::join_path(projects_root, name.as_str());
    let d = chars_of(dir.as_str());
    let root = chars_of(projects_root);
    if starts_with_chars(d.as_slice(), root.as_slice()) {
        Ok((name, dir))
    } else {
        Err("Project path must stay inside the projects directory".to_string())
    }
}

/// What an existing folder of the new project's name means: a folder that
/// holds anything is refused; the answer is otherwise whether the folder is
/// still to be created.
pub fn check_project_folder(name: &str, exists: bool, has_entries: bool) -> (r: Result<bool, String>)
    ensures
        exists && has_entries ==> (r matches Err(e) && e@ == "Project '"@ + name@ + "' already exists and is not empty"@),
        exists && !has_entries ==> r == Ok::<bool, String>(false),
        !exists ==> r == Ok::<bool, String>(true),
{
    if exists {
        if has_entries {
            Err(fill2("Project '", name, "' already exists and is not empty"))
        } else {
            Ok(false)
        }
    } else {
        Ok(true)
    }
}

/// What creating a project answers: its name, template id, folder, and the
/// path of the file it opens with.
pub fn scaffold_result(name: String, template: ProjectTemplate, project_dir: String) -> (r: ProjectScaffoldResult)
    ensures
        r.name@ == name@,
        r.template@ == template_id(template),
        r.path@ == project_dir@,
        r.entry_file@ == crate::locator::join_spec(project_dir@, template_entry(template)),
{
    let entry = crate::locator::join_path(project_dir.as_str(), project_entry_file(template));
    ProjectScaffoldResult {
        name,
        template: project_template_id(template).to_string(),
        path: project_dir,
        entry_file: entry,
    }
}

/// An accepted project name is a single, non-empty folder name: trimmed,
/// neither `.` nor `..`, and with no path separator, so the project folder
/// stays inside the projects directory.
pub proof fn lemma_accepted_name_is_one_folder(project_name: Seq<char>, n: Seq<char>)
    requires
        project_name_check(project_name) == Ok::<Seq<char>, Seq<char>>(n),
    ensures
        n == trim(project_name),
        n.len() > 0,
        n != "."@,
        n != ".."@,
        forall|i: int| 0 <= i < n.len() ==> n[i] != '/' && n[i] != '\\' && !is_control_spec(#[trigger] n[i]),
{
    assert forall|i: int| 0 <= i < n.len() implies n[i] != '/' && n[i] != '\\' && !is_control_spec(
        #[trigger] n[i],
    ) by {
        assert(!forbidden_in_name(n[i]));
    }
}

/// A character a package name keeps as it is: an ASCII lowercase letter or
/// digit.
pub open spec fn slug_safe(c: char) -> bool {
    crate::text::is_ascii_digit_spec(c) || crate::text::is_ascii_lower_spec(c)
}

/// Every part of a text of safe characters and dashes, split at dashes,
/// holds safe characters only.
proof fn lemma_split_parts_safe(s: Seq<char>)
    requires
        forall|i: int| 0 <= i < s.len() ==> slug_safe(#[trigger] s[i]) || s[i] == '-',
    ensures
        forall|k: int, i: int|
            0 <= k < split_on(s, '-').len() && 0 <= i < split_on(s, '-')[k].len() ==> slug_safe(
                #[trigger] split_on(s, '-')[k][i],
            ),
    decreases s.len(),
{
    crate::text::lemma_char_index_from(s, '-', 0);
    match char_index_from(s, '-', 0) {
        Some(j) => {
            let rest = s.skip(j + 1);
            assert forall|i: int| 0 <= i < rest.len() implies slug_safe(#[trigger] rest[i]) || rest[i] == '-' by {
                assert(rest[i] == s[i + j + 1]);
            }
            lemma_split_parts_safe(rest);
            let parts = split_on(s, '-');
            assert(parts == seq![s.take(j)] + split_on(rest, '-'));
            assert forall|k: int, i: int| 0 <= k < parts.len() && 0 <= i < parts[k].len() implies slug_safe(
                #[trigger] parts[k][i],
            ) by {
                if k == 0 {
                    assert(parts[0] == s.take(j));
                    assert(s[i] != '-');
                } else {
                    assert(parts[k] == split_on(rest, '-')[k - 1]);
                }
            }
        },
        None => {},
    }
}

/// Dropping empty parts keeps parts of the list, each non-empty.
proof fn lemma_non_empty_parts(v: Seq<Seq<char>>)
    ensures
        forall|k: int| 0 <= k < non_empty(v).len() ==> (#[trigger] non_empty(v)[k]).len() > 0 && v.contains(
            non_empty(v)[k],
        ),
    decreases v.len(),
{
    if v.len() > 0 {
        lemma_non_empty_parts(v.drop_last());
        let rest = non_empty(v.drop_last());
        assert forall|k: int| 0 <= k < non_empty(v).len() implies (#[trigger] non_empty(v)[k]).len() > 0
            && v.contains(non_empty(v)[k]) by {
            if k < rest.len() {
                assert(non_empty(v)[k] == rest[k]);
                let w = choose|w: int| 0 <= w < v.drop_last().len() && v.drop_last()[w] == rest[k];
                assert(v[w] == rest[k]);
            } else {
                assert(non_empty(v)[k] == v.last());
                assert(v[v.len() - 1] == v.last());
            }
        }
    }
}

/// Non-empty parts of safe characters joined with dashes: safe characters
/// and dashes, starting and ending with a safe character, with no two
/// dashes in a row.
proof fn lemma_join_safe(parts: Seq<Seq<char>>)
    requires
        parts.len() > 0,
        forall|k: int| 0 <= k < parts.len() ==> (#[trigger] parts[k]).len() > 0,
        forall|k: int, i: int| 0 <= k < parts.len() && 0 <= i < parts[k].len() ==> slug_safe(#[trigger] parts[k][i]),
    ensures
        join(parts, "-"@).len() > 0,
        forall|i: int| 0 <= i < join(parts, "-"@).len() ==> slug_safe(#[trigger] join(parts, "-"@)[i]) || join(
            parts,
            "-"@,
        )[i] == '-',
        slug_safe(join(parts, "-"@)[0]),
        slug_safe(join(parts, "-"@).last()),
        forall|i: int| 0 <= i < join(parts, "-"@).len() - 1 ==> !(#[trigger] join(parts, "-"@)[i] == '-' && join(
            parts,
            "-"@,
        )[i + 1] == '-'),
    decreases parts.len(),
{
    reveal_strlit("-");
    if parts.len() == 1 {
        assert(slug_safe(parts[0][0]));
        assert(slug_safe(parts[0][parts[0].len() - 1]));
    } else {
        let init = parts.drop_last();
        let last = parts.last();
        assert forall|k: int| 0 <= k < init.len() implies (#[trigger] init[k]).len() > 0 by {
            assert(init[k] == parts[k]);
        }
        assert forall|k: int, i: int| 0 <= k < init.len() && 0 <= i < init[k].len() implies slug_safe(
            #[trigger] init[k][i],
        ) by {
            assert(init[k] == parts[k]);
        }
        lemma_join_safe(init);
        let a = join(init, "-"@);
        let j = join(parts, "-"@);
        assert(j == a + "-"@ + last);
        assert(last == parts[parts.len() - 1]);
        assert forall|i: int| 0 <= i < last.len() implies slug_safe(#[trigger] last[i]) by {
            assert(slug_safe(parts[parts.len() - 1][i]));
        }
        assert(j[0] == a[0]);
        assert(j.last() == last[last.len() - 1]);
        assert forall|i: int| 0 <= i < j.len() implies slug_safe(#[trigger] j[i]) || j[i] == '-' by {
            if i < a.len() {
                assert(j[i] == a[i]);
            } else if i == a.len() {
                assert(j[i] == '-');
            } else {
                assert(j[i] == last[i - a.len() - 1]);
            }
        }
        assert forall|i: int| 0 <= i < j.len() - 1 implies !(#[trigger] j[i] == '-' && j[i + 1] == '-') by {
            if i < a.len() - 1 {
                assert(j[i] == a[i] && j[i + 1] == a[i + 1]);
            } else if i == a.len() - 1 {
                assert(j[i] == a.last());
            } else if i == a.len() {
                assert(j[i + 1] == last[0]);
            } else {
                assert(j[i] == last[i - a.len() - 1]);
            }
        }
    }
}

/// A package name made of any project name is safe for npm: non-empty, of
/// ASCII lowercase letters, digits and dashes, starting and ending with a
/// letter or digit, with no two dashes in a row.
pub proof fn lemma_package_slug_npm_safe(name: Seq<char>)
    ensures
        package_slug(name).len() > 0,
        forall|i: int| 0 <= i < package_slug(name).len() ==> slug_safe(#[trigger] package_slug(name)[i])
            || package_slug(name)[i] == '-',
        slug_safe(package_slug(name)[0]),
        slug_safe(package_slug(name).last()),
        forall|i: int| 0 <= i < package_slug(name).len() - 1 ==> !(#[trigger] package_slug(name)[i] == '-'
            && package_slug(name)[i + 1] == '-'),
{
    let mapped = Seq::new(name.len(), |i: int| slug_char(name[i]));
    assert forall|i: int| 0 <= i < mapped.len() implies slug_safe(#[trigger] mapped[i]) || mapped[i] == '-' by {
        let c = name[i];
        if crate::text::is_ascii_alnum_spec(c) {
            assert(mapped[i] == lower_char(c));
        }
    }
    lemma_split_parts_safe(mapped);
    let parts = split_on(mapped, '-');
    let kept = non_empty(parts);
    lemma_non_empty_parts(parts);
    assert forall|k: int, i: int| 0 <= k < kept.len() && 0 <= i < kept[k].len() implies slug_safe(
        #[trigger] kept[k][i],
    ) by {
        let w = choose|w: int| 0 <= w < parts.len() && parts[w] == kept[k];
        assert(slug_safe(parts[w][i]));
    }
    if kept.len() > 0 {
        lemma_join_safe(kept);
    } else {
        reveal_strlit("champ-node-project");
        assert(join(kept, "-"@).len() == 0);
    }
}

} // verus!
