//! User settings: ports, project root, package selection and preferences.

use vstd::prelude::*;
use crate::packages::{PackageSelection, opt_text_of};
use crate::text::{decimal, push_decimal, push_str, push_chars};

verus! {

/// The web server port of the default settings.
pub const DEFAULT_WEB_PORT: u16 = 8080;

/// The PHP FastCGI port of the default settings.
pub const DEFAULT_PHP_PORT: u16 = 9000;

/// The MySQL port of the default settings.
pub const DEFAULT_MYSQL_PORT: u16 = 3306;

/// The PostgreSQL port of the default settings.
pub const DEFAULT_POSTGRESQL_PORT: u16 = 5432;

/// The ports of the four services.
#[derive(Debug, Clone, Copy, PartialEq, Eq, Structural)]
pub struct Ports {
    pub web: u16,
    pub php: u16,
    pub mysql: u16,
    pub postgresql: u16,
}

/// The ports of the default settings.
pub fn default_ports() -> (p: Ports)
    ensures
        p == (Ports {
            web: DEFAULT_WEB_PORT,
            php: DEFAULT_PHP_PORT,
            mysql: DEFAULT_MYSQL_PORT,
            postgresql: DEFAULT_POSTGRESQL_PORT,
        }),
{
    Ports {
        web: DEFAULT_WEB_PORT,
        php: DEFAULT_PHP_PORT,
        mysql: DEFAULT_MYSQL_PORT,
        postgresql: DEFAULT_POSTGRESQL_PORT,
    }
}

/// The application settings.
#[derive(Debug, Clone)]
pub struct AppSettings {
    pub web_port: u16,
    pub php_port: u16,
    pub mysql_port: u16,
    pub postgresql_port: u16,
    pub project_root: String,
    pub auto_start_services: bool,
    pub package_selection: PackageSelection,
    pub language: String,
    pub sound_enabled: bool,
}

impl AppSettings {
    /// The default settings for a project root and the catalog's selection:
    /// default ports, no auto start, English, sound on.
    pub fn defaults(project_root: String, package_selection: PackageSelection) -> (s: AppSettings)
        ensures
            s.web_port == DEFAULT_WEB_PORT,
            s.php_port == DEFAULT_PHP_PORT,
            s.mysql_port == DEFAULT_MYSQL_PORT,
            s.postgresql_port == DEFAULT_POSTGRESQL_PORT,
            s.project_root == project_root,
            !s.auto_start_services,
            s.package_selection == package_selection,
            s.language@ == "en"@,
            s.sound_enabled,
    {
        AppSettings {
            web_port: DEFAULT_WEB_PORT,
            php_port: DEFAULT_PHP_PORT,
            mysql_port: DEFAULT_MYSQL_PORT,
            postgresql_port: DEFAULT_POSTGRESQL_PORT,
            project_root,
            auto_start_services: false,
            package_selection,
            language: "en".to_string(),
            sound_enabled: true,
        }
    }

    /// A copy of the settings.
    pub fn duplicate(&self) -> (r: AppSettings)
        ensures
            r == *self,
    {
        AppSettings {
            web_port: self.web_port,
            php_port: self.php_port,
            mysql_port: self.mysql_port,
            postgresql_port: self.postgresql_port,
            project_root: self.project_root.clone(),
            auto_start_services: self.auto_start_services,
            package_selection: self.package_selection.duplicate(),
            language: self.language.clone(),
            sound_enabled: self.sound_enabled,
        }
    }

    /// The warnings of a validation, given whether the project root exists
    /// and, for each port, why it could not be bound (web, PHP, MySQL,
    /// PostgreSQL), and the errors: a port of 0.
    ///
    /// Answers the warnings where there is no error, else the errors.
    pub fn validate(
        &self,
        project_root_exists: bool,
        web_bind_error: &Option<String>,
        php_bind_error: &Option<String>,
        mysql_bind_error: &Option<String>,
        postgresql_bind_error: &Option<String>,
    ) -> (r: Result<Vec<String>, Vec<String>>)
        ensures
            match r {
                Ok(w) => !has_zero_port(*self) && texts_of(w@) == validation_warnings(
                    *self,
                    project_root_exists,
                    opt_text_of(*web_bind_error),
                    opt_text_of(*php_bind_error),
                    opt_text_of(*mysql_bind_error),
                    opt_text_of(*postgresql_bind_error),
                ),
                Err(e) => has_zero_port(*self) && texts_of(e@) == seq![
                    "Port numbers must be greater than 0"@,
                ],
            },
    {
        let mut warnings: Vec<String> = Vec::new();
        let ghost w0 = texts_of(warnings@);
        if !project_root_exists {
            let mut m = String::new();
            push_str(&mut m, "Project root '");
            push_str(&mut m, self.project_root.as_str());
            push_str(&mut m, "' does not exist. It will be created when services start.");
            warnings.push(m);
        }
        let ghost w1 = texts_of(warnings@);
        assert(w1 =~= w0 + root_warning(self.project_root@, project_root_exists));
        push_port_warning(&mut warnings, "Web port ", self.web_port, web_bind_error);
        push_port_warning(&mut warnings, "PHP-FPM port ", self.php_port, php_bind_error);
        push_port_warning(&mut warnings, "MySQL port ", self.mysql_port, mysql_bind_error);
        push_port_warning(&mut warnings, "PostgreSQL port ", self.postgresql_port, postgresql_bind_error);
        if self.web_port == 0 || self.php_port == 0 || self.mysql_port == 0 || self.postgresql_port == 0 {
            let mut errors: Vec<String> = Vec::new();
            errors.push("Port numbers must be greater than 0".to_string());
            assert(texts_of(errors@) =~= seq!["Port numbers must be greater than 0"@]);
            Err(errors)
        } else {
            assert(texts_of(warnings@) =~= validation_warnings(
                *self,
                project_root_exists,
                opt_text_of(*web_bind_error),
                opt_text_of(*php_bind_error),
                opt_text_of(*mysql_bind_error),
                opt_text_of(*postgresql_bind_error),
            ));
            Ok(warnings)
        }
    }
}

/// A port of the settings is 0.
pub open spec fn has_zero_port(s: AppSettings) -> bool {
    s.web_port == 0 || s.php_port == 0 || s.mysql_port == 0 || s.postgresql_port == 0
}

/// The texts of a list of strings.
pub open spec fn texts_of(v: Seq<String>) -> Seq<Seq<char>> {
    Seq::new(v.len(), |i: int| v[i]@)
}

/// The warning about a missing project root.
pub open spec fn root_warning(root: Seq<char>, exists: bool) -> Seq<Seq<char>> {
    if exists {
        Seq::empty()
    } else {
        seq![
            "Project root '"@ + root + "' does not exist. It will be created when services start."@,
        ]
    }
}

/// The warning about a port that could not be bound.
pub open spec fn port_warning(label: Seq<char>, port: u16, error: Option<Seq<char>>) -> Seq<Seq<char>> {
    match error {
        Some(e) => seq![label + decimal(port as nat) + " may be in use: "@ + e],
        None => Seq::empty(),
    }
}

/// The warnings of a validation.
pub open spec fn validation_warnings(
    s: AppSettings,
    root_exists: bool,
    web: Option<Seq<char>>,
    php: Option<Seq<char>>,
    mysql: Option<Seq<char>>,
    postgresql: Option<Seq<char>>,
) -> Seq<Seq<char>> {
    root_warning(s.project_root@, root_exists) + port_warning("Web port "@, s.web_port, web)
        + port_warning("PHP-FPM port "@, s.php_port, php) + port_warning(
        "MySQL port "@,
        s.mysql_port,
        mysql,
    ) + port_warning("PostgreSQL port "@, s.postgresql_port, postgresql)
}

fn push_port_warning(warnings: &mut Vec<String>, label: &str, port: u16, error: &Option<String>)
    ensures
        texts_of(final(warnings)@) == texts_of(old(warnings)@) + port_warning(
            label@,
            port,
            opt_text_of(*error),
        ),
{
    let ghost before = texts_of(warnings@);
    match error {
        Some(e) => {
            let mut m = String::new();
            push_str(&mut m, label);
            let mut d: Vec<char> = Vec::new();
            push_decimal(&mut d, port as u64);
            push_chars(&mut m, d.as_slice());
            push_str(&mut m, " may be in use: ");
            push_str(&mut m, e.as_str());
            warnings.push(m);
            assert(texts_of(warnings@) =~= before + port_warning(label@, port, opt_text_of(*error)));
        },
        None => {
            assert(texts_of(warnings@) =~= before + port_warning(label@, port, opt_text_of(*error)));
        },
    }
}

/// Settings with the default ports pass validation, and with an existing
/// project root and every port free they raise no warning.
pub proof fn lemma_default_ports_validate(s: AppSettings)
    requires
        s.web_port == DEFAULT_WEB_PORT,
        s.php_port == DEFAULT_PHP_PORT,
        s.mysql_port == DEFAULT_MYSQL_PORT,
        s.postgresql_port == DEFAULT_POSTGRESQL_PORT,
    ensures
        !has_zero_port(s),
        validation_warnings(s, true, None, None, None, None) == Seq::<Seq<char>>::empty(),
{
    assert(validation_warnings(s, true, None, None, None, None) =~= Seq::<Seq<char>>::empty());
}

/// A service's own default port is the port the default settings give it.
pub proof fn lemma_service_defaults_match_settings(t: crate::service::ServiceType)
    ensures
        crate::service::default_port_of(t) == (match t {
            crate::service::ServiceType::Caddy => DEFAULT_WEB_PORT,
            crate::service::ServiceType::PhpFpm => DEFAULT_PHP_PORT,
            crate::service::ServiceType::MySQL => DEFAULT_MYSQL_PORT,
            crate::service::ServiceType::PostgreSQL => DEFAULT_POSTGRESQL_PORT,
        }),
{
}

} // verus!

