//! Downloading the runtime binaries: which URL serves each component on
//! each platform, how a download is checked, how it is installed, and what
//! the installed markers say.

use vstd::prelude::*;
use crate::catalog::{entry_is, postgresql_entry, postgresql_version, urls_are, text2};
use crate::packages::{
    copy_opt, get_mysql_package, get_php_package, get_phpmyadmin_package, opt_text_of, package_index,
    same_text, selected_index, selected_tool_index, selected_tool_position, selected_version_index,
    tool_package_index, Checksums, PackageSelection, PackagesConfig, RuntimeConfig, RuntimeConfigView,
    Urls, VersionInfo, VersionInfoSingleUrl, BinariesConfig, BinaryConfig, PhpMyAdminConfig,
};
use crate::launch::{extension_of, file_name_of};
use crate::text::{
    chars_of, contains, contains_chars, ends_with, ends_with_chars, eq_chars, lines, lines_of,
    push_chars, push_str, slice_of, starts_with, starts_with_chars, string_from_chars,
};

verus! {

broadcast use vstd::string::group_string_axioms;

/// A runtime component that is downloaded.
#[derive(Debug, Clone, Copy, PartialEq, Eq, Hash, Structural)]
pub enum BinaryComponent {
    Caddy,
    Php,
    MySQL,
    PhpMyAdmin,
}

/// The name of a component as shown to the user.
pub open spec fn component_name(c: BinaryComponent) -> Seq<char> {
    match c {
        BinaryComponent::Caddy => "Caddy"@,
        BinaryComponent::Php => "PHP"@,
        BinaryComponent::MySQL => "MySQL"@,
        BinaryComponent::PhpMyAdmin => "Adminer"@,
    }
}

/// The file name stem of a component.
pub open spec fn component_binary_name(c: BinaryComponent) -> Seq<char> {
    match c {
        BinaryComponent::Caddy => "caddy"@,
        BinaryComponent::Php => "php"@,
        BinaryComponent::MySQL => "mysql"@,
        BinaryComponent::PhpMyAdmin => "adminer"@,
    }
}

/// The version a catalog list selects, empty where the list is empty.
pub open spec fn selected_version_text(v: Seq<VersionInfo>) -> Seq<char> {
    match selected_index(v) {
        Some(i) => v[i].version@,
        None => Seq::empty(),
    }
}

/// The version of the database tool a catalog selects.
pub open spec fn selected_tool_version_text(v: Seq<VersionInfoSingleUrl>) -> Seq<char> {
    match selected_tool_index(v) {
        Some(i) => v[i].version@,
        None => Seq::empty(),
    }
}

/// The version of a component that a catalog selects.
pub open spec fn component_version(c: BinaryComponent, cfg: RuntimeConfigView) -> Seq<char> {
    match c {
        BinaryComponent::Caddy => selected_version_text(cfg.caddy),
        BinaryComponent::Php => selected_version_text(cfg.php),
        BinaryComponent::MySQL => selected_version_text(cfg.mysql),
        BinaryComponent::PhpMyAdmin => selected_tool_version_text(cfg.phpmyadmin),
    }
}

fn selected_text(v: &Vec<VersionInfo>) -> (s: String)
    ensures
        s@ == selected_version_text(v@),
{
    match selected_version_index(v) {
        Some(i) => v[i].version.clone(),
        None => String::new(),
    }
}

impl BinaryComponent {
    pub fn name(&self) -> (s: &'static str)
        ensures
            s@ == component_name(*self),
    {
        match self {
            BinaryComponent::Caddy => "Caddy",
            BinaryComponent::Php => "PHP",
            BinaryComponent::MySQL => "MySQL",
            BinaryComponent::PhpMyAdmin => "Adminer",
        }
    }

    /// The version of the component that the catalog selects.
    pub fn version(&self, config: &RuntimeConfig) -> (s: String)
        ensures
            s@ == component_version(*self, config@),
    {
        match self {
            BinaryComponent::Caddy => selected_text(&config.binaries.caddy.versions),
            BinaryComponent::Php => selected_text(&config.binaries.php.versions),
            BinaryComponent::MySQL => selected_text(&config.binaries.mysql.versions),
            BinaryComponent::PhpMyAdmin => match selected_tool_position(&config.binaries.phpmyadmin.versions) {
                Some(i) => config.binaries.phpmyadmin.versions[i].version.clone(),
                None => String::new(),
            },
        }
    }

    /// The name and the selected version.
    pub fn display_name(&self, config: &RuntimeConfig) -> (s: String)
        ensures
            s@ == component_name(*self) + " "@ + component_version(*self, config@),
    {
        let mut s = String::new();
        push_str(&mut s, self.name());
        push_str(&mut s, " ");
        let v = self.version(config);
        push_str(&mut s, v.as_str());
        s
    }

    pub fn binary_name(&self) -> (s: &'static str)
        ensures
            s@ == component_binary_name(*self),
    {
        match self {
            BinaryComponent::Caddy => "caddy",
            BinaryComponent::Php => "php",
            BinaryComponent::MySQL => "mysql",
            BinaryComponent::PhpMyAdmin => "adminer",
        }
    }
}

/// A platform the runtimes are built for.
#[derive(Debug, Clone, Copy, PartialEq, Eq, Structural)]
pub enum Platform {
    WindowsX64,
    WindowsArm64,
    MacOSX64,
    MacOSArm64,
    LinuxX64,
    LinuxArm64,
}

/// The platform of an operating system and architecture as Rust names them;
/// Linux x64 for any other.
pub open spec fn platform_of(os: Seq<char>, arch: Seq<char>) -> Platform {
    if os == "windows"@ && arch == "x86_64"@ {
        Platform::WindowsX64
    } else if os == "windows"@ && arch == "aarch64"@ {
        Platform::WindowsArm64
    } else if os == "macos"@ && arch == "x86_64"@ {
        Platform::MacOSX64
    } else if os == "macos"@ && arch == "aarch64"@ {
        Platform::MacOSArm64
    } else if os == "linux"@ && arch == "aarch64"@ {
        Platform::LinuxArm64
    } else {
        Platform::LinuxX64
    }
}

/// The key of a platform in the catalog.
pub open spec fn url_key_of(p: Platform) -> Seq<char> {
    match p {
        Platform::WindowsX64 => "windowsX64"@,
        Platform::WindowsArm64 => "windowsArm64"@,
        Platform::LinuxX64 => "linuxX64"@,
        Platform::LinuxArm64 => "linuxArm64"@,
        Platform::MacOSX64 => "macOSX64"@,
        Platform::MacOSArm64 => "macOSArm64"@,
    }
}

impl Platform {
    /// The platform of the running system, given its operating system and
    /// architecture (`std::env::consts::OS` and `ARCH`).
    pub fn current(os: &str, arch: &str) -> (p: Platform)
        ensures
            p == platform_of(os@, arch@),
    {
        let windows = same_text(os, "windows");
        let macos = same_text(os, "macos");
        let linux = same_text(os, "linux");
        let x64 = same_text(arch, "x86_64");
        let arm = same_text(arch, "aarch64");
        if windows && x64 {
            Platform::WindowsX64
        } else if windows && arm {
            Platform::WindowsArm64
        } else if macos && x64 {
            Platform::MacOSX64
        } else if macos && arm {
            Platform::MacOSArm64
        } else if linux && arm {
            Platform::LinuxArm64
        } else {
            Platform::LinuxX64
        }
    }

    /// The key of the platform in the catalog.
    pub fn url_key(&self) -> (s: String)
        ensures
            s@ == url_key_of(*self),
    {
        match self {
            Platform::WindowsX64 => "windowsX64",
            Platform::WindowsArm64 => "windowsArm64",
            Platform::LinuxX64 => "linuxX64",
            Platform::LinuxArm64 => "linuxArm64",
            Platform::MacOSX64 => "macOSX64",
            Platform::MacOSArm64 => "macOSArm64",
        }.to_string()
    }
}

/// A step of a download.
#[derive(Debug, Clone)]
pub enum DownloadStep {
    Downloading,
    Extracting,
    Installing,
    Complete,
    Error(String),
}

/// Progress of a download, as reported to the user interface.
#[derive(Debug, Clone)]
pub struct DownloadProgress {
    pub step: DownloadStep,
    pub percent: u8,
    pub current_component: String,
    pub component_display: String,
    pub version: String,
    pub total_components: u8,
    pub downloaded_bytes: u64,
    pub total_bytes: u64,
}

/// Runtime binary downloader: the platform, and the package selection where
/// one was made.
pub struct RuntimeDownloader {
    pub platform: Platform,
    pub package_selection: Option<PackageSelection>,
}

/// The URL of a platform package for a platform.
pub open spec fn package_url(p: crate::packages::GenericPackage, platform: Platform) -> Seq<char> {
    match platform {
        Platform::WindowsX64 => p.windows_x64@,
        Platform::WindowsArm64 => p.windows_arm64@,
        Platform::MacOSX64 => p.macos_x64@,
        Platform::MacOSArm64 => p.macos_arm64@,
        Platform::LinuxX64 => p.linux_x64@,
        Platform::LinuxArm64 => p.linux_arm64@,
    }
}

/// The URL of a catalog entry for a platform, empty where it has none.
pub open spec fn entry_url(v: VersionInfo, platform: Platform) -> Seq<char> {
    crate::packages::url_text(
        match platform {
            Platform::WindowsX64 => v.urls.windows_x64,
            Platform::WindowsArm64 => v.urls.windows_arm64,
            Platform::MacOSX64 => v.urls.macos_x64,
            Platform::MacOSArm64 => v.urls.macos_arm64,
            Platform::LinuxX64 => v.urls.linux_x64,
            Platform::LinuxArm64 => v.urls.linux_arm64,
        },
    )
}

/// The package a selection names for a component, where the package lists
/// have it: its version and its URL for the platform.
pub open spec fn selected_package(
    d: RuntimeDownloader,
    c: BinaryComponent,
    packages: PackagesConfig,
) -> Option<(Seq<char>, Seq<char>)> {
    match d.package_selection {
        None => None,
        Some(sel) => match c {
            BinaryComponent::Php => match package_index(packages.php@, sel.php@) {
                Some(i) => Some((packages.php@[i].version@, package_url(packages.php@[i], d.platform))),
                None => None,
            },
            BinaryComponent::MySQL => match package_index(packages.mysql@, sel.mysql@) {
                Some(i) => Some((packages.mysql@[i].version@, package_url(packages.mysql@[i], d.platform))),
                None => None,
            },
            BinaryComponent::PhpMyAdmin => match tool_package_index(packages.phpmyadmin@, sel.phpmyadmin@) {
                Some(i) => Some((packages.phpmyadmin@[i].version@, packages.phpmyadmin@[i].url@)),
                None => None,
            },
            BinaryComponent::Caddy => None,
        },
    }
}

/// The selected PHP package is downloaded from its own URL for the
/// downloader's platform: each platform takes the package field of that
/// platform.
pub proof fn lemma_selected_php_url_per_platform(d: RuntimeDownloader, packages: PackagesConfig, i: int)
    requires
        d.package_selection is Some,
        package_index(packages.php@, d.package_selection->0.php@) == Some(i),
    ensures
        match selected_package(d, BinaryComponent::Php, packages) {
            Some((version, url)) => {
                &&& version == packages.php@[i].version@
            &&& (d.platform == Platform::WindowsX64 ==> url == packages.php@[i].windows_x64@)
            &&& (d.platform == Platform::WindowsArm64 ==> url == packages.php@[i].windows_arm64@)
            &&& (d.platform == Platform::MacOSX64 ==> url == packages.php@[i].macos_x64@)
            &&& (d.platform == Platform::MacOSArm64 ==> url == packages.php@[i].macos_arm64@)
            &&& (d.platform == Platform::LinuxX64 ==> url == packages.php@[i].linux_x64@)
            &&& (d.platform == Platform::LinuxArm64 ==> url == packages.php@[i].linux_arm64@)
            },
            None => false,
        },
{
}

/// The selected MySQL package is downloaded from its own URL for the
/// downloader's platform.
pub proof fn lemma_selected_mysql_url_per_platform(d: RuntimeDownloader, packages: PackagesConfig, i: int)
    requires
        d.package_selection is Some,
        package_index(packages.mysql@, d.package_selection->0.mysql@) == Some(i),
    ensures
        match selected_package(d, BinaryComponent::MySQL, packages) {
            Some((version, url)) => {
                &&& version == packages.mysql@[i].version@
            &&& (d.platform == Platform::WindowsX64 ==> url == packages.mysql@[i].windows_x64@)
            &&& (d.platform == Platform::WindowsArm64 ==> url == packages.mysql@[i].windows_arm64@)
            &&& (d.platform == Platform::MacOSX64 ==> url == packages.mysql@[i].macos_x64@)
            &&& (d.platform == Platform::MacOSArm64 ==> url == packages.mysql@[i].macos_arm64@)
            &&& (d.platform == Platform::LinuxX64 ==> url == packages.mysql@[i].linux_x64@)
            &&& (d.platform == Platform::LinuxArm64 ==> url == packages.mysql@[i].linux_arm64@)
            },
            None => false,
        },
{
}

/// The selected database tool package is downloaded from its one URL, on
/// every platform.
pub proof fn lemma_selected_tool_url(d: RuntimeDownloader, packages: PackagesConfig, i: int)
    requires
        d.package_selection is Some,
        tool_package_index(packages.phpmyadmin@, d.package_selection->0.phpmyadmin@) == Some(i),
    ensures
        selected_package(d, BinaryComponent::PhpMyAdmin, packages) == Some(
            (packages.phpmyadmin@[i].version@, packages.phpmyadmin@[i].url@),
        ),
{
}

/// A catalog entry is downloaded from the URL it lists for the platform
/// (empty where it lists none): each platform takes its own field.
pub proof fn lemma_entry_url_per_platform(v: VersionInfo, platform: Platform)
    ensures
        platform == Platform::WindowsX64 ==> entry_url(v, platform) == crate::packages::url_text(v.urls.windows_x64),
        platform == Platform::WindowsArm64 ==> entry_url(v, platform) == crate::packages::url_text(v.urls.windows_arm64),
        platform == Platform::MacOSX64 ==> entry_url(v, platform) == crate::packages::url_text(v.urls.macos_x64),
        platform == Platform::MacOSArm64 ==> entry_url(v, platform) == crate::packages::url_text(v.urls.macos_arm64),
        platform == Platform::LinuxX64 ==> entry_url(v, platform) == crate::packages::url_text(v.urls.linux_x64),
        platform == Platform::LinuxArm64 ==> entry_url(v, platform) == crate::packages::url_text(v.urls.linux_arm64),
{
}

/// The catalog has an entry for the component (needed where the selection
/// does not name one).
pub open spec fn catalog_has(c: BinaryComponent, cfg: RuntimeConfigView) -> bool {
    match c {
        BinaryComponent::Caddy => cfg.caddy.len() > 0,
        BinaryComponent::Php => cfg.php.len() > 0,
        BinaryComponent::MySQL => cfg.mysql.len() > 0,
        BinaryComponent::PhpMyAdmin => cfg.phpmyadmin.len() > 0,
    }
}

/// The URL of the entry the catalog selects for the component.
pub open spec fn catalog_url(c: BinaryComponent, cfg: RuntimeConfigView, platform: Platform) -> Seq<char> {
    match c {
        BinaryComponent::Caddy => entry_url(cfg.caddy[selected_index(cfg.caddy).unwrap()], platform),
        BinaryComponent::Php => entry_url(cfg.php[selected_index(cfg.php).unwrap()], platform),
        BinaryComponent::MySQL => entry_url(cfg.mysql[selected_index(cfg.mysql).unwrap()], platform),
        BinaryComponent::PhpMyAdmin => cfg.phpmyadmin[selected_tool_index(cfg.phpmyadmin).unwrap()].url@,
    }
}

fn url_for(v: &VersionInfo, platform: Platform) -> (s: String)
    ensures
        s@ == entry_url(*v, platform),
{
    match platform {
        Platform::WindowsX64 => crate::packages::url_or_empty(&v.urls.windows_x64),
        Platform::WindowsArm64 => crate::packages::url_or_empty(&v.urls.windows_arm64),
        Platform::MacOSX64 => crate::packages::url_or_empty(&v.urls.macos_x64),
        Platform::MacOSArm64 => crate::packages::url_or_empty(&v.urls.macos_arm64),
        Platform::LinuxX64 => crate::packages::url_or_empty(&v.urls.linux_x64),
        Platform::LinuxArm64 => crate::packages::url_or_empty(&v.urls.linux_arm64),
    }
}

fn package_url_for(p: &crate::packages::GenericPackage, platform: Platform) -> (s: String)
    ensures
        s@ == package_url(*p, platform),
{
    match platform {
        Platform::WindowsX64 => p.windows_x64.clone(),
        Platform::WindowsArm64 => p.windows_arm64.clone(),
        Platform::MacOSX64 => p.macos_x64.clone(),
        Platform::MacOSArm64 => p.macos_arm64.clone(),
        Platform::LinuxX64 => p.linux_x64.clone(),
        Platform::LinuxArm64 => p.linux_arm64.clone(),
    }
}

impl RuntimeDownloader {
    /// A downloader for the platform, with no package selection.
    pub fn new(platform: Platform) -> (d: RuntimeDownloader)
        ensures
            d.platform == platform,
            d.package_selection is None,
    {
        RuntimeDownloader { platform, package_selection: None }
    }

    /// A downloader for the platform with a package selection.
    pub fn with_packages(platform: Platform, package_selection: PackageSelection) -> (d: RuntimeDownloader)
        ensures
            d.platform == platform,
            d.package_selection == Some(package_selection),
    {
        RuntimeDownloader { platform, package_selection: Some(package_selection) }
    }

    /// The version of a component: that of the selected package where the
    /// selection names one the package lists have, else the catalog's.
    pub fn get_component_version(
        &self,
        component: &BinaryComponent,
        packages: &PackagesConfig,
        config: &RuntimeConfig,
    ) -> (s: String)
        ensures
            s@ == match selected_package(*self, *component, *packages) {
                Some((v, _)) => v,
                None => component_version(*component, config@),
            },
    {
        match &self.package_selection {
            Some(selection) => match component {
                BinaryComponent::Php => {
                    if let Some(pkg) = get_php_package(packages, selection.php.as_str()) {
                        return pkg.version;
                    }
                },
                BinaryComponent::MySQL => {
                    if let Some(pkg) = get_mysql_package(packages, selection.mysql.as_str()) {
                        return pkg.version;
                    }
                },
                BinaryComponent::PhpMyAdmin => {
                    if let Some(pkg) = get_phpmyadmin_package(packages, selection.phpmyadmin.as_str()) {
                        return pkg.version;
                    }
                },
                BinaryComponent::Caddy => {},
            },
            None => {},
        }
        component.version(config)
    }

    /// The URL a component is downloaded from: that of the selected package
    /// for this platform, else that of the entry the catalog selects.
    pub fn get_binary_url(&self, component: BinaryComponent, packages: &PackagesConfig, config: &RuntimeConfig) -> (s:
        String)
        requires
            selected_package(*self, component, *packages) is None ==> catalog_has(component, config@),
        ensures
            s@ == match selected_package(*self, component, *packages) {
                Some((_, url)) => url,
                None => catalog_url(component, config@, self.platform),
            },
    {
        match &self.package_selection {
            Some(selection) => match component {
                BinaryComponent::Php => {
                    if let Some(pkg) = get_php_package(packages, selection.php.as_str()) {
                        return package_url_for(&pkg, self.platform);
                    }
                },
                BinaryComponent::MySQL => {
                    if let Some(pkg) = get_mysql_package(packages, selection.mysql.as_str()) {
                        return package_url_for(&pkg, self.platform);
                    }
                },
                BinaryComponent::PhpMyAdmin => {
                    if let Some(pkg) = get_phpmyadmin_package(packages, selection.phpmyadmin.as_str()) {
                        return pkg.url;
                    }
                },
                BinaryComponent::Caddy => {},
            },
            None => {},
        }
        match component {
            BinaryComponent::Caddy => {
                let v = &config.binaries.caddy.versions;
                let i = match selected_version_index(v) {
                    Some(i) => i,
                    None => 0,
                };
                url_for(&v[i], self.platform)
            },
            BinaryComponent::Php => {
                let v = &config.binaries.php.versions;
                let i = match selected_version_index(v) {
                    Some(i) => i,
                    None => 0,
                };
                url_for(&v[i], self.platform)
            },
            BinaryComponent::MySQL => {
                let v = &config.binaries.mysql.versions;
                let i = match selected_version_index(v) {
                    Some(i) => i,
                    None => 0,
                };
                url_for(&v[i], self.platform)
            },
            BinaryComponent::PhpMyAdmin => {
                let v = &config.binaries.phpmyadmin.versions;
                let i = match selected_tool_position(v) {
                    Some(i) => i,
                    None => 0,
                };
                v[i].url.clone()
            },
        }
    }
}

// ---------------------------------------------------------------------------
// Checking a download.
// ---------------------------------------------------------------------------

/// The text after the last `c` of `s`, or all of `s`.
pub open spec fn after_last(s: Seq<char>, c: char) -> Seq<char> {
    if exists|i: int| 0 <= i < s.len() && s[i] == c {
        let k = choose|i: int| 0 <= i < s.len() && s[i] == c && forall|j: int| i < j < s.len() ==> s[j] != c;
        s.skip(k + 1)
    } else {
        s
    }
}

fn after_last_chars(v: &[char], c: char) -> (r: Vec<char>)
    ensures
        r@ == after_last(v@, c),
{
    let mut j: usize = v.len();
    while j > 0 && v[j - 1] != c
        invariant
            j <= v.len(),
            forall|m: int| j <= m < v.len() ==> v@[m] != c,
        decreases j,
    {
        j = j - 1;
    }
    proof {
        let s = v@;
        if j > 0 {
            let k = (j - 1) as int;
            let q = choose|i: int| 0 <= i < s.len() && s[i] == c && forall|m: int| i < m < s.len() ==> s[m] != c;
            assert(0 <= k < s.len() && s[k] == c);
            if q < k {
                assert(s[k] != c);
            }
            if q > k {
                assert(s[q] != c);
            }
        } else {
            assert(s.skip(0) =~= s);
            if exists|i: int| 0 <= i < s.len() && s[i] == c {
                let i = choose|i: int| 0 <= i < s.len() && s[i] == c;
                assert(s[i] != c);
            }
        }
    }
    let r = slice_of(v, j, v.len());
    assert(r@ =~= v@.skip(j as int));
    r
}

/// The archive extension of a download URL: `tar.gz` for a gzipped
/// tarball, else the text after the last dot of the file name, and `zip`
/// where the file name has no extension.
pub open spec fn url_extension(url: Seq<char>) -> Seq<char> {
    let name = after_last(url, '/');
    if ends_with(name, ".tar.gz"@) {
        "tar.gz"@
    } else if name.contains('.') {
        after_last(name, '.')
    } else {
        "zip"@
    }
}

/// The archive extension of a download URL.
pub fn get_extension_from_url(url: &str) -> (s: String)
    ensures
        s@ == url_extension(url@),
{
    let u = chars_of(url);
    let name = after_last_chars(u.as_slice(), '/');
    let t = chars_of(".tar.gz");
    if ends_with_chars(name.as_slice(), t.as_slice()) {
        return "tar.gz".to_string();
    }
    if !crate::text::has_char(name.as_slice(), '.') {
        return "zip".to_string();
    }
    let e = after_last_chars(name.as_slice(), '.');
    string_from_chars(e.as_slice())
}

/// The user agent sent with downloads, per platform.
pub fn user_agent(platform: Platform) -> (s: &'static str)
    ensures
        s@ == match platform {
            Platform::LinuxX64 | Platform::LinuxArm64 => "Mozilla/5.0 (X11; Linux x86_64) AppleWebKit/537.36 (KHTML, like Gecko) Chrome/120.0.0.0 Safari/537.36"@,
            Platform::MacOSX64 | Platform::MacOSArm64 => "Mozilla/5.0 (Macintosh; Intel Mac OS X 10_15_7) AppleWebKit/537.36 (KHTML, like Gecko) Chrome/120.0.0.0 Safari/537.36"@,
            Platform::WindowsX64 | Platform::WindowsArm64 => "Mozilla/5.0 (Windows NT 10.0; Win64; x64) AppleWebKit/537.36 (KHTML, like Gecko) Chrome/120.0.0.0 Safari/537.36"@,
        },
{
    match platform {
        Platform::LinuxX64 | Platform::LinuxArm64 => "Mozilla/5.0 (X11; Linux x86_64) AppleWebKit/537.36 (KHTML, like Gecko) Chrome/120.0.0.0 Safari/537.36",
        Platform::MacOSX64 | Platform::MacOSArm64 => "Mozilla/5.0 (Macintosh; Intel Mac OS X 10_15_7) AppleWebKit/537.36 (KHTML, like Gecko) Chrome/120.0.0.0 Safari/537.36",
        Platform::WindowsX64 | Platform::WindowsArm64 => "Mozilla/5.0 (Windows NT 10.0; Win64; x64) AppleWebKit/537.36 (KHTML, like Gecko) Chrome/120.0.0.0 Safari/537.36",
    }
}

/// MySQL downloads from dev.mysql.com are sent with a referer and an accept
/// header, which its gateway asks for.
pub fn needs_mysql_gateway_headers(component: BinaryComponent, url: &str) -> (b: bool)
    ensures
        b == (component == BinaryComponent::MySQL && contains(url@, "dev.mysql.com"@)),
{
    let u = chars_of(url);
    let d = chars_of("dev.mysql.com");
    component == BinaryComponent::MySQL && contains_chars(u.as_slice(), d.as_slice())
}

/// Whether a content type announces an HTML page.
pub fn is_html_content_type(content_type: &str) -> (b: bool)
    ensures
        b == contains(content_type@, "text/html"@),
{
    let c = chars_of(content_type);
    let h = chars_of("text/html");
    contains_chars(c.as_slice(), h.as_slice())
}

/// The error for an HTTP status other than success.
pub fn http_error_message(status: u16, component: BinaryComponent, url: &str) -> (s: String)
    ensures
        s@ == "HTTP error "@ + crate::text::decimal(status as nat) + ": Failed to download "@
            + component_name(component) + "\nURL: "@ + url@,
{
    let mut s = String::new();
    push_str(&mut s, "HTTP error ");
    let d = crate::text::decimal_string(status as u64);
    push_str(&mut s, d.as_str());
    push_str(&mut s, ": Failed to download ");
    push_str(&mut s, component.name());
    push_str(&mut s, "\nURL: ");
    push_str(&mut s, url);
    s
}

/// What checking the downloaded bytes against the expected archive kind
/// answers.
pub open spec fn download_check(extension: Seq<char>, bytes: Seq<u8>) -> Result<(), Seq<char>> {
    let is_zip = bytes.len() >= 2 && bytes[0] == 0x50 && bytes[1] == 0x4B;
    let is_gzip = bytes.len() >= 2 && bytes[0] == 0x1f && bytes[1] == 0x8b;
    if extension != "php"@ && bytes.len() < 4 {
        Err("Downloaded file is too small ("@ + crate::text::decimal(bytes.len()) + " bytes) to be a valid archive"@)
    } else if extension == "zip"@ && !is_zip {
        Err("Expected ZIP file but downloaded file doesn't have ZIP magic bytes. URL may have redirected to HTML page."@)
    } else if (extension == "gz"@ || extension == "tar.gz"@) && !is_gzip {
        Err("Expected gzip file but downloaded file doesn't have gzip magic bytes."@)
    } else {
        Ok(())
    }
}

/// An accepted download has the signature its extension asks for: a `gz`
/// or `tar.gz` download starts with the gzip bytes 1f 8b, a `zip` download
/// with `PK`, and anything but a PHP page has at least four bytes.
pub proof fn lemma_accepted_download_has_its_signature(extension: Seq<char>, bytes: Seq<u8>)
    requires
        download_check(extension, bytes) is Ok,
    ensures
        extension == "gz"@ || extension == "tar.gz"@ ==> bytes.len() >= 2 && bytes[0] == 0x1f && bytes[1] == 0x8b,
        extension == "zip"@ ==> bytes.len() >= 2 && bytes[0] == 0x50 && bytes[1] == 0x4B,
        extension != "php"@ ==> bytes.len() >= 4,
{
}

/// A gzip download of four bytes or more that lacks the gzip signature (an
/// HTML page, say) is refused with the gzip message.
pub proof fn lemma_gzip_without_signature_is_refused(extension: Seq<char>, bytes: Seq<u8>)
    requires
        extension == "gz"@ || extension == "tar.gz"@,
        bytes.len() >= 4,
        !(bytes[0] == 0x1f && bytes[1] == 0x8b),
    ensures
        download_check(extension, bytes) == Err::<(), Seq<char>>(
            "Expected gzip file but downloaded file doesn't have gzip magic bytes."@,
        ),
{
    reveal_strlit("gz");
    reveal_strlit("tar.gz");
    reveal_strlit("zip");
    reveal_strlit("php");
    assert(extension != "zip"@ && extension != "php"@) by {
        assert(extension[0] != "zip"@[0]);
        assert(extension[0] != "php"@[0]);
    }
}

/// Checks that the downloaded bytes can be an archive of the expected kind:
/// large enough, and starting with the ZIP or gzip signature where the
/// extension asks for one.
pub fn check_downloaded_bytes(extension: &str, bytes: &[u8]) -> (r: Result<(), String>)
    ensures
        match download_check(extension@, bytes@) {
            Ok(()) => r is Ok,
            Err(m) => r matches Err(e) && e@ == m,
        },
{
    let is_zip = bytes.len() >= 2 && bytes[0] == 0x50 && bytes[1] == 0x4B;
    let is_gzip = bytes.len() >= 2 && bytes[0] == 0x1f && bytes[1] == 0x8b;
    let is_php = same_text(extension, "php");
    if !is_php && bytes.len() < 4 {
        let mut m = String::new();
        push_str(&mut m, "Downloaded file is too small (");
        let d = crate::text::decimal_string(bytes.len() as u64);
        push_str(&mut m, d.as_str());
        push_str(&mut m, " bytes) to be a valid archive");
        return Err(m);
    }
    if same_text(extension, "zip") && !is_zip {
        return Err(
            "Expected ZIP file but downloaded file doesn't have ZIP magic bytes. URL may have redirected to HTML page.".to_string(),
        );
    }
    if (same_text(extension, "gz") || same_text(extension, "tar.gz")) && !is_gzip {
        return Err("Expected gzip file but downloaded file doesn't have gzip magic bytes.".to_string());
    }
    Ok(())
}

/// The SHA-256 digest of some bytes.
pub uninterp spec fn sha256(bytes: Seq<u8>) -> Seq<u8>;

/// `sha2::Sha256::digest`: the SHA-256 digest of `bytes`, 32 bytes long.
#[verifier::external_body]
fn sha256_digest(bytes: &[u8]) -> (d: Vec<u8>)
    ensures
        d@ == sha256(bytes@),
        d@.len() == 32,
{
    <sha2::Sha256 as sha2::Digest>::digest(bytes).to_vec()
}

/// The lowercase hexadecimal digit of a value below 16.
pub open spec fn hex_digit(n: int) -> char {
    if n < 10 {
        (48 + n) as char
    } else {
        (87 + n) as char
    }
}

/// The lowercase hexadecimal text of some bytes, two digits per byte, high
/// nibble first.
pub open spec fn hex_text(bytes: Seq<u8>) -> Seq<char>
    decreases bytes.len(),
{
    if bytes.len() == 0 {
        Seq::empty()
    } else {
        hex_text(bytes.drop_last()) + seq![
            hex_digit((bytes.last() / 16) as int),
            hex_digit((bytes.last() % 16) as int),
        ]
    }
}

/// The lowercase hexadecimal digit of a value below 16.
fn hex_char(n: u8) -> (c: char)
    requires
        n < 16,
    ensures
        c == hex_digit(n as int),
{
    if n < 10 {
        (48u8 + n) as char
    } else {
        (87u8 + n) as char
    }
}

/// The lowercase hexadecimal text of `bytes`, two digits per byte, high
/// nibble first.
fn hex_encode(bytes: &[u8]) -> (s: String)
    ensures
        s@ == hex_text(bytes@),
{
    let mut s = String::new();
    let mut i: usize = 0;
    while i < bytes.len()
        invariant
            i <= bytes.len(),
            s@ == hex_text(bytes@.take(i as int)),
        decreases bytes.len() - i,
    {
        let b = bytes[i];
        crate::text::push_char(&mut s, hex_char(b / 16));
        crate::text::push_char(&mut s, hex_char(b % 16));
        assert(bytes@.take(i + 1).drop_last() =~= bytes@.take(i as int));
        assert(bytes@.take(i + 1).last() == b);
        i = i + 1;
    }
    assert(bytes@.take(bytes.len() as int) =~= bytes@);
    s
}

/// The lowercase form of a text (`str::to_lowercase`, full Unicode case
/// mapping).
pub uninterp spec fn unicode_lowercase(s: Seq<char>) -> Seq<char>;

/// `str::to_lowercase`.
#[verifier::external_body]
fn to_lowercase(s: &str) -> (r: String)
    ensures
        r@ == unicode_lowercase(s@),
{
    s.to_lowercase()
}

/// Calculate the SHA-256 checksum of some bytes, in lowercase hexadecimal.
pub fn calculate_checksum_from_bytes(bytes: &[u8]) -> (s: String)
    ensures
        s@ == hex_text(sha256(bytes@)),
{
    let d = sha256_digest(bytes);
    hex_encode(d.as_slice())
}

/// The message where a checksum does not match.
pub open spec fn checksum_mismatch(name: Seq<char>, expected: Seq<char>, actual: Seq<char>) -> Seq<char> {
    "Checksum verification failed for "@ + name + ".\nExpected: "@ + expected + "\nActual: "@ + actual
        + "\n\nThe downloaded file may be corrupted or tampered with."@
}

/// Checks the downloaded bytes against the expected checksum, where there is
/// one; the comparison ignores case.
pub fn verify_checksum(component: BinaryComponent, bytes: &[u8], expected: &Option<String>) -> (r: Result<(), String>)
    ensures
        r is Ok <==> checksum_accepted(
            bytes@,
            match expected {
                Some(e) => Some(e@),
                None => None,
            },
        ),
        match expected {
            None => r is Ok,
            Some(e) => {
                let actual = hex_text(sha256(bytes@));
                if unicode_lowercase(actual) == unicode_lowercase(e@) {
                    r is Ok
                } else {
                    r matches Err(m) && m@ == checksum_mismatch(component_name(component), e@, actual)
                }
            },
        },
{
    match expected {
        None => Ok(()),
        Some(e) => {
            let actual = calculate_checksum_from_bytes(bytes);
            let a = to_lowercase(actual.as_str());
            let b = to_lowercase(e.as_str());
            if same_text(a.as_str(), b.as_str()) {
                Ok(())
            } else {
                let mut m = String::new();
                push_str(&mut m, "Checksum verification failed for ");
                push_str(&mut m, component.name());
                push_str(&mut m, ".\nExpected: ");
                push_str(&mut m, e.as_str());
                push_str(&mut m, "\nActual: ");
                push_str(&mut m, actual.as_str());
                push_str(&mut m, "\n\nThe downloaded file may be corrupted or tampered with.");
                assert(m@ =~= checksum_mismatch(component_name(component), e@, actual@));
                Err(m)
            }
        },
    }
}

/// The checksum of a catalog entry for a platform.
pub open spec fn checksum_for(v: VersionInfo, p: Platform) -> Option<String> {
    match p {
        Platform::WindowsX64 => v.checksums.windows_x64,
        Platform::WindowsArm64 => v.checksums.windows_arm64,
        Platform::LinuxX64 => v.checksums.linux_x64,
        Platform::LinuxArm64 => v.checksums.linux_arm64,
        Platform::MacOSX64 => v.checksums.macos_x64,
        Platform::MacOSArm64 => v.checksums.macos_arm64,
    }
}

fn checksum_of(v: &VersionInfo, p: Platform) -> (r: Option<String>)
    ensures
        r == checksum_for(*v, p),
{
    match p {
        Platform::WindowsX64 => copy_opt(&v.checksums.windows_x64),
        Platform::WindowsArm64 => copy_opt(&v.checksums.windows_arm64),
        Platform::LinuxX64 => copy_opt(&v.checksums.linux_x64),
        Platform::LinuxArm64 => copy_opt(&v.checksums.linux_arm64),
        Platform::MacOSX64 => copy_opt(&v.checksums.macos_x64),
        Platform::MacOSArm64 => copy_opt(&v.checksums.macos_arm64),
    }
}

/// The first entry marked selected.
pub open spec fn first_selected(v: Seq<VersionInfo>) -> Option<int> {
    if exists|i: int| 0 <= i < v.len() && #[trigger] v[i].selected {
        Some(choose|i: int| 0 <= i < v.len() && #[trigger] v[i].selected && forall|j: int| 0 <= j < i ==> !v[j].selected)
    } else {
        None
    }
}

/// The first database tool entry marked selected.
pub open spec fn first_selected_tool(v: Seq<VersionInfoSingleUrl>) -> Option<int> {
    if exists|i: int| 0 <= i < v.len() && #[trigger] v[i].selected {
        Some(choose|i: int| 0 <= i < v.len() && #[trigger] v[i].selected && forall|j: int| 0 <= j < i ==> !v[j].selected)
    } else {
        None
    }
}

/// The checksum expected for a component's download: that of the entry the
/// selection names (PHP and MySQL), else that of the first selected entry.
pub open spec fn expected_checksum(d: RuntimeDownloader, c: BinaryComponent, cfg: Option<RuntimeConfig>) -> Option<String> {
    match cfg {
        None => None,
        Some(cfg) => {
            let target: Option<Seq<char>> = match d.package_selection {
                Some(sel) => match c {
                    BinaryComponent::Php => Some(sel.php@),
                    BinaryComponent::MySQL => Some(sel.mysql@),
                    _ => None,
                },
                None => None,
            };
            match c {
                BinaryComponent::PhpMyAdmin => match first_selected_tool(cfg.binaries.phpmyadmin.versions@) {
                    Some(i) => cfg.binaries.phpmyadmin.versions@[i].checksum,
                    None => None,
                },
                _ => {
                    let list = match c {
                        BinaryComponent::Caddy => cfg.binaries.caddy.versions@,
                        BinaryComponent::Php => cfg.binaries.php.versions@,
                        _ => cfg.binaries.mysql.versions@,
                    };
                    let k = match target {
                        Some(t) => crate::catalog::entry_index(list, t),
                        None => first_selected(list),
                    };
                    match k {
                        Some(i) => checksum_for(list[i], d.platform),
                        None => None,
                    }
                },
            }
        },
    }
}

impl RuntimeDownloader {
    /// The checksum expected for a component's download, per the loaded
    /// catalog.
    #[verifier::loop_isolation(false)]
    pub fn get_expected_checksum(&self, component: &BinaryComponent, config: &Option<RuntimeConfig>) -> (r: Option<String>)
        ensures
            r == expected_checksum(*self, *component, *config),
    {
        let cfg = match config {
            Some(c) => c,
            None => {
                return None;
            },
        };
        if *component == BinaryComponent::PhpMyAdmin {
            let v = &cfg.binaries.phpmyadmin.versions;
            let mut i: usize = 0;
            while i < v.len()
                invariant
                    i <= v.len(),
                    forall|j: int| 0 <= j < i ==> !v@[j].selected,
                decreases v.len() - i,
            {
                if v[i].selected {
                    proof {
                        let c = choose|k: int| 0 <= k < v@.len() && #[trigger] v@[k].selected && forall|j: int| 0 <= j < k ==> !v@[j].selected;
                        assert(v@[i as int].selected);
                        if c < i {
                            assert(!v@[c].selected);
                        }
                        if c > i {
                            assert(!v@[i as int].selected);
                        }
                    }
                    return copy_opt(&v[i].checksum);
                }
                i = i + 1;
            }
            return None;
        }
        let list = match component {
            BinaryComponent::Caddy => &cfg.binaries.caddy.versions,
            BinaryComponent::Php => &cfg.binaries.php.versions,
            _ => &cfg.binaries.mysql.versions,
        };
        let target: Option<&String> = match &self.package_selection {
            Some(sel) => match component {
                BinaryComponent::Php => Some(&sel.php),
                BinaryComponent::MySQL => Some(&sel.mysql),
                _ => None,
            },
            None => None,
        };
        let mut i: usize = 0;
        while i < list.len()
            invariant
                i <= list.len(),
                forall|j: int| 0 <= j < i ==> match target {
                    Some(t) => list@[j].id@ != t@,
                    None => !list@[j].selected,
                },
            decreases list.len() - i,
        {
            match target {
                Some(t) => {
                    if same_text(list[i].id.as_str(), t.as_str()) {
                        proof {
                            crate::catalog::lemma_entry_index_pub(list@, t@, i as int);
                        }
                        return checksum_of(&list[i], self.platform);
                    }
                },
                None => {
                    if list[i].selected {
                        proof {
                            let c = choose|k: int| 0 <= k < list@.len() && #[trigger] list@[k].selected && forall|j: int| 0 <= j < k ==> !list@[j].selected;
                            assert(list@[i as int].selected);
                            if c < i {
                                assert(!list@[c].selected);
                            }
                            if c > i {
                                assert(!list@[i as int].selected);
                            }
                        }
                        return checksum_of(&list[i], self.platform);
                    }
                },
            }
            i = i + 1;
        }
        None
    }
}

// ---------------------------------------------------------------------------
// Installing a download and recording it.
// ---------------------------------------------------------------------------

/// The name a download is saved under: the component, its version and the
/// archive extension.
pub fn download_file_name(component: BinaryComponent, version: &str, extension: &str) -> (s: String)
    ensures
        s@ == component_binary_name(component) + "-"@ + version@ + "."@ + extension@,
{
    let mut s = String::new();
    push_str(&mut s, component.binary_name());
    push_str(&mut s, "-");
    push_str(&mut s, version);
    push_str(&mut s, ".");
    push_str(&mut s, extension);
    s
}

/// How a downloaded file is installed.
#[derive(Debug, Clone, Copy, PartialEq, Eq, Structural)]
pub enum ArchiveKind {
    TarGz,
    TarXz,
    Zip,
    /// The Adminer page, copied as `adminer/index.php`.
    AdminerPage,
    /// A bare executable, copied and made executable.
    Executable,
}

/// The extension of a file name, empty where it has none.
pub open spec fn extension_text(name: Seq<char>) -> Seq<char> {
    match extension_of(name) {
        Some(e) => e,
        None => Seq::empty(),
    }
}

/// How a downloaded file is installed, decided by its file name.
pub open spec fn archive_kind_of(file_name: Seq<char>, component: BinaryComponent) -> Result<ArchiveKind, Seq<char>> {
    let ext = extension_text(file_name);
    if ends_with(file_name, ".tar.gz"@) || ext == "gz"@ {
        Ok(ArchiveKind::TarGz)
    } else if ends_with(file_name, ".tar.xz"@) || ext == "xz"@ {
        Ok(ArchiveKind::TarXz)
    } else if ext == "zip"@ {
        Ok(ArchiveKind::Zip)
    } else if component == BinaryComponent::PhpMyAdmin && ext == "php"@ {
        Ok(ArchiveKind::AdminerPage)
    } else if ext.len() == 0 {
        Ok(ArchiveKind::Executable)
    } else {
        Err("Unsupported archive format: "@ + ext)
    }
}

fn extension_chars(name: &[char]) -> (r: Vec<char>)
    ensures
        r@ == extension_text(name@),
{
    let mut j: usize = name.len();
    while j > 0 && name[j - 1] != '.'
        invariant
            j <= name.len(),
            forall|m: int| j <= m < name.len() ==> name@[m] != '.',
        decreases j,
    {
        j = j - 1;
    }
    proof {
        let s = name@;
        if j > 1 {
            let k = (j - 1) as int;
            let c = choose|i: int| 0 < i < s.len() && s[i] == '.' && forall|m: int| i < m < s.len() ==> s[m] != '.';
            assert(0 < k < s.len() && s[k] == '.');
            if c < k {
                assert(s[k] != '.');
            }
            if c > k {
                assert(s[c] != '.');
            }
        } else {
            if exists|i: int| 0 < i < s.len() && s[i] == '.' {
                let i = choose|i: int| 0 < i < s.len() && s[i] == '.';
                assert(i < j || j <= i);
            }
        }
    }
    if j <= 1 {
        return Vec::new();
    }
    let r = slice_of(name, j, name.len());
    assert(r@ =~= name@.skip(j as int));
    r
}

/// The extension is what follows the last dot, where that dot is not the
/// first character.
proof fn lemma_extension_after_last_dot(name: Seq<char>, k: int)
    requires
        0 < k < name.len(),
        name[k] == '.',
        forall|j: int| k < j < name.len() ==> name[j] != '.',
    ensures
        extension_text(name) == name.skip(k + 1),
{
    let c = choose|i: int|
        0 < i < name.len() && name[i] == '.' && forall|j: int| i < j < name.len() ==> name[j] != '.';
    assert(0 < c < name.len() && name[c] == '.' && forall|j: int| c < j < name.len() ==> name[j] != '.');
    if c < k {
        assert(name[k] != '.');
    }
    if c > k {
        assert(name[c] != '.');
    }
}

/// A name that ends with a dot and two given characters has those two as its
/// extension, where more than the dot precedes them.
proof fn lemma_two_letter_extension(name: Seq<char>, tail: Seq<char>)
    requires
        tail.len() == 3,
        tail[0] == '.',
        tail[1] != '.',
        tail[2] != '.',
        name.len() > 3,
        ends_with(name, tail),
    ensures
        extension_text(name) == tail.skip(1),
{
    let l = name.len() as int;
    assert(name.skip(l - 3) == tail);
    assert(name[l - 3] == tail[0]);
    assert(name[l - 2] == tail[1]);
    assert(name[l - 1] == tail[2]);
    lemma_extension_after_last_dot(name, l - 3);
    assert(name.skip(l - 2) =~= tail.skip(1));
}

/// A name ending in `.tar.gz`, or whose extension is `gz`, is unpacked as a
/// gzip-compressed tarball, whatever the component.
pub proof fn lemma_gz_names_are_tar_gz(file_name: Seq<char>, component: BinaryComponent)
    requires
        ends_with(file_name, ".tar.gz"@) || extension_text(file_name) == "gz"@,
    ensures
        archive_kind_of(file_name, component) == Ok::<ArchiveKind, Seq<char>>(ArchiveKind::TarGz),
{
}

/// A name ending in `.tar.xz`, or whose extension is `xz`, is unpacked as an
/// xz-compressed tarball, whatever the component.
pub proof fn lemma_xz_names_are_tar_xz(file_name: Seq<char>, component: BinaryComponent)
    requires
        ends_with(file_name, ".tar.xz"@) || extension_text(file_name) == "xz"@,
    ensures
        archive_kind_of(file_name, component) == Ok::<ArchiveKind, Seq<char>>(ArchiveKind::TarXz),
{
    reveal_strlit(".tar.xz");
    reveal_strlit(".tar.gz");
    reveal_strlit("xz");
    reveal_strlit("gz");
    let n = file_name;
    if ends_with(n, ".tar.xz"@) {
        let l = n.len() as int;
        assert(n.skip(l - 7) == ".tar.xz"@);
        assert(n.skip(l - 3) =~= n.skip(l - 7).skip(4));
        assert(".tar.xz"@.skip(4) =~= seq!['.', 'x', 'z']);
        lemma_two_letter_extension(n, seq!['.', 'x', 'z']);
        assert(seq!['.', 'x', 'z'].skip(1) =~= "xz"@);
    }
    assert(extension_text(n) == "xz"@);
    assert(extension_text(n) != "gz"@) by {
        assert(extension_text(n)[0] != "gz"@[0]);
    }
    if ends_with(n, ".tar.gz"@) {
        let l = n.len() as int;
        assert(n.skip(l - 7) == ".tar.gz"@);
        assert(n.skip(l - 3) =~= n.skip(l - 7).skip(4));
        assert(".tar.gz"@.skip(4) =~= seq!['.', 'g', 'z']);
        lemma_two_letter_extension(n, seq!['.', 'g', 'z']);
        assert(seq!['.', 'g', 'z'].skip(1) =~= "gz"@);
        assert(false);
    }
}

/// A name whose extension is neither `gz` nor `xz` ends in neither `.tar.gz`
/// nor `.tar.xz`.
proof fn lemma_other_extension_is_no_tarball(n: Seq<char>)
    requires
        extension_text(n) != "gz"@,
        extension_text(n) != "xz"@,
    ensures
        !ends_with(n, ".tar.gz"@),
        !ends_with(n, ".tar.xz"@),
{
    reveal_strlit(".tar.xz");
    reveal_strlit(".tar.gz");
    reveal_strlit("xz");
    reveal_strlit("gz");
    let l = n.len() as int;
    if ends_with(n, ".tar.gz"@) {
        assert(n.skip(l - 3) =~= n.skip(l - 7).skip(4));
        assert(".tar.gz"@.skip(4) =~= seq!['.', 'g', 'z']);
        lemma_two_letter_extension(n, seq!['.', 'g', 'z']);
        assert(seq!['.', 'g', 'z'].skip(1) =~= "gz"@);
    }
    if ends_with(n, ".tar.xz"@) {
        assert(n.skip(l - 3) =~= n.skip(l - 7).skip(4));
        assert(".tar.xz"@.skip(4) =~= seq!['.', 'x', 'z']);
        lemma_two_letter_extension(n, seq!['.', 'x', 'z']);
        assert(seq!['.', 'x', 'z'].skip(1) =~= "xz"@);
    }
}

/// A name with the extension `zip` is unpacked as a ZIP archive, whatever the
/// component.
pub proof fn lemma_zip_names_are_zip(file_name: Seq<char>, component: BinaryComponent)
    requires
        extension_text(file_name) == "zip"@,
    ensures
        archive_kind_of(file_name, component) == Ok::<ArchiveKind, Seq<char>>(ArchiveKind::Zip),
{
    reveal_strlit("zip");
    reveal_strlit("xz");
    reveal_strlit("gz");
    assert(extension_text(file_name).len() != "gz"@.len());
    assert(extension_text(file_name).len() != "xz"@.len());
    lemma_other_extension_is_no_tarball(file_name);
}

/// A `.php` download is the Adminer page for the database tool, and no known
/// format for any other component; a name without an extension is a bare
/// executable.
pub proof fn lemma_php_pages_and_bare_executables(file_name: Seq<char>, component: BinaryComponent)
    ensures
        extension_text(file_name) == "php"@ ==> archive_kind_of(file_name, component) == if component
            == BinaryComponent::PhpMyAdmin {
            Ok::<ArchiveKind, Seq<char>>(ArchiveKind::AdminerPage)
        } else {
            Err::<ArchiveKind, Seq<char>>("Unsupported archive format: php"@)
        },
        extension_text(file_name).len() == 0 ==> archive_kind_of(file_name, component) == Ok::<
            ArchiveKind,
            Seq<char>,
        >(ArchiveKind::Executable),
{
    reveal_strlit("php");
    reveal_strlit("zip");
    reveal_strlit("xz");
    reveal_strlit("gz");
    let e = extension_text(file_name);
    if e == "php"@ || e.len() == 0 {
        assert(e != "gz"@ && e != "xz"@ && e != "zip"@) by {
            if e.len() > 0 {
                assert(e[0] != "gz"@[0] && e[0] != "xz"@[0] && e[0] != "zip"@[0]);
            }
        }
        lemma_other_extension_is_no_tarball(file_name);
    }
    reveal_strlit("Unsupported archive format: ");
    reveal_strlit("Unsupported archive format: php");
    assert("Unsupported archive format: "@ + "php"@ =~= "Unsupported archive format: php"@);
}

/// How a downloaded file is installed.
pub fn archive_kind(file_name: &str, component: BinaryComponent) -> (r: Result<ArchiveKind, String>)
    ensures
        match archive_kind_of(file_name@, component) {
            Ok(k) => r == Ok::<ArchiveKind, String>(k),
            Err(m) => r matches Err(e) && e@ == m,
        },
{
    let n = chars_of(file_name);
    let ext = extension_chars(n.as_slice());
    let e = string_from_chars(ext.as_slice());
    let tgz = chars_of(".tar.gz");
    let txz = chars_of(".tar.xz");
    if ends_with_chars(n.as_slice(), tgz.as_slice()) || same_text(e.as_str(), "gz") {
        Ok(ArchiveKind::TarGz)
    } else if ends_with_chars(n.as_slice(), txz.as_slice()) || same_text(e.as_str(), "xz") {
        Ok(ArchiveKind::TarXz)
    } else if same_text(e.as_str(), "zip") {
        Ok(ArchiveKind::Zip)
    } else if component == BinaryComponent::PhpMyAdmin && same_text(e.as_str(), "php") {
        Ok(ArchiveKind::AdminerPage)
    } else if ext.len() == 0 {
        Ok(ArchiveKind::Executable)
    } else {
        let mut m = String::new();
        push_str(&mut m, "Unsupported archive format: ");
        push_str(&mut m, e.as_str());
        Err(m)
    }
}

/// The components, in download order.
pub open spec fn all_components() -> Seq<BinaryComponent> {
    seq![BinaryComponent::Caddy, BinaryComponent::Php, BinaryComponent::MySQL, BinaryComponent::PhpMyAdmin]
}

/// A component is skipped where the skip list names it; PHP only where the
/// selected PHP version is installed too.
pub open spec fn skipped(c: BinaryComponent, skip: Seq<Seq<char>>, php_installed: bool) -> bool {
    skip.contains(component_binary_name(c)) && (c != BinaryComponent::Php || php_installed)
}

/// The components of `s` that are not skipped, in order.
pub open spec fn kept(s: Seq<BinaryComponent>, skip: Seq<Seq<char>>, php_installed: bool) -> Seq<BinaryComponent>
    decreases s.len(),
{
    if s.len() == 0 {
        s
    } else {
        let rest = kept(s.drop_last(), skip, php_installed);
        if skipped(s.last(), skip, php_installed) {
            rest
        } else {
            rest.push(s.last())
        }
    }
}

/// The components to download, in order, where the skip list names
/// components already installed.
pub fn components_to_download(skip_list: &Vec<String>, php_selected_installed: bool) -> (v: Vec<BinaryComponent>)
    ensures
        v@ == kept(all_components(), crate::packages::texts(skip_list@), php_selected_installed),
{
    let ghost sk = crate::packages::texts(skip_list@);
    let all = vec![BinaryComponent::Caddy, BinaryComponent::Php, BinaryComponent::MySQL, BinaryComponent::PhpMyAdmin];
    assert(all@ =~= all_components());
    let mut v: Vec<BinaryComponent> = Vec::new();
    let mut i: usize = 0;
    while i < 4
        invariant
            i <= 4,
            all@ == all_components(),
            sk == crate::packages::texts(skip_list@),
            v@ == kept(all_components().take(i as int), sk, php_selected_installed),
        decreases 4 - i,
    {
        let c = all[i];
        let name = c.binary_name();
        let mut listed = false;
        let mut k: usize = 0;
        while k < skip_list.len() && !listed
            invariant
                k <= skip_list.len(),
                sk == crate::packages::texts(skip_list@),
                listed ==> sk.contains(name@),
                !listed ==> forall|j: int| 0 <= j < k ==> sk[j] != name@,
            decreases skip_list.len() - k + (if listed { 0int } else { 1int }),
        {
            if same_text(skip_list[k].as_str(), name) {
                assert(sk[k as int] == name@);
                listed = true;
            } else {
                k = k + 1;
            }
        }
        assert(listed == sk.contains(name@));
        let skip = listed && (c != BinaryComponent::Php || php_selected_installed);
        assert(all_components().take(i + 1).drop_last() =~= all_components().take(i as int));
        assert(all_components().take(i + 1).last() == c);
        if !skip {
            v.push(c);
        }
        i = i + 1;
    }
    assert(all_components().take(4) =~= all_components());
    v
}

/// The marker written when a component is installed.
pub fn installed_marker_content(version: &str, installed_at: &str) -> (s: String)
    ensures
        s@ == "version="@ + version@ + "\ninstalled_at="@ + installed_at@,
{
    let mut s = String::new();
    push_str(&mut s, "version=");
    push_str(&mut s, version);
    push_str(&mut s, "\ninstalled_at=");
    push_str(&mut s, installed_at);
    s
}

/// The marker of an installed PHP version: its id, then the marker.
pub fn php_version_marker_content(php_id: &str, marker: &str) -> (s: String)
    ensures
        s@ == "id="@ + php_id@ + "\n"@ + marker@,
{
    let mut s = String::new();
    push_str(&mut s, "id=");
    push_str(&mut s, php_id);
    push_str(&mut s, "\n");
    push_str(&mut s, marker);
    s
}

/// The version a marker records: the rest of its first line that starts
/// with `version=`.
pub open spec fn marker_version_spec(content: Seq<char>) -> Option<Seq<char>> {
    let ls = lines(content);
    if exists|i: int| 0 <= i < ls.len() && starts_with(#[trigger] ls[i], "version="@) {
        let k = choose|i: int|
            0 <= i < ls.len() && starts_with(#[trigger] ls[i], "version="@) && forall|j: int|
                0 <= j < i ==> !starts_with(#[trigger] ls[j], "version="@);
        Some(ls[k].skip(8))
    } else {
        None
    }
}

/// The version a marker records.
pub fn marker_version(content: &str) -> (r: Option<String>)
    ensures
        match marker_version_spec(content@) {
            Some(v) => r matches Some(x) && x@ == v,
            None => r is None,
        },
{
    let c = chars_of(content);
    let ls = lines_of(c.as_slice());
    let ghost lv = lines(c@);
    assert(ls@.map_values(|w: Vec<char>| w@) == lv);
    let p = chars_of("version=");
    proof {
        reveal_strlit("version=");
    }
    assert(p@.len() == 8);
    let mut i: usize = 0;
    while i < ls.len()
        invariant
            i <= ls.len(),
            ls@.map_values(|w: Vec<char>| w@) == lv,
            lv == lines(content@),
            p@ == "version="@,
            p@.len() == 8,
            forall|j: int| 0 <= j < i ==> !starts_with(#[trigger] lv[j], "version="@),
        decreases ls.len() - i,
    {
        assert(ls@[i as int]@ == lv[i as int]);
        if starts_with_chars(ls[i].as_slice(), p.as_slice()) {
            proof {
                let k = choose|m: int|
                    0 <= m < lv.len() && starts_with(#[trigger] lv[m], "version="@) && forall|j: int|
                        0 <= j < m ==> !starts_with(#[trigger] lv[j], "version="@);
                assert(starts_with(lv[i as int], "version="@));
                if k < i {
                    assert(!starts_with(lv[k], "version="@));
                }
                if k > i {
                    assert(!starts_with(lv[i as int], "version="@));
                }
            }
            let rest = slice_of(ls[i].as_slice(), 8, ls[i].len());
            assert(rest@ =~= lv[i as int].skip(8));
            return Some(string_from_chars(rest.as_slice()));
        }
        i = i + 1;
    }
    None
}

/// Whether the selected PHP version is installed: its version marker exists,
/// or the single-version marker records the selected version.
pub fn is_selected_php_installed(
    version_marker_exists: bool,
    selected_version: &Option<String>,
    legacy_marker: &Option<String>,
) -> (b: bool)
    ensures
        b == (version_marker_exists || match (*selected_version, *legacy_marker) {
            (Some(v), Some(m)) => marker_version_spec(m@) == Some(v@),
            _ => false,
        }),
{
    if version_marker_exists {
        return true;
    }
    match (selected_version, legacy_marker) {
        (Some(v), Some(m)) => match marker_version(m.as_str()) {
            Some(x) => same_text(x.as_str(), v.as_str()),
            None => false,
        },
        _ => false,
    }
}

/// A marker file of a component: its name and its content where it could be
/// read.
pub struct MarkerFile {
    pub component: String,
    pub content: Option<String>,
}

/// The versions recorded by the markers, as (component, version) inserts in
/// order; where `rename_phpmyadmin` holds, phpMyAdmin's marker counts for
/// Adminer; Caddy is given `caddy_default` where no marker records it.
pub open spec fn marker_inserts(
    markers: Seq<(Seq<char>, Option<Seq<char>>)>,
    rename_phpmyadmin: bool,
    caddy_default: Seq<char>,
) -> Seq<(Seq<char>, Seq<char>)> {
    let found = recorded_versions(markers, rename_phpmyadmin);
    if exists|i: int| 0 <= i < found.len() && #[trigger] found[i].0 == "caddy"@ {
        found
    } else {
        found.push(("caddy"@, caddy_default))
    }
}

/// The versions recorded by the markers, in order.
pub open spec fn recorded_versions(markers: Seq<(Seq<char>, Option<Seq<char>>)>, rename_phpmyadmin: bool) -> Seq<(Seq<char>, Seq<char>)>
    decreases markers.len(),
{
    if markers.len() == 0 {
        Seq::empty()
    } else {
        let rest = recorded_versions(markers.drop_last(), rename_phpmyadmin);
        let m = markers.last();
        let key = if rename_phpmyadmin && m.0 == "phpmyadmin"@ {
            "adminer"@
        } else {
            m.0
        };
        match m.1 {
            Some(c) => match marker_version_spec(c) {
                Some(v) => rest.push((key, v)),
                None => rest,
            },
            None => rest,
        }
    }
}

/// The markers as plain values.
pub open spec fn markers_view(m: Seq<MarkerFile>) -> Seq<(Seq<char>, Option<Seq<char>>)> {
    Seq::new(m.len(), |i: int| (m[i].component@, opt_text_of(m[i].content)))
}

/// The versions recorded by the markers, as inserts in order (a later
/// insert for the same component wins).
pub fn installed_version_inserts(markers: &Vec<MarkerFile>, rename_phpmyadmin: bool, caddy_default: &str) -> (r: Vec<(String, String)>)
    ensures
        r@.map_values(|p: (String, String)| (p.0@, p.1@)) == marker_inserts(markers_view(markers@), rename_phpmyadmin, caddy_default@),
{
    let ghost mv = markers_view(markers@);
    let mut r: Vec<(String, String)> = Vec::new();
    let mut has_caddy = false;
    let mut i: usize = 0;
    assert(mv.take(0) =~= Seq::<(Seq<char>, Option<Seq<char>>)>::empty());
    while i < markers.len()
        invariant
            i <= markers.len(),
            mv == markers_view(markers@),
            r@.map_values(|p: (String, String)| (p.0@, p.1@)) == recorded_versions(mv.take(i as int), rename_phpmyadmin),
            has_caddy == exists|k: int| 0 <= k < r@.len() && #[trigger] r@[k].0@ == "caddy"@,
        decreases markers.len() - i,
    {
        assert(mv.take(i + 1).drop_last() =~= mv.take(i as int));
        assert(mv.take(i + 1).last() == mv[i as int]);
        let m = &markers[i];
        match &m.content {
            Some(c) => match marker_version(c.as_str()) {
                Some(v) => {
                    let key = if rename_phpmyadmin && same_text(m.component.as_str(), "phpmyadmin") {
                        "adminer".to_string()
                    } else {
                        m.component.clone()
                    };
                    let is_caddy = same_text(key.as_str(), "caddy");
                    let ghost before = r@;
                    r.push((key, v));
                    assert(r@.map_values(|p: (String, String)| (p.0@, p.1@)) =~= before.map_values(|p: (String, String)| (p.0@, p.1@)).push((r@[before.len() as int].0@, r@[before.len() as int].1@)));
                    if is_caddy {
                        has_caddy = true;
                        assert(r@[before.len() as int].0@ == "caddy"@);
                    } else {
                        assert forall|k: int| 0 <= k < r@.len() && #[trigger] r@[k].0@ == "caddy"@ implies k < before.len() by {
                            if k == before.len() {
                                assert(r@[k].0@ != "caddy"@);
                            }
                        }
                        assert(has_caddy == exists|k: int| 0 <= k < r@.len() && #[trigger] r@[k].0@ == "caddy"@) by {
                            if has_caddy {
                                let k = choose|k: int| 0 <= k < before.len() && #[trigger] before[k].0@ == "caddy"@;
                                assert(r@[k] == before[k]);
                            }
                        }
                    }
                },
                None => {},
            },
            None => {},
        }
        i = i + 1;
    }
    assert(mv.take(markers.len() as int) =~= mv);
    let ghost found = r@.map_values(|p: (String, String)| (p.0@, p.1@));
    assert(has_caddy == exists|k: int| 0 <= k < found.len() && #[trigger] found[k].0 == "caddy"@) by {
        if has_caddy {
            let k = choose|k: int| 0 <= k < r@.len() && #[trigger] r@[k].0@ == "caddy"@;
            assert(found[k].0 == "caddy"@);
        }
        if exists|k: int| 0 <= k < found.len() && #[trigger] found[k].0 == "caddy"@ {
            let k = choose|k: int| 0 <= k < found.len() && #[trigger] found[k].0 == "caddy"@;
            assert(r@[k].0@ == "caddy"@);
        }
    }
    if !has_caddy {
        let ghost before = r@;
        r.push(("caddy".to_string(), caddy_default.to_string()));
        assert(r@.map_values(|p: (String, String)| (p.0@, p.1@)) =~= before.map_values(|p: (String, String)| (p.0@, p.1@)).push(("caddy"@, caddy_default@)));
    }
    r
}

/// The components whose installed markers say which runtimes the downloader
/// finds installed, in the order they are read (`phpmyadmin` is reported as
/// `adminer`).
pub fn installed_component_markers() -> (r: Vec<String>)
    ensures
        crate::packages::texts(r@) == seq!["caddy"@, "php"@, "mysql"@, "adminer"@, "phpmyadmin"@],
{
    let r = crate::commands::strings_of(&["caddy", "php", "mysql", "adminer", "phpmyadmin"]);
    assert(crate::packages::texts(r@) =~= seq!["caddy"@, "php"@, "mysql"@, "adminer"@, "phpmyadmin"@]);
    r
}

/// The components whose installed markers the list of installed versions
/// reads, in order.
pub fn listed_version_markers() -> (r: Vec<String>)
    ensures
        crate::packages::texts(r@) == seq![
            "caddy"@,
            "php"@,
            "mysql"@,
            "postgresql"@,
            "adminer"@,
            "phpmyadmin"@,
            "node"@,
            "python"@,
            "go"@,
            "ruby"@,
            "cloudflared"@,
        ],
{
    let r = crate::commands::strings_of(
        &["caddy", "php", "mysql", "postgresql", "adminer", "phpmyadmin", "node", "python", "go", "ruby", "cloudflared"],
    );
    assert(crate::packages::texts(r@) =~= seq![
        "caddy"@,
        "php"@,
        "mysql"@,
        "postgresql"@,
        "adminer"@,
        "phpmyadmin"@,
        "node"@,
        "python"@,
        "go"@,
        "ruby"@,
        "cloudflared"@,
    ]);
    r
}

/// Whether an archive member is made executable on Unix: a runtime binary by
/// its name, or anything under a `bin/` directory.
pub fn is_executable(name: &str) -> (b: bool)
    ensures
        b == (ends_with(name@, "caddy"@) || ends_with(name@, "php"@) || ends_with(name@, "php-cgi"@)
            || ends_with(name@, "php-fpm"@) || ends_with(name@, "mysqld"@) || ends_with(name@, "mysql"@)
            || contains(name@, "bin/"@)),
{
    let n = chars_of(name);
    ends_with_chars(n.as_slice(), chars_of("caddy").as_slice()) || ends_with_chars(n.as_slice(), chars_of("php").as_slice())
        || ends_with_chars(n.as_slice(), chars_of("php-cgi").as_slice()) || ends_with_chars(
        n.as_slice(),
        chars_of("php-fpm").as_slice(),
    ) || ends_with_chars(n.as_slice(), chars_of("mysqld").as_slice()) || ends_with_chars(
        n.as_slice(),
        chars_of("mysql").as_slice(),
    ) || contains_chars(n.as_slice(), chars_of("bin/").as_slice())
}

/// The progress reported when a component is being extracted.
pub fn extracting_progress(component: BinaryComponent, display: String, version: String, total: u8) -> (p: DownloadProgress)
    ensures
        p.step is Extracting,
        p.percent == 0,
        p.current_component@ == component_name(component),
        p.component_display == display,
        p.version == version,
        p.total_components == total,
        p.downloaded_bytes == 0,
        p.total_bytes == 0,
{
    DownloadProgress {
        step: DownloadStep::Extracting,
        percent: 0,
        current_component: component.name().to_string(),
        component_display: display,
        version,
        total_components: total,
        downloaded_bytes: 0,
        total_bytes: 0,
    }
}

/// The progress reported when every component is installed.
pub fn complete_progress(total: u8) -> (p: DownloadProgress)
    ensures
        p.step is Complete,
        p.percent == 100,
        p.current_component@ == "All"@,
        p.component_display@ == "All Components"@,
        p.version@.len() == 0,
        p.total_components == total,
        p.downloaded_bytes == 0,
        p.total_bytes == 0,
{
    DownloadProgress {
        step: DownloadStep::Complete,
        percent: 100,
        current_component: "All".to_string(),
        component_display: "All Components".to_string(),
        version: String::new(),
        total_components: total,
        downloaded_bytes: 0,
        total_bytes: 0,
    }
}

// ---------------------------------------------------------------------------
// The built-in catalog.
// ---------------------------------------------------------------------------

/// The built-in caddy entry.
pub open spec fn default_caddy_entry(e: VersionInfo) -> bool {
    &&& entry_is(e, "caddy-2.11"@, "2.11.2"@, true, "Caddy 2.11.2"@, false)
    &&& urls_are(
        e.urls,
        Some("https://github.com/caddyserver/caddy/releases/download/v2.11.2/caddy_2.11.2_windows_amd64.zip"@),
        Some("https://github.com/caddyserver/caddy/releases/download/v2.11.2/caddy_2.11.2_windows_arm64.zip"@),
        Some("https://github.com/caddyserver/caddy/releases/download/v2.11.2/caddy_2.11.2_linux_amd64.tar.gz"@),
        Some("https://github.com/caddyserver/caddy/releases/download/v2.11.2/caddy_2.11.2_linux_arm64.tar.gz"@),
        Some("https://github.com/caddyserver/caddy/releases/download/v2.11.2/caddy_2.11.2_mac_amd64.tar.gz"@),
        Some("https://github.com/caddyserver/caddy/releases/download/v2.11.2/caddy_2.11.2_mac_arm64.tar.gz"@),
    )
}

/// The built-in php entry.
pub open spec fn default_php_entry(e: VersionInfo) -> bool {
    &&& entry_is(e, "php-8.5"@, "8.5.1"@, true, "PHP 8.5.1"@, false)
    &&& urls_are(
        e.urls,
        Some("https://github.com/KarnYong/campp-runtime-binaries/releases/download/php-8.5.1/php-8.5.1-Win32-vs17-x64.zip"@),
        Some("https://github.com/KarnYong/campp-runtime-binaries/releases/download/php-8.5.1/php-8.5.1-Win32-vs17-x86.zip"@),
        Some("https://github.com/KarnYong/campp-runtime-binaries/releases/download/php-8.5.1/php-8.4.18-fpm-linux-x86_64.tar.gz"@),
        Some("https://github.com/KarnYong/campp-runtime-binaries/releases/download/php-8.5.1/php-8.4.18-fpm-linux-aarch64.tar.gz"@),
        Some("https://github.com/KarnYong/campp-runtime-binaries/releases/download/php-8.5.1/php-8.4.18-fpm-macos-x86_64.tar.gz"@),
        Some("https://github.com/KarnYong/campp-runtime-binaries/releases/download/php-8.5.1/php-8.4.18-fpm-macos-aarch64.tar.gz"@),
    )
}

/// The built-in mysql entry.
pub open spec fn default_mysql_entry(e: VersionInfo) -> bool {
    &&& entry_is(e, "mysql-8.4"@, "8.4.0"@, true, "MySQL 8.4.0 LTS"@, true)
    &&& urls_are(
        e.urls,
        Some("https://github.com/KarnYong/campp-runtime-binaries/releases/download/mysql-8.4.0/mysql-8.4.0-winx64.zip"@),
        Some("https://github.com/KarnYong/campp-runtime-binaries/releases/download/mysql-8.4.0/mysql-8.4.0-winx64.zip"@),
        Some("https://github.com/KarnYong/campp-runtime-binaries/releases/download/mysql-8.4.0/mysql-8.4.0-linux-glibc2.28-x86_64.tar.xz"@),
        Some("https://github.com/KarnYong/campp-runtime-binaries/releases/download/mysql-8.4.0/mysql-8.4.0-linux-glibc2.28-aarch64.tar.xz"@),
        Some("https://github.com/KarnYong/campp-runtime-binaries/releases/download/mysql-8.4.0/mysql-8.4.0-macos14-x86_64.tar.gz"@),
        Some("https://github.com/KarnYong/campp-runtime-binaries/releases/download/mysql-8.4.0/mysql-8.4.0-macos14-arm64.tar.gz"@),
    )
}

/// The built-in Adminer entry.
pub open spec fn default_adminer_entry(e: VersionInfoSingleUrl) -> bool {
    &&& e.id@ == "adminer-5.4"@
    &&& e.version@ == "5.4.1"@
    &&& e.selected
    &&& e.display_name@ == "Adminer 5.4.1"@
    &&& !e.eol
    &&& !e.lts
    &&& e.checksum is None
    &&& e.url@ == "https://github.com/vrana/adminer/releases/download/v5.4.1/adminer-5.4.1.php"@
}

/// The catalog built into the application: Caddy 2.11.2, PHP 8.5.1, MySQL
/// 8.4.0, PostgreSQL 17.10 and Adminer 5.4.1, each selected; no optional
/// runtimes.
pub open spec fn default_config_spec(c: RuntimeConfigView) -> bool {
    &&& c.version@ == "1.0"@
    &&& c.caddy.len() == 1 && default_caddy_entry(c.caddy[0])
    &&& c.php.len() == 1 && default_php_entry(c.php[0])
    &&& c.mysql.len() == 1 && default_mysql_entry(c.mysql[0])
    &&& c.postgresql.len() == 1 && postgresql_entry(c.postgresql[0], "17.10"@)
    &&& c.phpmyadmin.len() == 1 && default_adminer_entry(c.phpmyadmin[0])
    &&& c.node is None && c.python is None && c.go is None && c.ruby is None
}

fn default_caddy_version() -> (e: VersionInfo)
    ensures
        default_caddy_entry(e),
{
    VersionInfo {
        id: "caddy-2.11".to_string(),
        version: "2.11.2".to_string(),
        selected: true,
        display_name: "Caddy 2.11.2".to_string(),
        eol: false,
        lts: false,
        checksums: Checksums::none(),
        urls: Urls {
            windows_x64: Some("https://github.com/caddyserver/caddy/releases/download/v2.11.2/caddy_2.11.2_windows_amd64.zip".to_string()),
            windows_arm64: Some("https://github.com/caddyserver/caddy/releases/download/v2.11.2/caddy_2.11.2_windows_arm64.zip".to_string()),
            linux_x64: Some("https://github.com/caddyserver/caddy/releases/download/v2.11.2/caddy_2.11.2_linux_amd64.tar.gz".to_string()),
            linux_arm64: Some("https://github.com/caddyserver/caddy/releases/download/v2.11.2/caddy_2.11.2_linux_arm64.tar.gz".to_string()),
            macos_x64: Some("https://github.com/caddyserver/caddy/releases/download/v2.11.2/caddy_2.11.2_mac_amd64.tar.gz".to_string()),
            macos_arm64: Some("https://github.com/caddyserver/caddy/releases/download/v2.11.2/caddy_2.11.2_mac_arm64.tar.gz".to_string()),
        },
    }
}

fn default_php_version() -> (e: VersionInfo)
    ensures
        default_php_entry(e),
{
    VersionInfo {
        id: "php-8.5".to_string(),
        version: "8.5.1".to_string(),
        selected: true,
        display_name: "PHP 8.5.1".to_string(),
        eol: false,
        lts: false,
        checksums: Checksums::none(),
        urls: Urls {
            windows_x64: Some("https://github.com/KarnYong/campp-runtime-binaries/releases/download/php-8.5.1/php-8.5.1-Win32-vs17-x64.zip".to_string()),
            windows_arm64: Some("https://github.com/KarnYong/campp-runtime-binaries/releases/download/php-8.5.1/php-8.5.1-Win32-vs17-x86.zip".to_string()),
            linux_x64: Some("https://github.com/KarnYong/campp-runtime-binaries/releases/download/php-8.5.1/php-8.4.18-fpm-linux-x86_64.tar.gz".to_string()),
            linux_arm64: Some("https://github.com/KarnYong/campp-runtime-binaries/releases/download/php-8.5.1/php-8.4.18-fpm-linux-aarch64.tar.gz".to_string()),
            macos_x64: Some("https://github.com/KarnYong/campp-runtime-binaries/releases/download/php-8.5.1/php-8.4.18-fpm-macos-x86_64.tar.gz".to_string()),
            macos_arm64: Some("https://github.com/KarnYong/campp-runtime-binaries/releases/download/php-8.5.1/php-8.4.18-fpm-macos-aarch64.tar.gz".to_string()),
        },
    }
}

fn default_mysql_version() -> (e: VersionInfo)
    ensures
        default_mysql_entry(e),
{
    VersionInfo {
        id: "mysql-8.4".to_string(),
        version: "8.4.0".to_string(),
        selected: true,
        display_name: "MySQL 8.4.0 LTS".to_string(),
        eol: false,
        lts: true,
        checksums: Checksums::none(),
        urls: Urls {
            windows_x64: Some("https://github.com/KarnYong/campp-runtime-binaries/releases/download/mysql-8.4.0/mysql-8.4.0-winx64.zip".to_string()),
            windows_arm64: Some("https://github.com/KarnYong/campp-runtime-binaries/releases/download/mysql-8.4.0/mysql-8.4.0-winx64.zip".to_string()),
            linux_x64: Some("https://github.com/KarnYong/campp-runtime-binaries/releases/download/mysql-8.4.0/mysql-8.4.0-linux-glibc2.28-x86_64.tar.xz".to_string()),
            linux_arm64: Some("https://github.com/KarnYong/campp-runtime-binaries/releases/download/mysql-8.4.0/mysql-8.4.0-linux-glibc2.28-aarch64.tar.xz".to_string()),
            macos_x64: Some("https://github.com/KarnYong/campp-runtime-binaries/releases/download/mysql-8.4.0/mysql-8.4.0-macos14-x86_64.tar.gz".to_string()),
            macos_arm64: Some("https://github.com/KarnYong/campp-runtime-binaries/releases/download/mysql-8.4.0/mysql-8.4.0-macos14-arm64.tar.gz".to_string()),
        },
    }
}

/// The catalog built into the application.
pub fn get_default_config() -> (c: RuntimeConfig)
    ensures
        default_config_spec(c@),
{
    let adminer = VersionInfoSingleUrl {
        id: "adminer-5.4".to_string(),
        version: "5.4.1".to_string(),
        selected: true,
        display_name: "Adminer 5.4.1".to_string(),
        eol: false,
        lts: false,
        checksum: None,
        url: "https://github.com/vrana/adminer/releases/download/v5.4.1/adminer-5.4.1.php".to_string(),
    };
    RuntimeConfig {
        version: "1.0".to_string(),
        binaries: BinariesConfig {
            caddy: BinaryConfig { versions: vec![default_caddy_version()] },
            php: BinaryConfig { versions: vec![default_php_version()] },
            mysql: BinaryConfig { versions: vec![default_mysql_version()] },
            postgresql: BinaryConfig { versions: vec![postgresql_version("17.10")] },
            phpmyadmin: PhpMyAdminConfig { versions: vec![adminer] },
            node: None,
            python: None,
            go: None,
            ruby: None,
        },
    }
}

/// Where a downloaded component is installed: each PHP version in its own
/// folder under `php_versions`, everything else in the runtime directory.
pub fn install_dir_for_component(component: BinaryComponent, runtime_dir: &str, php_id: &str) -> (r: String)
    ensures
        component == BinaryComponent::Php ==> r@ == crate::locator::version_dir_spec(runtime_dir@, php_id@),
        component != BinaryComponent::Php ==> r@ == runtime_dir@,
{
    if component == BinaryComponent::Php {
        crate::locator::php_version_dir(runtime_dir, php_id)
    } else {
        runtime_dir.to_string()
    }
}

/// The PHP version a downloader installs: its own selection, else the one
/// the settings select.
pub fn selected_php_id(selection: &Option<PackageSelection>, settings_php: &str) -> (r: String)
    ensures
        match selection {
            Some(s) => r@ == s.php@,
            None => r@ == settings_php@,
        },
{
    match selection {
        Some(s) => s.php.clone(),
        None => settings_php.to_string(),
    }
}

/// Whether downloaded bytes pass the check against an expected checksum:
/// there is none, or it is their SHA-256 in hex, case aside.
pub open spec fn checksum_accepted(bytes: Seq<u8>, expected: Option<Seq<char>>) -> bool {
    match expected {
        None => true,
        Some(e) => unicode_lowercase(hex_text(sha256(bytes))) == unicode_lowercase(e),
    }
}

/// A file always passes the check against the checksum computed from it.
pub proof fn lemma_own_checksum_accepted(bytes: Seq<u8>)
    ensures
        checksum_accepted(bytes, Some(hex_text(sha256(bytes)))),
{
}

/// What is said when the server answers a download with a web page.
pub fn html_response_message(final_url: &str) -> (s: String)
    ensures
        s@ == "Server returned HTML instead of binary. URL may be incorrect: "@ + final_url@,
{
    let mut s = String::new();
    push_str(&mut s, "Server returned HTML instead of binary. URL may be incorrect: ");
    push_str(&mut s, final_url);
    s
}

/// The binaries of an unpacked archive that must be executable on Unix.
pub open spec fn unpacked_binaries(dest: Seq<char>) -> Seq<Seq<char>> {
    crate::locator::joined_all(
        dest,
        seq![
            "caddy"@,
            "php-fpm"@,
            "php-cgi"@,
            "buildroot/bin/php-fpm"@,
            "buildroot/bin/php"@,
            "mysql/bin/mysqld"@,
            "bin/mysqld"@,
        ],
    )
}

/// The binaries of an unpacked archive that must be executable on Unix.
pub fn unpacked_binary_paths(dest: &str) -> (r: Vec<String>)
    ensures
        crate::packages::texts(r@) == unpacked_binaries(dest@),
{
    let tails: &[&str] = &[
        "caddy",
        "php-fpm",
        "php-cgi",
        "buildroot/bin/php-fpm",
        "buildroot/bin/php",
        "mysql/bin/mysqld",
        "bin/mysqld",
    ];
    let r = crate::locator::join_all(dest, tails);
    assert(crate::locator::strs(tails@) =~= seq![
        "caddy"@,
        "php-fpm"@,
        "php-cgi"@,
        "buildroot/bin/php-fpm"@,
        "buildroot/bin/php"@,
        "mysql/bin/mysqld"@,
        "bin/mysqld"@,
    ]);
    r
}

/// The permission bits a binary is given: unchanged where some execute bit
/// is set, else with `rwxr-xr-x` added.
pub fn with_execute_bits(mode: u32) -> (r: Option<u32>)
    ensures
        (mode & 0o111u32) != 0 ==> r is None,
        (mode & 0o111u32) == 0 ==> r == Some(mode | 0o755u32),
{
    if mode & 0o111 == 0 {
        Some(mode | 0o755)
    } else {
        None
    }
}

} // verus!
