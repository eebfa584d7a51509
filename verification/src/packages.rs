//! The runtime catalog: which versions of each runtime can be installed, where
//! they are downloaded from, and which of them are selected.

use vstd::prelude::*;
use crate::locator::{join_all, join_path, join_spec, joined_all, parent_path, parent_spec, strs};
use crate::text::{
    chars_of, eq_chars, non_empty, replace_all, replace_all_chars, split_nonempty, split_on, string_from_chars,
};

verus! {

broadcast use vstd::string::group_string_axioms;

/// A downloadable version of a runtime, with one URL per platform.
#[derive(Debug, Clone)]
pub struct GenericPackage {
    pub id: String,
    pub version: String,
    pub display_name: String,
    pub windows_x64: String,
    pub windows_arm64: String,
    pub linux_x64: String,
    pub linux_arm64: String,
    pub macos_x64: String,
    pub macos_arm64: String,
    pub eol: bool,
    pub lts: bool,
    pub recommended: bool,
}

/// A PHP version; it has the shape of every platform package.
pub type PhpPackage = GenericPackage;

/// A MySQL version.
pub type MySQLPackage = GenericPackage;

/// A PostgreSQL version.
pub type PostgreSQLPackage = GenericPackage;

/// A database tool version (Adminer or phpMyAdmin), one URL for all platforms.
#[derive(Debug, Clone)]
pub struct PhpMyAdminPackage {
    pub id: String,
    pub version: String,
    pub display_name: String,
    pub url: String,
    pub eol: bool,
    pub lts: bool,
    pub recommended: bool,
}

/// Available package versions for each component.
#[derive(Debug, Clone)]
pub struct PackagesConfig {
    pub php: Vec<PhpPackage>,
    pub mysql: Vec<MySQLPackage>,
    pub postgresql: Vec<PostgreSQLPackage>,
    pub phpmyadmin: Vec<PhpMyAdminPackage>,
    pub node: Vec<GenericPackage>,
    pub python: Vec<GenericPackage>,
    pub go: Vec<GenericPackage>,
    pub ruby: Vec<GenericPackage>,
}

/// The package versions a user selected.
#[derive(Debug, Clone)]
pub struct PackageSelection {
    pub php: String,
    pub mysql: String,
    pub postgresql: String,
    pub phpmyadmin: String,
    pub node: Option<String>,
    pub python: Option<String>,
    pub go: Option<String>,
    pub ruby: Option<String>,
}

/// Download URLs per platform; a platform may have none.
#[derive(Debug, Clone)]
pub struct Urls {
    pub windows_x64: Option<String>,
    pub windows_arm64: Option<String>,
    pub linux_x64: Option<String>,
    pub linux_arm64: Option<String>,
    pub macos_x64: Option<String>,
    pub macos_arm64: Option<String>,
}

/// SHA-256 checksums per platform, in hexadecimal; a platform may have none.
#[derive(Debug, Clone)]
pub struct Checksums {
    pub windows_x64: Option<String>,
    pub windows_arm64: Option<String>,
    pub linux_x64: Option<String>,
    pub linux_arm64: Option<String>,
    pub macos_x64: Option<String>,
    pub macos_arm64: Option<String>,
}

/// One version of a runtime in the catalog.
#[derive(Debug, Clone)]
pub struct VersionInfo {
    pub id: String,
    pub version: String,
    pub selected: bool,
    pub display_name: String,
    pub eol: bool,
    pub lts: bool,
    pub checksums: Checksums,
    pub urls: Urls,
}

/// One version of a database tool, with a single URL.
#[derive(Debug, Clone)]
pub struct VersionInfoSingleUrl {
    pub id: String,
    pub version: String,
    pub selected: bool,
    pub display_name: String,
    pub eol: bool,
    pub lts: bool,
    pub checksum: Option<String>,
    pub url: String,
}

/// The versions of one runtime.
#[derive(Debug, Clone)]
pub struct BinaryConfig {
    pub versions: Vec<VersionInfo>,
}

/// The versions of the database tools.
#[derive(Debug, Clone)]
pub struct PhpMyAdminConfig {
    pub versions: Vec<VersionInfoSingleUrl>,
}

/// The versions of every runtime.
#[derive(Debug, Clone)]
pub struct BinariesConfig {
    pub caddy: BinaryConfig,
    pub php: BinaryConfig,
    pub mysql: BinaryConfig,
    pub postgresql: BinaryConfig,
    pub phpmyadmin: PhpMyAdminConfig,
    pub node: Option<BinaryConfig>,
    pub python: Option<BinaryConfig>,
    pub go: Option<BinaryConfig>,
    pub ruby: Option<BinaryConfig>,
}

/// The runtime catalog as stored in `runtime-config.json`.
#[derive(Debug, Clone)]
pub struct RuntimeConfig {
    pub version: String,
    pub binaries: BinariesConfig,
}

// ---------------------------------------------------------------------------
// Copies. A derived `clone` carries no specification here, so each type has
// a copy whose result is the value itself.
// ---------------------------------------------------------------------------

/// A copy of an optional string.
pub fn copy_opt(o: &Option<String>) -> (r: Option<String>)
    ensures
        r == *o,
{
    match o {
        Some(s) => Some(s.clone()),
        None => None,
    }
}

impl Urls {
    pub fn duplicate(&self) -> (r: Urls)
        ensures
            r == *self,
    {
        Urls {
            windows_x64: copy_opt(&self.windows_x64),
            windows_arm64: copy_opt(&self.windows_arm64),
            linux_x64: copy_opt(&self.linux_x64),
            linux_arm64: copy_opt(&self.linux_arm64),
            macos_x64: copy_opt(&self.macos_x64),
            macos_arm64: copy_opt(&self.macos_arm64),
        }
    }
}

impl Checksums {
    pub fn duplicate(&self) -> (r: Checksums)
        ensures
            r == *self,
    {
        Checksums {
            windows_x64: copy_opt(&self.windows_x64),
            windows_arm64: copy_opt(&self.windows_arm64),
            linux_x64: copy_opt(&self.linux_x64),
            linux_arm64: copy_opt(&self.linux_arm64),
            macos_x64: copy_opt(&self.macos_x64),
            macos_arm64: copy_opt(&self.macos_arm64),
        }
    }

    /// No checksum for any platform.
    pub fn none() -> (r: Checksums)
        ensures
            r.windows_x64 is None && r.windows_arm64 is None && r.linux_x64 is None
                && r.linux_arm64 is None && r.macos_x64 is None && r.macos_arm64 is None,
    {
        Checksums {
            windows_x64: None,
            windows_arm64: None,
            linux_x64: None,
            linux_arm64: None,
            macos_x64: None,
            macos_arm64: None,
        }
    }
}

impl VersionInfo {
    pub fn duplicate(&self) -> (r: VersionInfo)
        ensures
            r == *self,
    {
        VersionInfo {
            id: self.id.clone(),
            version: self.version.clone(),
            selected: self.selected,
            display_name: self.display_name.clone(),
            eol: self.eol,
            lts: self.lts,
            checksums: self.checksums.duplicate(),
            urls: self.urls.duplicate(),
        }
    }
}

impl VersionInfoSingleUrl {
    pub fn duplicate(&self) -> (r: VersionInfoSingleUrl)
        ensures
            r == *self,
    {
        VersionInfoSingleUrl {
            id: self.id.clone(),
            version: self.version.clone(),
            selected: self.selected,
            display_name: self.display_name.clone(),
            eol: self.eol,
            lts: self.lts,
            checksum: copy_opt(&self.checksum),
            url: self.url.clone(),
        }
    }
}

/// A copy of a list of versions.
pub fn copy_versions(v: &Vec<VersionInfo>) -> (r: Vec<VersionInfo>)
    ensures
        r@ == v@,
{
    let mut r: Vec<VersionInfo> = Vec::new();
    let mut i: usize = 0;
    while i < v.len()
        invariant
            i <= v.len(),
            r@ == v@.take(i as int),
        decreases v.len() - i,
    {
        r.push(v[i].duplicate());
        assert(r@ =~= v@.take(i + 1));
        i = i + 1;
    }
    assert(v@.take(v.len() as int) =~= v@);
    r
}

/// A copy of a list of database tool versions.
pub fn copy_single_url_versions(v: &Vec<VersionInfoSingleUrl>) -> (r: Vec<VersionInfoSingleUrl>)
    ensures
        r@ == v@,
{
    let mut r: Vec<VersionInfoSingleUrl> = Vec::new();
    let mut i: usize = 0;
    while i < v.len()
        invariant
            i <= v.len(),
            r@ == v@.take(i as int),
        decreases v.len() - i,
    {
        r.push(v[i].duplicate());
        assert(r@ =~= v@.take(i + 1));
        i = i + 1;
    }
    assert(v@.take(v.len() as int) =~= v@);
    r
}

impl BinaryConfig {
    pub fn duplicate(&self) -> (r: BinaryConfig)
        ensures
            r.versions@ == self.versions@,
    {
        let versions = copy_versions(&self.versions);
        BinaryConfig { versions }
    }
}

/// The versions of an optional runtime entry, where it is present.
pub open spec fn opt_versions(o: Option<BinaryConfig>) -> Option<Seq<VersionInfo>> {
    match o {
        Some(b) => Some(b.versions@),
        None => None,
    }
}

/// A copy of an optional runtime entry.
pub fn copy_opt_binary(o: &Option<BinaryConfig>) -> (r: Option<BinaryConfig>)
    ensures
        opt_versions(r) == opt_versions(*o),
{
    match o {
        Some(b) => Some(b.duplicate()),
        None => None,
    }
}

impl PhpMyAdminConfig {
    pub fn duplicate(&self) -> (r: PhpMyAdminConfig)
        ensures
            r.versions@ == self.versions@,
    {
        let versions = copy_single_url_versions(&self.versions);
        PhpMyAdminConfig { versions }
    }
}

/// The catalog as plain values: the version lists of each runtime.
#[verifier::ext_equal]
pub struct RuntimeConfigView {
    pub version: String,
    pub caddy: Seq<VersionInfo>,
    pub php: Seq<VersionInfo>,
    pub mysql: Seq<VersionInfo>,
    pub postgresql: Seq<VersionInfo>,
    pub phpmyadmin: Seq<VersionInfoSingleUrl>,
    pub node: Option<Seq<VersionInfo>>,
    pub python: Option<Seq<VersionInfo>>,
    pub go: Option<Seq<VersionInfo>>,
    pub ruby: Option<Seq<VersionInfo>>,
}

impl View for RuntimeConfig {
    type V = RuntimeConfigView;

    open spec fn view(&self) -> RuntimeConfigView {
        RuntimeConfigView {
            version: self.version,
            caddy: self.binaries.caddy.versions@,
            php: self.binaries.php.versions@,
            mysql: self.binaries.mysql.versions@,
            postgresql: self.binaries.postgresql.versions@,
            phpmyadmin: self.binaries.phpmyadmin.versions@,
            node: opt_versions(self.binaries.node),
            python: opt_versions(self.binaries.python),
            go: opt_versions(self.binaries.go),
            ruby: opt_versions(self.binaries.ruby),
        }
    }
}

impl BinariesConfig {
    pub fn duplicate(&self) -> (r: BinariesConfig)
        ensures
            r.caddy.versions@ == self.caddy.versions@,
            r.php.versions@ == self.php.versions@,
            r.mysql.versions@ == self.mysql.versions@,
            r.postgresql.versions@ == self.postgresql.versions@,
            r.phpmyadmin.versions@ == self.phpmyadmin.versions@,
            opt_versions(r.node) == opt_versions(self.node),
            opt_versions(r.python) == opt_versions(self.python),
            opt_versions(r.go) == opt_versions(self.go),
            opt_versions(r.ruby) == opt_versions(self.ruby),
    {
        BinariesConfig {
            caddy: self.caddy.duplicate(),
            php: self.php.duplicate(),
            mysql: self.mysql.duplicate(),
            postgresql: self.postgresql.duplicate(),
            phpmyadmin: self.phpmyadmin.duplicate(),
            node: copy_opt_binary(&self.node),
            python: copy_opt_binary(&self.python),
            go: copy_opt_binary(&self.go),
            ruby: copy_opt_binary(&self.ruby),
        }
    }
}

impl RuntimeConfig {
    pub fn duplicate(&self) -> (r: RuntimeConfig)
        ensures
            r@ == self@,
    {
        RuntimeConfig { version: self.version.clone(), binaries: self.binaries.duplicate() }
    }
}

impl GenericPackage {
    pub fn duplicate(&self) -> (r: GenericPackage)
        ensures
            r == *self,
    {
        GenericPackage {
            id: self.id.clone(),
            version: self.version.clone(),
            display_name: self.display_name.clone(),
            windows_x64: self.windows_x64.clone(),
            windows_arm64: self.windows_arm64.clone(),
            linux_x64: self.linux_x64.clone(),
            linux_arm64: self.linux_arm64.clone(),
            macos_x64: self.macos_x64.clone(),
            macos_arm64: self.macos_arm64.clone(),
            eol: self.eol,
            lts: self.lts,
            recommended: self.recommended,
        }
    }
}

impl PhpMyAdminPackage {
    pub fn duplicate(&self) -> (r: PhpMyAdminPackage)
        ensures
            r == *self,
    {
        PhpMyAdminPackage {
            id: self.id.clone(),
            version: self.version.clone(),
            display_name: self.display_name.clone(),
            url: self.url.clone(),
            eol: self.eol,
            lts: self.lts,
            recommended: self.recommended,
        }
    }
}

impl PackageSelection {
    pub fn duplicate(&self) -> (r: PackageSelection)
        ensures
            r == *self,
    {
        PackageSelection {
            php: self.php.clone(),
            mysql: self.mysql.clone(),
            postgresql: self.postgresql.clone(),
            phpmyadmin: self.phpmyadmin.clone(),
            node: copy_opt(&self.node),
            python: copy_opt(&self.python),
            go: copy_opt(&self.go),
            ruby: copy_opt(&self.ruby),
        }
    }
}

// ---------------------------------------------------------------------------
// Selection and lookup.
// ---------------------------------------------------------------------------

/// The index of the version a catalog list selects: the first one marked
/// selected, else the first one, and none in an empty list.
pub open spec fn selected_index(v: Seq<VersionInfo>) -> Option<int> {
    if exists|i: int| 0 <= i < v.len() && #[trigger] v[i].selected {
        Some(
            choose|i: int|
                0 <= i < v.len() && #[trigger] v[i].selected && forall|j: int|
                    0 <= j < i ==> !v[j].selected,
        )
    } else if v.len() > 0 {
        Some(0)
    } else {
        None
    }
}

/// The first selected entry is unique: `selected_index` names it.
pub proof fn lemma_selected_index(v: Seq<VersionInfo>, k: int)
    requires
        0 <= k < v.len(),
        v[k].selected,
        forall|j: int| 0 <= j < k ==> !v[j].selected,
    ensures
        selected_index(v) == Some(k),
{
    let c = choose|i: int|
        0 <= i < v.len() && #[trigger] v[i].selected && forall|j: int| 0 <= j < i ==> !v[j].selected;
    assert(0 <= k < v.len() && v[k].selected && forall|j: int| 0 <= j < k ==> !v[j].selected);
    if c < k {
        assert(!v[c].selected);
    }
    if c > k {
        assert(!v[k].selected);
    }
}

/// Finds the index of the version a catalog list selects.
pub fn selected_version_index(versions: &Vec<VersionInfo>) -> (r: Option<usize>)
    ensures
        match r {
            Some(i) => i < versions.len() && selected_index(versions@) == Some(i as int),
            None => selected_index(versions@) is None,
        },
{
    let mut i: usize = 0;
    while i < versions.len()
        invariant
            i <= versions.len(),
            forall|j: int| 0 <= j < i ==> !versions@[j].selected,
        decreases versions.len() - i,
    {
        if versions[i].selected {
            proof {
                lemma_selected_index(versions@, i as int);
            }
            return Some(i);
        }
        i = i + 1;
    }
    if versions.len() > 0 {
        Some(0)
    } else {
        None
    }
}

/// The id of the version a catalog list selects.
pub fn selected_version_id(versions: &Vec<VersionInfo>) -> (r: Option<String>)
    ensures
        match selected_index(versions@) {
            Some(i) => r == Some(versions@[i].id),
            None => r is None,
        },
{
    match selected_version_index(versions) {
        Some(i) => Some(versions[i].id.clone()),
        None => None,
    }
}

/// The index of the database tool a catalog selects: the first marked
/// selected, else the first one.
pub open spec fn selected_tool_index(v: Seq<VersionInfoSingleUrl>) -> Option<int> {
    if exists|i: int| 0 <= i < v.len() && #[trigger] v[i].selected {
        Some(
            choose|i: int|
                0 <= i < v.len() && #[trigger] v[i].selected && forall|j: int|
                    0 <= j < i ==> !v[j].selected,
        )
    } else if v.len() > 0 {
        Some(0)
    } else {
        None
    }
}

pub proof fn lemma_selected_tool_index(v: Seq<VersionInfoSingleUrl>, k: int)
    requires
        0 <= k < v.len(),
        v[k].selected,
        forall|j: int| 0 <= j < k ==> !v[j].selected,
    ensures
        selected_tool_index(v) == Some(k),
{
    let c = choose|i: int|
        0 <= i < v.len() && #[trigger] v[i].selected && forall|j: int| 0 <= j < i ==> !v[j].selected;
    assert(0 <= k < v.len() && v[k].selected && forall|j: int| 0 <= j < k ==> !v[j].selected);
    if c < k {
        assert(!v[c].selected);
    }
    if c > k {
        assert(!v[k].selected);
    }
}

/// Finds the index of the database tool a catalog selects.
pub fn selected_tool_position(versions: &Vec<VersionInfoSingleUrl>) -> (r: Option<usize>)
    ensures
        match r {
            Some(i) => i < versions.len() && selected_tool_index(versions@) == Some(i as int),
            None => selected_tool_index(versions@) is None,
        },
{
    let mut i: usize = 0;
    while i < versions.len()
        invariant
            i <= versions.len(),
            forall|j: int| 0 <= j < i ==> !versions@[j].selected,
        decreases versions.len() - i,
    {
        if versions[i].selected {
            proof {
                lemma_selected_tool_index(versions@, i as int);
            }
            return Some(i);
        }
        i = i + 1;
    }
    if versions.len() > 0 {
        Some(0)
    } else {
        None
    }
}

/// The index of the first package with the given id.
pub open spec fn package_index(v: Seq<GenericPackage>, id: Seq<char>) -> Option<int> {
    if exists|i: int| 0 <= i < v.len() && #[trigger] v[i].id@ == id {
        Some(
            choose|i: int|
                0 <= i < v.len() && #[trigger] v[i].id@ == id && forall|j: int|
                    0 <= j < i ==> v[j].id@ != id,
        )
    } else {
        None
    }
}

pub proof fn lemma_package_index(v: Seq<GenericPackage>, id: Seq<char>, k: int)
    requires
        0 <= k < v.len(),
        v[k].id@ == id,
        forall|j: int| 0 <= j < k ==> v[j].id@ != id,
    ensures
        package_index(v, id) == Some(k),
{
    let c = choose|i: int|
        0 <= i < v.len() && #[trigger] v[i].id@ == id && forall|j: int| 0 <= j < i ==> v[j].id@ != id;
    assert(0 <= k < v.len() && v[k].id@ == id && forall|j: int| 0 <= j < k ==> v[j].id@ != id);
    if c < k {
        assert(v[c].id@ != id);
    }
    if c > k {
        assert(v[k].id@ != id);
    }
}

/// Whether two strings hold the same text.
pub fn same_text(a: &str, b: &str) -> (r: bool)
    ensures
        r == (a@ == b@),
{
    let x = chars_of(a);
    let y = chars_of(b);
    eq_chars(x.as_slice(), y.as_slice())
}

/// The first package of `packages` with the given id.
pub fn find_package(packages: &Vec<GenericPackage>, id: &str) -> (r: Option<GenericPackage>)
    ensures
        match package_index(packages@, id@) {
            Some(i) => r == Some(packages@[i]),
            None => r is None,
        },
{
    let mut i: usize = 0;
    while i < packages.len()
        invariant
            i <= packages.len(),
            forall|j: int| 0 <= j < i ==> packages@[j].id@ != id@,
        decreases packages.len() - i,
    {
        if same_text(packages[i].id.as_str(), id) {
            proof {
                lemma_package_index(packages@, id@, i as int);
            }
            return Some(packages[i].duplicate());
        }
        i = i + 1;
    }
    None
}

/// The index of the first database tool package with the given id.
pub open spec fn tool_package_index(v: Seq<PhpMyAdminPackage>, id: Seq<char>) -> Option<int> {
    if exists|i: int| 0 <= i < v.len() && #[trigger] v[i].id@ == id {
        Some(
            choose|i: int|
                0 <= i < v.len() && #[trigger] v[i].id@ == id && forall|j: int|
                    0 <= j < i ==> v[j].id@ != id,
        )
    } else {
        None
    }
}

pub proof fn lemma_tool_package_index(v: Seq<PhpMyAdminPackage>, id: Seq<char>, k: int)
    requires
        0 <= k < v.len(),
        v[k].id@ == id,
        forall|j: int| 0 <= j < k ==> v[j].id@ != id,
    ensures
        tool_package_index(v, id) == Some(k),
{
    let c = choose|i: int|
        0 <= i < v.len() && #[trigger] v[i].id@ == id && forall|j: int| 0 <= j < i ==> v[j].id@ != id;
    assert(0 <= k < v.len() && v[k].id@ == id && forall|j: int| 0 <= j < k ==> v[j].id@ != id);
    if c < k {
        assert(v[c].id@ != id);
    }
    if c > k {
        assert(v[k].id@ != id);
    }
}

/// The index of the first database tool version with the given id.
pub open spec fn tool_entry_index(v: Seq<VersionInfoSingleUrl>, id: Seq<char>) -> Option<int> {
    if exists|i: int| 0 <= i < v.len() && #[trigger] v[i].id@ == id {
        Some(
            choose|i: int|
                0 <= i < v.len() && #[trigger] v[i].id@ == id && forall|j: int|
                    0 <= j < i ==> v[j].id@ != id,
        )
    } else {
        None
    }
}

/// Some entry with the id comes first.
proof fn lemma_first_tool_exists(v: Seq<VersionInfoSingleUrl>, id: Seq<char>, i: int)
    requires
        0 <= i < v.len(),
        v[i].id@ == id,
    ensures
        exists|k: int| 0 <= k < v.len() && #[trigger] v[k].id@ == id && forall|j: int| 0 <= j < k ==> v[j].id@ != id,
    decreases i,
{
    if exists|j: int| 0 <= j < i && #[trigger] v[j].id@ == id {
        let j = choose|j: int| 0 <= j < i && #[trigger] v[j].id@ == id;
        lemma_first_tool_exists(v, id, j);
    } else {
        assert(0 <= i < v.len() && v[i].id@ == id && forall|j: int| 0 <= j < i ==> v[j].id@ != id);
    }
}

/// What `tool_entry_index` answers: the first entry with the id, or none
/// where no entry has it.
pub proof fn lemma_tool_entry_index_spec(v: Seq<VersionInfoSingleUrl>, id: Seq<char>)
    ensures
        match tool_entry_index(v, id) {
            Some(k) => 0 <= k < v.len() && v[k].id@ == id && forall|j: int| 0 <= j < k ==> v[j].id@ != id,
            None => forall|j: int| 0 <= j < v.len() ==> v[j].id@ != id,
        },
{
    if exists|i: int| 0 <= i < v.len() && #[trigger] v[i].id@ == id {
        let i = choose|i: int| 0 <= i < v.len() && #[trigger] v[i].id@ == id;
        lemma_first_tool_exists(v, id, i);
    }
}

pub proof fn lemma_tool_entry_index(v: Seq<VersionInfoSingleUrl>, id: Seq<char>, k: int)
    requires
        0 <= k < v.len(),
        v[k].id@ == id,
        forall|j: int| 0 <= j < k ==> v[j].id@ != id,
    ensures
        tool_entry_index(v, id) == Some(k),
{
    let c = choose|i: int|
        0 <= i < v.len() && #[trigger] v[i].id@ == id && forall|j: int| 0 <= j < i ==> v[j].id@ != id;
    assert(0 <= k < v.len() && v[k].id@ == id && forall|j: int| 0 <= j < k ==> v[j].id@ != id);
    if c < k {
        assert(v[c].id@ != id);
    }
    if c > k {
        assert(v[k].id@ != id);
    }
}

/// Get PHP package by ID.
pub fn get_php_package(packages: &PackagesConfig, id: &str) -> (r: Option<PhpPackage>)
    ensures
        match package_index(packages.php@, id@) {
            Some(i) => r == Some(packages.php@[i]),
            None => r is None,
        },
{
    find_package(&packages.php, id)
}

/// Get MySQL package by ID.
pub fn get_mysql_package(packages: &PackagesConfig, id: &str) -> (r: Option<MySQLPackage>)
    ensures
        match package_index(packages.mysql@, id@) {
            Some(i) => r == Some(packages.mysql@[i]),
            None => r is None,
        },
{
    find_package(&packages.mysql, id)
}

/// Get PostgreSQL package by ID.
pub fn get_postgresql_package(packages: &PackagesConfig, id: &str) -> (r: Option<PostgreSQLPackage>)
    ensures
        match package_index(packages.postgresql@, id@) {
            Some(i) => r == Some(packages.postgresql@[i]),
            None => r is None,
        },
{
    find_package(&packages.postgresql, id)
}

/// Get database tool package by ID.
pub fn get_phpmyadmin_package(packages: &PackagesConfig, id: &str) -> (r: Option<PhpMyAdminPackage>)
    ensures
        match tool_package_index(packages.phpmyadmin@, id@) {
            Some(i) => r == Some(packages.phpmyadmin@[i]),
            None => r is None,
        },
{
    let v = &packages.phpmyadmin;
    let mut i: usize = 0;
    while i < v.len()
        invariant
            i <= v.len(),
            v == &packages.phpmyadmin,
            forall|j: int| 0 <= j < i ==> v@[j].id@ != id@,
        decreases v.len() - i,
    {
        if same_text(v[i].id.as_str(), id) {
            proof {
                lemma_tool_package_index(v@, id@, i as int);
            }
            return Some(v[i].duplicate());
        }
        i = i + 1;
    }
    None
}

/// Get Node.js package by ID.
pub fn get_node_package(packages: &PackagesConfig, id: &str) -> (r: Option<GenericPackage>)
    ensures
        match package_index(packages.node@, id@) {
            Some(i) => r == Some(packages.node@[i]),
            None => r is None,
        },
{
    find_package(&packages.node, id)
}

/// Get Python package by ID.
pub fn get_python_package(packages: &PackagesConfig, id: &str) -> (r: Option<GenericPackage>)
    ensures
        match package_index(packages.python@, id@) {
            Some(i) => r == Some(packages.python@[i]),
            None => r is None,
        },
{
    find_package(&packages.python, id)
}

/// Get Go package by ID.
pub fn get_go_package(packages: &PackagesConfig, id: &str) -> (r: Option<GenericPackage>)
    ensures
        match package_index(packages.go@, id@) {
            Some(i) => r == Some(packages.go@[i]),
            None => r is None,
        },
{
    find_package(&packages.go, id)
}

/// Get Ruby package by ID.
pub fn get_ruby_package(packages: &PackagesConfig, id: &str) -> (r: Option<GenericPackage>)
    ensures
        match package_index(packages.ruby@, id@) {
            Some(i) => r == Some(packages.ruby@[i]),
            None => r is None,
        },
{
    find_package(&packages.ruby, id)
}

// ---------------------------------------------------------------------------
// From the catalog to the package lists shown to the user.
// ---------------------------------------------------------------------------

/// The text of an optional URL, empty where there is none.
pub open spec fn url_text(o: Option<String>) -> Seq<char> {
    match o {
        Some(s) => s@,
        None => Seq::empty(),
    }
}

/// The text of an optional URL, empty where there is none.
pub fn url_or_empty(o: &Option<String>) -> (s: String)
    ensures
        s@ == url_text(*o),
{
    match o {
        Some(u) => u.clone(),
        None => String::new(),
    }
}

/// `p` lists catalog version `v` under the display name `display`.
pub open spec fn package_lists(p: GenericPackage, v: VersionInfo, display: Seq<char>) -> bool {
    &&& p.id == v.id
    &&& p.version == v.version
    &&& p.display_name@ == display
    &&& p.windows_x64@ == url_text(v.urls.windows_x64)
    &&& p.windows_arm64@ == url_text(v.urls.windows_arm64)
    &&& p.linux_x64@ == url_text(v.urls.linux_x64)
    &&& p.linux_arm64@ == url_text(v.urls.linux_arm64)
    &&& p.macos_x64@ == url_text(v.urls.macos_x64)
    &&& p.macos_arm64@ == url_text(v.urls.macos_arm64)
    &&& p.eol == v.eol
    &&& p.lts == v.lts
    &&& p.recommended == v.selected
}

/// The package that lists catalog version `v`.
pub fn version_info_to_generic(v: &VersionInfo) -> (p: GenericPackage)
    ensures
        package_lists(p, *v, v.display_name@),
{
    GenericPackage {
        id: v.id.clone(),
        version: v.version.clone(),
        display_name: v.display_name.clone(),
        windows_x64: url_or_empty(&v.urls.windows_x64),
        windows_arm64: url_or_empty(&v.urls.windows_arm64),
        linux_x64: url_or_empty(&v.urls.linux_x64),
        linux_arm64: url_or_empty(&v.urls.linux_arm64),
        macos_x64: url_or_empty(&v.urls.macos_x64),
        macos_arm64: url_or_empty(&v.urls.macos_arm64),
        eol: v.eol,
        lts: v.lts,
        recommended: v.selected,
    }
}

/// The display name of a database server package: older catalogs name
/// MariaDB where MySQL is installed.
pub open spec fn database_display_name(name: Seq<char>) -> Seq<char> {
    replace_all(name, "MariaDB"@, "MySQL"@)
}

/// Get the platform-appropriate database display name.
pub fn get_database_display_name(display_name: &str) -> (r: String)
    ensures
        r@ == database_display_name(display_name@),
{
    let v = chars_of(display_name);
    let from = chars_of("MariaDB");
    let to = chars_of("MySQL");
    proof {
        reveal_strlit("MariaDB");
    }
    let r = replace_all_chars(v.as_slice(), from.as_slice(), to.as_slice());
    string_from_chars(r.as_slice())
}

/// The packages that list each version of `versions`, under the display name
/// of the catalog, or under the database display name where `database` holds.
pub fn packages_of(versions: &Vec<VersionInfo>, database: bool) -> (r: Vec<GenericPackage>)
    ensures
        r.len() == versions.len(),
        forall|i: int|
            0 <= i < versions.len() ==> package_lists(
                #[trigger] r@[i],
                versions@[i],
                if database {
                    database_display_name(versions@[i].display_name@)
                } else {
                    versions@[i].display_name@
                },
            ),
{
    let mut r: Vec<GenericPackage> = Vec::new();
    let mut i: usize = 0;
    while i < versions.len()
        invariant
            i <= versions.len(),
            r.len() == i,
            forall|k: int|
                0 <= k < i ==> package_lists(
                    #[trigger] r@[k],
                    versions@[k],
                    if database {
                        database_display_name(versions@[k].display_name@)
                    } else {
                        versions@[k].display_name@
                    },
                ),
        decreases versions.len() - i,
    {
        let mut p = version_info_to_generic(&versions[i]);
        if database {
            p.display_name = get_database_display_name(versions[i].display_name.as_str());
        }
        r.push(p);
        i = i + 1;
    }
    r
}

/// `p` lists database tool version `v`.
pub open spec fn tool_package_lists(p: PhpMyAdminPackage, v: VersionInfoSingleUrl) -> bool {
    &&& p.id == v.id
    &&& p.version == v.version
    &&& p.display_name == v.display_name
    &&& p.url == v.url
    &&& p.eol == v.eol
    &&& p.lts == v.lts
    &&& p.recommended == v.selected
}

/// The packages that list each database tool version.
pub fn tool_packages_of(versions: &Vec<VersionInfoSingleUrl>) -> (r: Vec<PhpMyAdminPackage>)
    ensures
        r.len() == versions.len(),
        forall|i: int| 0 <= i < versions.len() ==> tool_package_lists(#[trigger] r@[i], versions@[i]),
{
    let mut r: Vec<PhpMyAdminPackage> = Vec::new();
    let mut i: usize = 0;
    while i < versions.len()
        invariant
            i <= versions.len(),
            r.len() == i,
            forall|k: int| 0 <= k < i ==> tool_package_lists(#[trigger] r@[k], versions@[k]),
        decreases versions.len() - i,
    {
        let v = &versions[i];
        r.push(
            PhpMyAdminPackage {
                id: v.id.clone(),
                version: v.version.clone(),
                display_name: v.display_name.clone(),
                url: v.url.clone(),
                eol: v.eol,
                lts: v.lts,
                recommended: v.selected,
            },
        );
        i = i + 1;
    }
    r
}

/// The versions of an optional runtime entry, none where it is absent.
pub open spec fn optional_versions(b: Option<BinaryConfig>) -> Seq<VersionInfo> {
    match b {
        Some(c) => c.versions@,
        None => Seq::empty(),
    }
}

/// Each package of `p` lists the version of `v` at its position.
pub open spec fn lists_all(p: Seq<GenericPackage>, v: Seq<VersionInfo>, database: bool) -> bool {
    &&& p.len() == v.len()
    &&& forall|i: int|
        0 <= i < v.len() ==> package_lists(
            #[trigger] p[i],
            v[i],
            if database {
                database_display_name(v[i].display_name@)
            } else {
                v[i].display_name@
            },
        )
}

/// The package lists of a catalog.
pub fn runtime_config_to_packages(cfg: &RuntimeConfig) -> (r: PackagesConfig)
    ensures
        lists_all(r.php@, cfg.binaries.php.versions@, false),
        lists_all(r.mysql@, cfg.binaries.mysql.versions@, true),
        lists_all(r.postgresql@, cfg.binaries.postgresql.versions@, false),
        r.phpmyadmin.len() == cfg.binaries.phpmyadmin.versions.len(),
        forall|i: int|
            0 <= i < r.phpmyadmin.len() ==> tool_package_lists(
                #[trigger] r.phpmyadmin@[i],
                cfg.binaries.phpmyadmin.versions@[i],
            ),
        lists_all(r.node@, optional_versions(cfg.binaries.node), false),
        lists_all(r.python@, optional_versions(cfg.binaries.python), false),
        lists_all(r.go@, optional_versions(cfg.binaries.go), false),
        lists_all(r.ruby@, optional_versions(cfg.binaries.ruby), false),
{
    let b = &cfg.binaries;
    let node = match &b.node {
        Some(c) => packages_of(&c.versions, false),
        None => Vec::new(),
    };
    let python = match &b.python {
        Some(c) => packages_of(&c.versions, false),
        None => Vec::new(),
    };
    let go = match &b.go {
        Some(c) => packages_of(&c.versions, false),
        None => Vec::new(),
    };
    let ruby = match &b.ruby {
        Some(c) => packages_of(&c.versions, false),
        None => Vec::new(),
    };
    PackagesConfig {
        php: packages_of(&b.php.versions, false),
        mysql: packages_of(&b.mysql.versions, true),
        postgresql: packages_of(&b.postgresql.versions, false),
        phpmyadmin: tool_packages_of(&b.phpmyadmin.versions),
        node,
        python,
        go,
        ruby,
    }
}

/// The catalog selects a version of each runtime and database tool that a
/// selection needs.
pub open spec fn selects_required(cfg: RuntimeConfig) -> bool {
    &&& cfg.binaries.php.versions.len() > 0
    &&& cfg.binaries.mysql.versions.len() > 0
    &&& cfg.binaries.postgresql.versions.len() > 0
    &&& cfg.binaries.phpmyadmin.versions.len() > 0
}

/// The selection a catalog makes.
pub open spec fn selection_matches(s: PackageSelection, cfg: RuntimeConfig) -> bool {
    &&& s.php == cfg.binaries.php.versions@[selected_index(cfg.binaries.php.versions@).unwrap()].id
    &&& s.mysql == cfg.binaries.mysql.versions@[selected_index(
        cfg.binaries.mysql.versions@,
    ).unwrap()].id
    &&& s.postgresql == cfg.binaries.postgresql.versions@[selected_index(
        cfg.binaries.postgresql.versions@,
    ).unwrap()].id
    &&& s.phpmyadmin == cfg.binaries.phpmyadmin.versions@[selected_tool_index(
        cfg.binaries.phpmyadmin.versions@,
    ).unwrap()].id
    &&& s.node is None
    &&& s.python is None
    &&& s.go is None
    &&& s.ruby is None
}

/// The package ids that a catalog selects.
pub fn selected_package_ids_from_config(cfg: &RuntimeConfig) -> (s: PackageSelection)
    requires
        selects_required(*cfg),
    ensures
        selection_matches(s, *cfg),
{
    let php = selected_version_id(&cfg.binaries.php.versions);
    let mysql = selected_version_id(&cfg.binaries.mysql.versions);
    let postgresql = selected_version_id(&cfg.binaries.postgresql.versions);
    let tool = selected_tool_position(&cfg.binaries.phpmyadmin.versions);
    let php = match php {
        Some(x) => x,
        None => String::new(),
    };
    let mysql = match mysql {
        Some(x) => x,
        None => String::new(),
    };
    let postgresql = match postgresql {
        Some(x) => x,
        None => String::new(),
    };
    let phpmyadmin = match tool {
        Some(i) => cfg.binaries.phpmyadmin.versions[i].id.clone(),
        None => String::new(),
    };
    PackageSelection { php, mysql, postgresql, phpmyadmin, node: None, python: None, go: None, ruby: None }
}

// ---------------------------------------------------------------------------
// The loaded catalog.
// ---------------------------------------------------------------------------

/// The catalog in use: the one loaded from `runtime-config.json` where there
/// was one, the one built into the application, and the resource directory
/// of the installed application, which is set once.
pub struct RuntimeCatalog {
    config: Option<RuntimeConfig>,
    embedded: RuntimeConfig,
    resource_dir: Option<String>,
}

/// The view of an optional catalog.
pub open spec fn opt_config_view(c: Option<RuntimeConfig>) -> Option<RuntimeConfigView> {
    match c {
        Some(x) => Some(x@),
        None => None,
    }
}

impl RuntimeCatalog {
    /// The loaded catalog, where there is one.
    pub closed spec fn loaded(&self) -> Option<RuntimeConfigView> {
        opt_config_view(self.config)
    }

    /// The catalog built into the application.
    pub closed spec fn builtin(&self) -> RuntimeConfigView {
        self.embedded@
    }

    /// The resource directory, once set.
    pub closed spec fn resource(&self) -> Option<Seq<char>> {
        match self.resource_dir {
            Some(d) => Some(d@),
            None => None,
        }
    }

    /// The catalog that lookups use: the loaded one, else the built-in one.
    pub open spec fn effective(&self) -> RuntimeConfigView {
        match self.loaded() {
            Some(c) => c,
            None => self.builtin(),
        }
    }

    /// A catalog with what was loaded and the built-in catalog.
    pub fn new(loaded: Option<RuntimeConfig>, embedded: RuntimeConfig) -> (c: RuntimeCatalog)
        ensures
            c.loaded() == opt_config_view(loaded),
            c.builtin() == embedded@,
            c.resource() is None,
    {
        RuntimeCatalog { config: loaded, embedded, resource_dir: None }
    }

    fn effective_config(&self) -> (r: &RuntimeConfig)
        ensures
            r@ == self.effective(),
    {
        match &self.config {
            Some(c) => c,
            None => &self.embedded,
        }
    }
}

/// Records the resource directory of the installed application; only the
/// first call has an effect.
pub fn set_tauri_resource_dir(catalog: &mut RuntimeCatalog, path: String)
    ensures
        final(catalog).resource() == (match old(catalog).resource() {
            Some(d) => Some(d),
            None => Some(path@),
        }),
        final(catalog).loaded() == old(catalog).loaded(),
        final(catalog).builtin() == old(catalog).builtin(),
{
    if catalog.resource_dir.is_none() {
        catalog.resource_dir = Some(path);
    }
}

/// The recorded resource directory.
pub fn tauri_resource_dir(catalog: &RuntimeCatalog) -> (r: Option<String>)
    ensures
        opt_text_of(r) == catalog.resource(),
{
    copy_opt(&catalog.resource_dir)
}

/// The text of an optional string.
pub open spec fn opt_text_of(o: Option<String>) -> Option<Seq<char>> {
    match o {
        Some(s) => Some(s@),
        None => None,
    }
}

/// Replaces the loaded catalog by a freshly loaded one (or by none).
pub fn reload_runtime_config(catalog: &mut RuntimeCatalog, loaded: Option<RuntimeConfig>)
    ensures
        final(catalog).loaded() == opt_config_view(loaded),
        final(catalog).builtin() == old(catalog).builtin(),
        final(catalog).resource() == old(catalog).resource(),
{
    catalog.config = loaded;
}

/// Get the loaded runtime configuration.
pub fn get_config(catalog: &RuntimeCatalog) -> (r: Option<RuntimeConfig>)
    ensures
        opt_config_view(r) == catalog.loaded(),
{
    match &catalog.config {
        Some(c) => Some(c.duplicate()),
        None => None,
    }
}

/// The loaded catalog, or the built-in one.
pub fn config_or_builtin(catalog: &RuntimeCatalog) -> (r: RuntimeConfig)
    ensures
        r@ == catalog.effective(),
{
    catalog.effective_config().duplicate()
}

/// Get all available packages: those of the loaded catalog, else those of
/// the built-in one.
pub fn get_available_packages(catalog: &RuntimeCatalog) -> (r: PackagesConfig)
    ensures
        lists_all(r.php@, catalog.effective().php, false),
        lists_all(r.mysql@, catalog.effective().mysql, true),
        lists_all(r.postgresql@, catalog.effective().postgresql, false),
        r.phpmyadmin.len() == catalog.effective().phpmyadmin.len(),
        forall|i: int|
            0 <= i < r.phpmyadmin.len() ==> tool_package_lists(
                #[trigger] r.phpmyadmin@[i],
                catalog.effective().phpmyadmin[i],
            ),
        lists_all(r.node@, opt_seq(catalog.effective().node), false),
        lists_all(r.python@, opt_seq(catalog.effective().python), false),
        lists_all(r.go@, opt_seq(catalog.effective().go), false),
        lists_all(r.ruby@, opt_seq(catalog.effective().ruby), false),
{
    let cfg = catalog.effective_config();
    runtime_config_to_packages(cfg)
}

/// The versions of an optional list, none where it is absent.
pub open spec fn opt_seq(o: Option<Seq<VersionInfo>>) -> Seq<VersionInfo> {
    match o {
        Some(s) => s,
        None => Seq::empty(),
    }
}

/// The catalog selects a version of each required runtime.
pub open spec fn view_selects_required(c: RuntimeConfigView) -> bool {
    &&& c.php.len() > 0
    &&& c.mysql.len() > 0
    &&& c.postgresql.len() > 0
    &&& c.phpmyadmin.len() > 0
}

/// The selection a catalog view makes.
pub open spec fn view_selection(s: PackageSelection, c: RuntimeConfigView) -> bool {
    &&& s.php == c.php[selected_index(c.php).unwrap()].id
    &&& s.mysql == c.mysql[selected_index(c.mysql).unwrap()].id
    &&& s.postgresql == c.postgresql[selected_index(c.postgresql).unwrap()].id
    &&& s.phpmyadmin == c.phpmyadmin[selected_tool_index(c.phpmyadmin).unwrap()].id
    &&& s.node is None
    &&& s.python is None
    &&& s.go is None
    &&& s.ruby is None
}

/// Get the selected package IDs from the catalog in use.
pub fn get_selected_package_ids(catalog: &RuntimeCatalog) -> (s: PackageSelection)
    requires
        view_selects_required(catalog.effective()),
    ensures
        view_selection(s, catalog.effective()),
{
    selected_package_ids_from_config(catalog.effective_config())
}

/// The version of Caddy the catalog in use selects: the first selected, else
/// the first, else empty.
pub open spec fn selected_caddy_spec(c: RuntimeConfigView) -> Seq<char> {
    match selected_index(c.caddy) {
        Some(i) => c.caddy[i].version@,
        None => Seq::empty(),
    }
}

/// The version of Caddy the catalog in use selects.
pub fn selected_caddy_version(catalog: &RuntimeCatalog) -> (r: String)
    ensures
        r@ == selected_caddy_spec(catalog.effective()),
{
    let cfg = catalog.effective_config();
    match selected_version_index(&cfg.binaries.caddy.versions) {
        Some(i) => cfg.binaries.caddy.versions[i].version.clone(),
        None => String::new(),
    }
}

/// `paths` without repeats, each kept where it first occurs.
pub open spec fn first_occurrences(paths: Seq<Seq<char>>) -> Seq<Seq<char>>
    decreases paths.len(),
{
    if paths.len() == 0 {
        Seq::empty()
    } else {
        let prev = first_occurrences(paths.drop_last());
        if prev.contains(paths.last()) {
            prev
        } else {
            prev.push(paths.last())
        }
    }
}

/// The views of a list of strings.
pub open spec fn texts(v: Seq<String>) -> Seq<Seq<char>> {
    Seq::new(v.len(), |i: int| v[i]@)
}

/// Removes repeated paths, keeping the first occurrence of each.
pub fn dedupe_paths(paths: Vec<String>) -> (r: Vec<String>)
    ensures
        texts(r@) == first_occurrences(texts(paths@)),
{
    let ghost pv = texts(paths@);
    let mut unique: Vec<String> = Vec::new();
    let mut i: usize = 0;
    assert(texts(unique@) =~= first_occurrences(pv.take(0)));
    while i < paths.len()
        invariant
            i <= paths.len(),
            pv == texts(paths@),
            texts(unique@) == first_occurrences(pv.take(i as int)),
        decreases paths.len() - i,
    {
        let ghost prev = texts(unique@);
        assert(pv.take(i + 1).drop_last() =~= pv.take(i as int));
        assert(pv.take(i + 1).last() == paths@[i as int]@);
        let mut seen = false;
        let mut j: usize = 0;
        while j < unique.len() && !seen
            invariant
                j <= unique.len(),
                i < paths.len(),
                prev == texts(unique@),
                seen ==> j < unique.len() && prev[j as int] == paths@[i as int]@,
                !seen ==> forall|k: int| 0 <= k < j ==> prev[k] != paths@[i as int]@,
            decreases unique.len() - j + (if seen { 0int } else { 1int }),
        {
            if same_text(unique[j].as_str(), paths[i].as_str()) {
                seen = true;
            } else {
                j = j + 1;
            }
        }
        if !seen {
            let ghost before = unique@;
            unique.push(paths[i].clone());
            assert(texts(unique@) =~= texts(before).push(paths@[i as int]@));
        } else {
            assert(prev.contains(paths@[i as int]@));
        }
        i = i + 1;
    }
    assert(pv.take(paths.len() as int) =~= pv);
    unique
}

/// What the places searched for the runtime catalog depend on: the
/// application directories (configuration and base, where they could be
/// had), the `CHAMP_DATA_DIR` and `CHAMP_PORTABLE_DIR` variables, the user
/// data directory, the bundled resources, the executable's path, whether
/// this is Linux, and the `XDG_DATA_HOME` and `XDG_DATA_DIRS` variables.
pub struct ConfigSearchInputs {
    pub app_dirs: Option<(String, String)>,
    pub champ_data_dir: Option<String>,
    pub champ_portable_dir: Option<String>,
    pub data_local_dir: Option<String>,
    pub resource_dir: Option<String>,
    pub exe_path: Option<String>,
    pub linux: bool,
    pub xdg_data_home: Option<String>,
    pub xdg_data_dirs: Option<String>,
}

/// The places of the catalog under the application directories.
pub open spec fn app_part(a: Option<(String, String)>) -> Seq<Seq<char>> {
    match a {
        Some((config, base)) => seq![
            join_spec(config@, "runtime-config.json"@),
            join_spec(base@, "runtime-config.json"@),
        ],
        None => Seq::empty(),
    }
}

/// The places of the catalog under a directory named by a variable.
pub open spec fn env_part(d: Option<String>) -> Seq<Seq<char>> {
    match d {
        Some(x) => joined_all(x@, seq!["config/runtime-config.json"@, "runtime-config.json"@]),
        None => Seq::empty(),
    }
}

/// The places of the catalog under the user data directory.
pub open spec fn local_part(d: Option<String>) -> Seq<Seq<char>> {
    match d {
        Some(x) => joined_all(
            x@,
            seq!["CHAMP/config/runtime-config.json"@, "CHAMP/runtime-config.json"@, "campp/runtime-config.json"@],
        ),
        None => Seq::empty(),
    }
}

/// The place of the catalog among the bundled resources.
pub open spec fn resource_part(d: Option<String>) -> Seq<Seq<char>> {
    match d {
        Some(x) => seq![join_spec(x@, "runtime-config.json"@)],
        None => Seq::empty(),
    }
}

/// Where the catalog may lie under a directory of an installation.
pub open spec fn install_tails() -> Seq<Seq<char>> {
    seq![
        "runtime-config.json"@,
        "resources/runtime-config.json"@,
        "share/CHAMP/runtime-config.json"@,
        "share/champ/runtime-config.json"@,
        "lib/CHAMP/runtime-config.json"@,
        "lib/champ/runtime-config.json"@,
        "lib/share/CHAMP/runtime-config.json"@,
        "lib/share/champ/runtime-config.json"@,
    ]
}

/// The places of the catalog beside the executable, and in the two
/// directories above.
pub open spec fn exe_part(e: Option<String>) -> Seq<Seq<char>> {
    match e {
        Some(x) => match parent_spec(x@) {
            Some(d) => joined_all(d, install_tails()) + match parent_spec(d) {
                Some(p) => joined_all(p, install_tails()) + match parent_spec(p) {
                    Some(g) => joined_all(g, install_tails()),
                    None => Seq::empty(),
                },
                None => Seq::empty(),
            },
            None => Seq::empty(),
        },
        None => Seq::empty(),
    }
}

/// The places of the catalog under each directory of `XDG_DATA_DIRS`.
pub open spec fn xdg_each(dirs: Seq<Seq<char>>) -> Seq<Seq<char>>
    decreases dirs.len(),
{
    if dirs.len() == 0 {
        Seq::empty()
    } else {
        xdg_each(dirs.drop_last()) + joined_all(
            dirs.last(),
            seq!["CHAMP/runtime-config.json"@, "champ/runtime-config.json"@],
        )
    }
}

/// The places of the catalog that Linux adds.
pub open spec fn linux_part(linux: bool, home: Option<String>, dirs: Option<String>) -> Seq<Seq<char>> {
    if !linux {
        Seq::empty()
    } else {
        (match home {
            Some(h) => joined_all(h@, seq!["CHAMP/runtime-config.json"@, "champ/runtime-config.json"@]),
            None => Seq::empty(),
        }) + match dirs {
            Some(ds) => xdg_each(non_empty(split_on(ds@, ':'))),
            None => seq![
                "/usr/local/share/CHAMP/runtime-config.json"@,
                "/usr/share/CHAMP/runtime-config.json"@,
                "/usr/local/share/champ/runtime-config.json"@,
                "/usr/share/champ/runtime-config.json"@,
            ],
        }
    }
}

/// Every place searched for the catalog, in order, before repeats are
/// dropped.
pub open spec fn search_places(i: ConfigSearchInputs) -> Seq<Seq<char>> {
    app_part(i.app_dirs) + env_part(i.champ_data_dir) + env_part(i.champ_portable_dir) + local_part(
        i.data_local_dir,
    ) + resource_part(i.resource_dir) + seq!["runtime-config.json"@, "src-tauri/runtime-config.json"@]
        + exe_part(i.exe_path) + linux_part(i.linux, i.xdg_data_home, i.xdg_data_dirs)
}

/// Appends `base` joined with each of `tails`.
fn push_joined(out: &mut Vec<String>, base: &str, tails: &[&str])
    ensures
        texts(final(out)@) == texts(old(out)@) + joined_all(base@, strs(tails@)),
{
    let mut more = join_all(base, tails);
    let ghost before = texts(out@);
    let ghost mv = more@;
    out.append(&mut more);
    assert(texts(out@) =~= before + texts(mv));
}

/// Appends the places of the catalog under a directory of an installation.
fn push_install_dir(out: &mut Vec<String>, dir: &str)
    ensures
        texts(final(out)@) == texts(old(out)@) + joined_all(dir@, install_tails()),
{
    let tails: &[&str] = &[
        "runtime-config.json",
        "resources/runtime-config.json",
        "share/CHAMP/runtime-config.json",
        "share/champ/runtime-config.json",
        "lib/CHAMP/runtime-config.json",
        "lib/champ/runtime-config.json",
        "lib/share/CHAMP/runtime-config.json",
        "lib/share/champ/runtime-config.json",
    ];
    push_joined(out, dir, tails);
    assert(strs(tails@) =~= install_tails());
}

/// Appends the places of the catalog under a directory named by a variable.
fn push_env(out: &mut Vec<String>, d: &Option<String>)
    ensures
        texts(final(out)@) == texts(old(out)@) + env_part(*d),
{
    match d {
        Some(x) => {
            let tails: &[&str] = &["config/runtime-config.json", "runtime-config.json"];
            push_joined(out, x.as_str(), tails);
            assert(strs(tails@) =~= seq!["config/runtime-config.json"@, "runtime-config.json"@]);
        },
        None => {
            assert(texts(out@) =~= texts(out@) + Seq::<Seq<char>>::empty());
        },
    }
}

/// Appends the places of the catalog beside the executable and above it.
fn push_exe(out: &mut Vec<String>, e: &Option<String>)
    ensures
        texts(final(out)@) == texts(old(out)@) + exe_part(*e),
{
    let ghost before = texts(out@);
    match e {
        Some(x) => match parent_path(x.as_str()) {
            Some(d) => {
                push_install_dir(out, d.as_str());
                let ghost one = texts(out@);
                match parent_path(d.as_str()) {
                    Some(p) => {
                        push_install_dir(out, p.as_str());
                        match parent_path(p.as_str()) {
                            Some(g) => {
                                push_install_dir(out, g.as_str());
                            },
                            None => {},
                        }
                    },
                    None => {},
                }
            },
            None => {},
        },
        None => {},
    }
    assert(texts(out@) =~= before + exe_part(*e));
}

/// Appends the places of the catalog under the `XDG_DATA_DIRS` directories.
fn push_xdg_dirs(out: &mut Vec<String>, dirs: &str)
    ensures
        texts(final(out)@) == texts(old(out)@) + xdg_each(non_empty(split_on(dirs@, ':'))),
{
    let v = chars_of(dirs);
    let parts = split_nonempty(v.as_slice(), ':');
    let ghost pv = parts@.map_values(|w: Vec<char>| w@);
    let ghost before = texts(out@);
    let tails: &[&str] = &["CHAMP/runtime-config.json", "champ/runtime-config.json"];
    assert(strs(tails@) =~= seq!["CHAMP/runtime-config.json"@, "champ/runtime-config.json"@]);
    let mut i: usize = 0;
    assert(before + xdg_each(pv.take(0)) =~= before);
    while i < parts.len()
        invariant
            i <= parts@.len(),
            pv == parts@.map_values(|w: Vec<char>| w@),
            strs(tails@) == seq!["CHAMP/runtime-config.json"@, "champ/runtime-config.json"@],
            texts(out@) == before + xdg_each(pv.take(i as int)),
        decreases parts.len() - i,
    {
        let d = string_from_chars(parts[i].as_slice());
        push_joined(out, d.as_str(), tails);
        assert(pv.take(i + 1).drop_last() =~= pv.take(i as int));
        assert(pv.take(i + 1).last() == d@);
        assert(texts(out@) =~= before + xdg_each(pv.take(i + 1)));
        i = i + 1;
    }
    assert(pv.take(i as int) =~= pv);
}

/// Appends the places of the catalog that Linux adds.
fn push_linux(out: &mut Vec<String>, linux: bool, home: &Option<String>, dirs: &Option<String>)
    ensures
        texts(final(out)@) == texts(old(out)@) + linux_part(linux, *home, *dirs),
{
    let ghost before = texts(out@);
    if !linux {
        assert(texts(out@) =~= before + linux_part(linux, *home, *dirs));
        return;
    }
    match home {
        Some(h) => {
            let tails: &[&str] = &["CHAMP/runtime-config.json", "champ/runtime-config.json"];
            push_joined(out, h.as_str(), tails);
            assert(strs(tails@) =~= seq!["CHAMP/runtime-config.json"@, "champ/runtime-config.json"@]);
        },
        None => {},
    }
    let ghost mid = texts(out@);
    assert(mid =~= before + match home {
        Some(h) => joined_all(h@, seq!["CHAMP/runtime-config.json"@, "champ/runtime-config.json"@]),
        None => Seq::<Seq<char>>::empty(),
    });
    match dirs {
        Some(ds) => push_xdg_dirs(out, ds.as_str()),
        None => {
            out.push("/usr/local/share/CHAMP/runtime-config.json".to_string());
            out.push("/usr/share/CHAMP/runtime-config.json".to_string());
            out.push("/usr/local/share/champ/runtime-config.json".to_string());
            out.push("/usr/share/champ/runtime-config.json".to_string());
        },
    }
    assert(texts(out@) =~= mid + match dirs {
        Some(ds) => xdg_each(non_empty(split_on(ds@, ':'))),
        None => seq![
            "/usr/local/share/CHAMP/runtime-config.json"@,
            "/usr/share/CHAMP/runtime-config.json"@,
            "/usr/local/share/champ/runtime-config.json"@,
            "/usr/share/champ/runtime-config.json"@,
        ],
    });
    assert(texts(out@) =~= before + linux_part(linux, *home, *dirs));
}

/// Every place the runtime catalog is looked for, in order, each once.
pub fn runtime_config_search_paths(inputs: &ConfigSearchInputs) -> (r: Vec<String>)
    ensures
        texts(r@) == first_occurrences(search_places(*inputs)),
{
    let mut out: Vec<String> = Vec::new();
    assert(texts(out@) =~= Seq::<Seq<char>>::empty());
    match &inputs.app_dirs {
        Some((config, base)) => {
            out.push(join_path(config.as_str(), "runtime-config.json"));
            out.push(join_path(base.as_str(), "runtime-config.json"));
        },
        None => {},
    }
    assert(texts(out@) =~= app_part(inputs.app_dirs));
    push_env(&mut out, &inputs.champ_data_dir);
    push_env(&mut out, &inputs.champ_portable_dir);
    let ghost a = texts(out@);
    match &inputs.data_local_dir {
        Some(x) => {
            let tails: &[&str] = &[
                "CHAMP/config/runtime-config.json",
                "CHAMP/runtime-config.json",
                "campp/runtime-config.json",
            ];
            push_joined(&mut out, x.as_str(), tails);
            assert(strs(tails@) =~= seq![
                "CHAMP/config/runtime-config.json"@,
                "CHAMP/runtime-config.json"@,
                "campp/runtime-config.json"@,
            ]);
        },
        None => {},
    }
    assert(texts(out@) =~= a + local_part(inputs.data_local_dir));
    let ghost b = texts(out@);
    match &inputs.resource_dir {
        Some(x) => {
            out.push(join_path(x.as_str(), "runtime-config.json"));
        },
        None => {},
    }
    out.push("runtime-config.json".to_string());
    out.push(join_path("src-tauri", "runtime-config.json"));
    proof {
        reveal_strlit("src-tauri");
        reveal_strlit("src-tauri/runtime-config.json");
        reveal_strlit("runtime-config.json");
        reveal_strlit("/");
    }
    assert("src-tauri"@ + "/"@ + "runtime-config.json"@ =~= "src-tauri/runtime-config.json"@);
    assert(texts(out@) =~= b + resource_part(inputs.resource_dir) + seq![
        "runtime-config.json"@,
        "src-tauri/runtime-config.json"@,
    ]);
    push_exe(&mut out, &inputs.exe_path);
    push_linux(&mut out, inputs.linux, &inputs.xdg_data_home, &inputs.xdg_data_dirs);
    assert(texts(out@) =~= search_places(*inputs));
    dedupe_paths(out)
}

/// Dropping repeats keeps each path once, in the order of its first
/// occurrence, and loses none.
pub proof fn lemma_first_occurrences(paths: Seq<Seq<char>>)
    ensures
        forall|i: int, j: int|
            0 <= i < j < first_occurrences(paths).len() ==> #[trigger] first_occurrences(paths)[i]
                != #[trigger] first_occurrences(paths)[j],
        forall|x: Seq<char>| paths.contains(x) <==> #[trigger] first_occurrences(paths).contains(x),
    decreases paths.len(),
{
    if paths.len() > 0 {
        let init = paths.drop_last();
        let last = paths.last();
        let prev = first_occurrences(init);
        lemma_first_occurrences(init);
        assert forall|x: Seq<char>| paths.contains(x) <==> init.contains(x) || x == last by {
            if paths.contains(x) {
                let k = choose|k: int| 0 <= k < paths.len() && paths[k] == x;
                if k < paths.len() - 1 {
                    assert(init[k] == x);
                }
            }
            if init.contains(x) {
                let k = choose|k: int| 0 <= k < init.len() && init[k] == x;
                assert(paths[k] == x);
            }
            if x == last {
                assert(paths[paths.len() - 1] == x);
            }
        }
        if !prev.contains(last) {
            let fo = prev.push(last);
            assert forall|x: Seq<char>| fo.contains(x) <==> prev.contains(x) || x == last by {
                if fo.contains(x) {
                    let k = choose|k: int| 0 <= k < fo.len() && fo[k] == x;
                    if k < prev.len() {
                        assert(prev[k] == x);
                    }
                }
                if prev.contains(x) {
                    let k = choose|k: int| 0 <= k < prev.len() && prev[k] == x;
                    assert(fo[k] == x);
                }
                if x == last {
                    assert(fo[prev.len() as int] == x);
                }
            }
            assert forall|i: int, j: int| 0 <= i < j < fo.len() implies #[trigger] fo[i] != #[trigger] fo[j] by {
                if j == prev.len() {
                    assert(fo[i] == prev[i]);
                    assert(prev.contains(prev[i]));
                } else {
                    assert(fo[i] == prev[i] && fo[j] == prev[j]);
                }
            }
        }
    }
}

} // verus!
