//! The dependency model that the rules read: the workspace's shared
//! declarations and each package's declared dependencies, with the findings.
use vstd::prelude::*;
use crate::rules::names;

verus! {

/// A dependency table of a package.
#[derive(Clone, Copy, Debug, PartialEq, Eq, Structural)]
pub enum TableKind {
    Normal,
    Dev,
    Build,
}

impl TableKind {
    /// The table's key in a package manifest.
    pub fn table_key(&self) -> (r: &'static str)
        ensures
            r@ == table_key_of(*self),
    {
        match self {
            TableKind::Normal => "dependencies",
            TableKind::Dev => "dev-dependencies",
            TableKind::Build => "build-dependencies",
        }
    }

    /// How a finding names the table's entries.
    pub fn entry_label(&self) -> (r: &'static str)
        ensures
            r@ == entry_label_of(*self),
    {
        match self {
            TableKind::Normal => "dependency",
            TableKind::Dev => "dev-dependency",
            TableKind::Build => "build-dependency",
        }
    }
}

pub open spec fn table_key_of(t: TableKind) -> Seq<char> {
    match t {
        TableKind::Normal => "dependencies"@,
        TableKind::Dev => "dev-dependencies"@,
        TableKind::Build => "build-dependencies"@,
    }
}

pub open spec fn entry_label_of(t: TableKind) -> Seq<char> {
    match t {
        TableKind::Normal => "dependency"@,
        TableKind::Dev => "dev-dependency"@,
        TableKind::Build => "build-dependency"@,
    }
}

/// A dependency declared once in the workspace's shared table.
#[derive(Clone, Debug)]
pub struct SharedDependency {
    pub name: String,
    /// The features that the declaration itself enables.
    pub features: Vec<String>,
}

pub struct SharedModel {
    pub name: Seq<char>,
    pub features: Seq<Seq<char>>,
}

impl View for SharedDependency {
    type V = SharedModel;

    open spec fn view(&self) -> SharedModel {
        SharedModel { name: self.name@, features: names(self.features@) }
    }
}

/// A package entry that takes its declaration from the shared table.
#[derive(Clone, Debug)]
pub struct InheritedEntry {
    /// Whether the entry says `workspace = true`.
    pub workspace: bool,
    /// The features that the entry adds.
    pub features: Vec<String>,
    /// Whether the entry sets `default-features` (or `default_features`).
    pub default_features_set: bool,
}

pub struct InheritedModel {
    pub workspace: bool,
    pub features: Seq<Seq<char>>,
    pub default_features_set: bool,
}

impl View for InheritedEntry {
    type V = InheritedModel;

    open spec fn view(&self) -> InheritedModel {
        InheritedModel {
            workspace: self.workspace,
            features: names(self.features@),
            default_features_set: self.default_features_set,
        }
    }
}

/// How a package declares one of its dependencies.
#[derive(Clone, Debug)]
pub enum DependencySpec {
    /// A declaration of its own (version, path, git...).
    Explicit,
    /// A declaration taken from the shared table.
    Inherited(InheritedEntry),
}

/// One entry of a package's dependency table.
#[derive(Clone, Debug)]
pub struct DeclaredDependency {
    pub name: String,
    pub spec: DependencySpec,
}

pub struct DeclaredModel {
    pub name: Seq<char>,
    pub inherited: Option<InheritedModel>,
}

impl View for DeclaredDependency {
    type V = DeclaredModel;

    open spec fn view(&self) -> DeclaredModel {
        DeclaredModel {
            name: self.name@,
            inherited: match self.spec {
                DependencySpec::Explicit => None,
                DependencySpec::Inherited(e) => Some(e@),
            },
        }
    }
}

/// The dependency tables of one package.
#[derive(Clone, Debug)]
pub struct PackageManifest {
    pub dependencies: Vec<DeclaredDependency>,
    pub dev_dependencies: Vec<DeclaredDependency>,
    pub build_dependencies: Vec<DeclaredDependency>,
}

pub struct PackageModel {
    pub dependencies: Seq<DeclaredModel>,
    pub dev_dependencies: Seq<DeclaredModel>,
    pub build_dependencies: Seq<DeclaredModel>,
}

pub open spec fn entries(v: Seq<DeclaredDependency>) -> Seq<DeclaredModel> {
    v.map_values(|d: DeclaredDependency| d@)
}

pub open spec fn shared_models(v: Seq<SharedDependency>) -> Seq<SharedModel> {
    v.map_values(|d: SharedDependency| d@)
}

impl View for PackageManifest {
    type V = PackageModel;

    open spec fn view(&self) -> PackageModel {
        PackageModel {
            dependencies: entries(self.dependencies@),
            dev_dependencies: entries(self.dev_dependencies@),
            build_dependencies: entries(self.build_dependencies@),
        }
    }
}

/// Whether no two entries of a table share a name, as no two keys of a TOML
/// table do.
pub open spec fn distinct_entry_names(t: Seq<DeclaredModel>) -> bool {
    forall|i: int, j: int|
        0 <= i < t.len() && 0 <= j < t.len() && i != j ==> #[trigger] t[i].name != #[trigger] t[j].name
}

/// Whether no two shared declarations share a name.
pub open spec fn distinct_shared_names(shared: Seq<SharedModel>) -> bool {
    forall|i: int, j: int|
        0 <= i < shared.len() && 0 <= j < shared.len() && i != j ==> #[trigger] shared[i].name
            != #[trigger] shared[j].name
}

impl PackageModel {
    /// A package read from a manifest: each of its tables has distinct names.
    pub open spec fn wf(self) -> bool {
        &&& distinct_entry_names(self.dependencies)
        &&& distinct_entry_names(self.dev_dependencies)
        &&& distinct_entry_names(self.build_dependencies)
    }
}

pub open spec fn package_models(v: Seq<PackageManifest>) -> Seq<PackageModel> {
    v.map_values(|p: PackageManifest| p@)
}

impl PackageModel {
    pub open spec fn table(self, t: TableKind) -> Seq<DeclaredModel> {
        match t {
            TableKind::Normal => self.dependencies,
            TableKind::Dev => self.dev_dependencies,
            TableKind::Build => self.build_dependencies,
        }
    }
}

impl PackageManifest {
    pub fn table(&self, t: TableKind) -> (r: &Vec<DeclaredDependency>)
        ensures
            entries(r@) == self@.table(t),
    {
        match t {
            TableKind::Normal => &self.dependencies,
            TableKind::Dev => &self.dev_dependencies,
            TableKind::Build => &self.build_dependencies,
        }
    }
}

/// What a finding reports.
#[derive(Clone, Debug)]
pub enum FindingKind {
    /// Features that the shared declaration already enables.
    RedundantFeatures(Vec<String>),
    /// A `default-features` flag, which an inherited entry cannot change.
    RedundantDefaultFeaturesFlag,
    /// A shared declaration that no package uses.
    UnusedSharedDependency,
}

pub enum RuleModel {
    RedundantFeatures(Seq<Seq<char>>),
    RedundantDefaultFeaturesFlag,
    UnusedSharedDependency,
}

/// One detected violation of the rules.
#[derive(Clone, Debug)]
pub struct Finding {
    pub name: String,
    /// The package table the entry stands in; none for the shared table.
    pub table: Option<TableKind>,
    pub kind: FindingKind,
}

pub struct FindingModel {
    pub name: Seq<char>,
    pub table: Option<TableKind>,
    pub rule: RuleModel,
}

impl View for Finding {
    type V = FindingModel;

    open spec fn view(&self) -> FindingModel {
        FindingModel {
            name: self.name@,
            table: self.table,
            rule: match self.kind {
                FindingKind::RedundantFeatures(v) => RuleModel::RedundantFeatures(names(v@)),
                FindingKind::RedundantDefaultFeaturesFlag => RuleModel::RedundantDefaultFeaturesFlag,
                FindingKind::UnusedSharedDependency => RuleModel::UnusedSharedDependency,
            },
        }
    }
}

pub open spec fn finding_models(v: Seq<Finding>) -> Seq<FindingModel> {
    v.map_values(|f: Finding| f@)
}

} // verus!
