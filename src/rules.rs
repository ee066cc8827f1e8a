//! The redundancy rules: pure functions over the dependency model.
use vstd::prelude::*;
use crate::model::{
    distinct_entry_names, distinct_shared_names, entries, finding_models, shared_models,
    DeclaredDependency, DeclaredModel, DependencySpec, InheritedModel, Finding, FindingKind, FindingModel, InheritedEntry, PackageManifest, PackageModel, RuleModel,
    SharedDependency, SharedModel, TableKind,
};

verus! {

/// The characters of each string of a sequence.
pub open spec fn names(v: Seq<String>) -> Seq<Seq<char>> {
    v.map_values(|s: String| s@)
}

/// The features of `features` that `shared` already enables, in the order of
/// `features`.
pub open spec fn redundant_features_of(shared: Seq<Seq<char>>, features: Seq<Seq<char>>) -> Seq<
    Seq<char>,
> {
    features.filter(|f: Seq<char>| shared.contains(f))
}

/// Whether `name` occurs in `v`.
pub fn contains_name(v: &Vec<String>, name: &String) -> (r: bool)
    ensures
        r == names(v@).contains(name@),
{
    let mut i: usize = 0;
    while i < v.len()
        invariant
            0 <= i <= v.len(),
            forall|j: int| 0 <= j < i ==> v@[j]@ != name@,
        decreases v.len() - i,
    {
        if v[i] == *name {
            assert(names(v@)[i as int] == name@);
            return true;
        }
        i = i + 1;
    }
    assert forall|j: int| 0 <= j < names(v@).len() implies names(v@)[j] != name@ by {
        assert(names(v@)[j] == v@[j]@);
    }
    false
}

/// The features that an inherited entry lists although the shared declaration
/// (whose required features are `shared`) already enables them, in the order in
/// which the entry lists them.
pub fn find_redundant_features(shared: &Vec<String>, features: &Vec<String>) -> (r: Vec<String>)
    ensures
        names(r@) == redundant_features_of(names(shared@), names(features@)),
{
    let mut r: Vec<String> = Vec::new();
    let mut i: usize = 0;
    while i < features.len()
        invariant
            0 <= i <= features.len(),
            names(r@) == redundant_features_of(names(shared@), names(features@.subrange(0, i as int))),
        decreases features.len() - i,
    {
        let ghost before = r@;
        let ghost sub = names(features@.subrange(0, i as int + 1));
        assert(sub.drop_last() =~= names(features@.subrange(0, i as int)));
        assert(sub.last() == features@[i as int]@);
        reveal_with_fuel(Seq::filter, 1);
        if contains_name(shared, &features[i]) {
            r.push(features[i].clone());
            assert(names(r@) =~= names(before).push(features@[i as int]@));
        } else {
            assert(names(r@) =~= names(before));
        }
        i = i + 1;
    }
    assert(features@.subrange(0, features@.len() as int) =~= features@);
    r
}

/// The first entry of a table that is named `name`.
pub open spec fn lookup(t: Seq<DeclaredModel>, name: Seq<char>) -> Option<DeclaredModel>
    decreases t.len(),
{
    if t.len() == 0 {
        None
    } else if t[0].name == name {
        Some(t[0])
    } else {
        lookup(t.drop_first(), name)
    }
}

proof fn lemma_lookup_at(t: Seq<DeclaredModel>, name: Seq<char>, i: int)
    requires
        0 <= i < t.len(),
        t[i].name == name,
        forall|j: int| 0 <= j < i ==> t[j].name != name,
    ensures
        lookup(t, name) == Some(t[i]),
    decreases i,
{
    if i > 0 {
        lemma_lookup_at(t.drop_first(), name, i - 1);
    }
}

proof fn lemma_lookup_none(t: Seq<DeclaredModel>, name: Seq<char>)
    requires
        forall|j: int| 0 <= j < t.len() ==> t[j].name != name,
    ensures
        lookup(t, name) is None,
    decreases t.len(),
{
    if t.len() > 0 {
        lemma_lookup_none(t.drop_first(), name);
    }
}

/// In a table whose names are distinct, as a manifest's are, the entry that
/// `lookup` finds for a name is the one entry of that name.
pub proof fn lemma_lookup_unique(t: Seq<DeclaredModel>, i: int)
    requires
        distinct_entry_names(t),
        0 <= i < t.len(),
    ensures
        lookup(t, t[i].name) == Some(t[i]),
{
    assert forall|j: int| 0 <= j < i implies t[j].name != t[i].name by {
        assert(t[j].name != t[i].name);
    }
    lemma_lookup_at(t, t[i].name, i);
}

/// The findings for the entry named like the shared declaration `s` in
/// table `t` of package `p`: only an inherited entry that says
/// `workspace = true` is subject to the rules.
pub open spec fn table_findings(s: SharedModel, p: PackageModel, t: TableKind) -> Seq<FindingModel> {
    match lookup(p.table(t), s.name) {
        Some(d) => match d.inherited {
            Some(e) => if e.workspace {
                let red = redundant_features_of(s.features, e.features);
                (if red.len() > 0 {
                    seq![FindingModel { name: s.name, table: Some(t), rule: RuleModel::RedundantFeatures(red) }]
                } else {
                    Seq::empty()
                }) + (if e.default_features_set {
                    seq![FindingModel { name: s.name, table: Some(t), rule: RuleModel::RedundantDefaultFeaturesFlag }]
                } else {
                    Seq::empty()
                })
            } else {
                Seq::empty()
            },
            None => Seq::empty(),
        },
        None => Seq::empty(),
    }
}

/// The findings of a package, shared declaration by shared declaration, and
/// for each the normal table before the dev table.
pub open spec fn package_findings(shared: Seq<SharedModel>, p: PackageModel) -> Seq<FindingModel>
    decreases shared.len(),
{
    if shared.len() == 0 {
        Seq::empty()
    } else {
        package_findings(shared.drop_last(), p) + table_findings(shared.last(), p, TableKind::Normal)
            + table_findings(shared.last(), p, TableKind::Dev)
    }
}

/// The position of the first entry of `t` named `name`.
pub fn find_entry(t: &Vec<DeclaredDependency>, name: &String) -> (r: Option<usize>)
    ensures
        match r {
            Some(i) => i < t@.len() && lookup(entries(t@), name@) == Some(entries(t@)[i as int]),
            None => lookup(entries(t@), name@) is None,
        },
{
    let mut i: usize = 0;
    while i < t.len()
        invariant
            0 <= i <= t.len(),
            forall|j: int| 0 <= j < i ==> entries(t@)[j].name != name@,
        decreases t.len() - i,
    {
        if t[i].name == *name {
            proof {
                lemma_lookup_at(entries(t@), name@, i as int);
            }
            return Some(i);
        }
        i = i + 1;
    }
    proof {
        lemma_lookup_none(entries(t@), name@);
    }
    None
}

/// Whether an inherited entry sets the default-features flag, which has no
/// effect on an entry that takes its declaration from the shared table.
pub fn find_redundant_default_features_flag(entry: &InheritedEntry) -> (r: bool)
    ensures
        r == entry.default_features_set,
{
    entry.default_features_set
}

/// Appends the findings of table `t` of `package` for the shared declaration
/// `shared`.
pub fn lint_table(
    out: &mut Vec<Finding>,
    shared: &SharedDependency,
    package: &PackageManifest,
    t: TableKind,
)
    ensures
        finding_models(final(out)@) == finding_models(old(out)@) + table_findings(shared@, package@, t),
{
    let ghost start = old(out)@;
    let table = package.table(t);
    match find_entry(table, &shared.name) {
        None => {
            assert(finding_models(out@) =~= finding_models(start) + Seq::empty());
        },
        Some(i) => {
            assert(entries(table@)[i as int] == table@[i as int]@);
            match &table[i].spec {
                DependencySpec::Explicit => {
                    assert(finding_models(out@) =~= finding_models(start) + Seq::empty());
                },
                DependencySpec::Inherited(e) => {
                    if e.workspace {
                        let red = find_redundant_features(&shared.features, &e.features);
                        if red.len() > 0 {
                            out.push(
                                Finding {
                                    name: shared.name.clone(),
                                    table: Some(t),
                                    kind: FindingKind::RedundantFeatures(red),
                                },
                            );
                        }
                        if find_redundant_default_features_flag(e) {
                            out.push(
                                Finding {
                                    name: shared.name.clone(),
                                    table: Some(t),
                                    kind: FindingKind::RedundantDefaultFeaturesFlag,
                                },
                            );
                        }
                        assert(finding_models(out@) =~= finding_models(start) + table_findings(
                            shared@,
                            package@,
                            t,
                        ));
                    } else {
                        assert(finding_models(out@) =~= finding_models(start) + Seq::empty());
                    }
                },
            }
        },
    }
}

/// The findings of one package against the shared declarations: for each
/// shared declaration, the redundant features and the redundant
/// default-features flag of the package's inherited normal and dev entries.
pub fn lint_package(shared: &Vec<SharedDependency>, package: &PackageManifest) -> (r: Vec<Finding>)
    ensures
        finding_models(r@) == package_findings(shared_models(shared@), package@),
{
    let mut out: Vec<Finding> = Vec::new();
    let mut i: usize = 0;
    while i < shared.len()
        invariant
            0 <= i <= shared.len(),
            finding_models(out@) == package_findings(
                shared_models(shared@.subrange(0, i as int)),
                package@,
            ),
        decreases shared.len() - i,
    {
        let ghost sub = shared_models(shared@.subrange(0, i as int + 1));
        assert(sub.drop_last() =~= shared_models(shared@.subrange(0, i as int)));
        assert(sub.last() == shared@[i as int]@);
        lint_table(&mut out, &shared[i], package, TableKind::Normal);
        lint_table(&mut out, &shared[i], package, TableKind::Dev);
        i = i + 1;
    }
    assert(shared@.subrange(0, shared@.len() as int) =~= shared@);
    out
}

/// The first shared declaration named `name`.
pub open spec fn shared_lookup(shared: Seq<SharedModel>, name: Seq<char>) -> Option<SharedModel>
    decreases shared.len(),
{
    if shared.len() == 0 {
        None
    } else if shared[0].name == name {
        Some(shared[0])
    } else {
        shared_lookup(shared.drop_first(), name)
    }
}

/// An entry as the fixes leave it: an inherited `workspace = true` entry of a
/// shared declaration loses the features that the declaration enables and its
/// default-features flag; any other entry stays as it is.
pub open spec fn fixed_entry(shared: Seq<SharedModel>, d: DeclaredModel) -> DeclaredModel {
    match (shared_lookup(shared, d.name), d.inherited) {
        (Some(s), Some(e)) => if e.workspace {
            DeclaredModel {
                name: d.name,
                inherited: Some(
                    InheritedModel {
                        workspace: true,
                        features: e.features.filter(|f: Seq<char>| !s.features.contains(f)),
                        default_features_set: false,
                    },
                ),
            }
        } else {
            d
        },
        _ => d,
    }
}

/// A package as the fixes leave it: its normal and dev entries fixed, its
/// build entries untouched.
pub open spec fn fixed_package(shared: Seq<SharedModel>, p: PackageModel) -> PackageModel {
    PackageModel {
        dependencies: p.dependencies.map_values(|d: DeclaredModel| fixed_entry(shared, d)),
        dev_dependencies: p.dev_dependencies.map_values(|d: DeclaredModel| fixed_entry(shared, d)),
        build_dependencies: p.build_dependencies,
    }
}

pub open spec fn shared_decl_names(shared: Seq<SharedModel>) -> Seq<Seq<char>> {
    shared.map_values(|s: SharedModel| s.name)
}

proof fn lemma_shared_lookup_unique(shared: Seq<SharedModel>, k: int)
    requires
        0 <= k < shared.len(),
        shared_decl_names(shared).no_duplicates(),
    ensures
        shared_lookup(shared, shared[k].name) == Some(shared[k]),
    decreases k,
{
    if k > 0 {
        assert(shared_decl_names(shared)[0] != shared_decl_names(shared)[k]);
        assert(shared_decl_names(shared.drop_first()) =~= shared_decl_names(shared).drop_first());
        lemma_shared_lookup_unique(shared.drop_first(), k - 1);
    }
}

proof fn lemma_lookup_fixed(shared: Seq<SharedModel>, t: Seq<DeclaredModel>, name: Seq<char>)
    ensures
        lookup(t.map_values(|d: DeclaredModel| fixed_entry(shared, d)), name) == match lookup(
            t,
            name,
        ) {
            Some(d) => Some(fixed_entry(shared, d)),
            None => None,
        },
    decreases t.len(),
{
    let ft = t.map_values(|d: DeclaredModel| fixed_entry(shared, d));
    if t.len() > 0 {
        assert(ft.drop_first() =~= t.drop_first().map_values(
            |d: DeclaredModel| fixed_entry(shared, d),
        ));
        lemma_lookup_fixed(shared, t.drop_first(), name);
    }
}

proof fn lemma_filter_both_empty(s: Seq<Seq<char>>, f: Seq<Seq<char>>)
    ensures
        redundant_features_of(s, f.filter(|x: Seq<char>| !s.contains(x))).len() == 0,
{
    broadcast use vstd::seq_lib::group_filter_ensures;

    let kept = f.filter(|x: Seq<char>| !s.contains(x));
    let red = redundant_features_of(s, kept);
    if red.len() > 0 {
        assert(s.contains(red[0]));
        kept.lemma_filter_contains_rev(|x: Seq<char>| s.contains(x), red[0]);
        let j = choose|j: int| 0 <= j < kept.len() && kept[j] == red[0];
        assert(!s.contains(kept[j]));
    }
}

proof fn lemma_fixed_table_clean(
    shared: Seq<SharedModel>,
    p: PackageModel,
    k: int,
    t: TableKind,
)
    requires
        0 <= k < shared.len(),
        shared_decl_names(shared).no_duplicates(),
        t == TableKind::Normal || t == TableKind::Dev,
    ensures
        table_findings(shared[k], fixed_package(shared, p), t) == Seq::<FindingModel>::empty(),
{
    let s = shared[k];
    lemma_lookup_fixed(shared, p.table(t), s.name);
    assert(fixed_package(shared, p).table(t) == p.table(t).map_values(
        |d: DeclaredModel| fixed_entry(shared, d),
    ));
    if let Some(d) = lookup(p.table(t), s.name) {
        lemma_lookup_name(p.table(t), s.name);
        lemma_shared_lookup_unique(shared, k);
        if let Some(e) = d.inherited {
            if e.workspace {
                lemma_filter_both_empty(s.features, e.features);
            }
        }
    }
    assert(table_findings(s, fixed_package(shared, p), t) =~= Seq::<FindingModel>::empty());
}

proof fn lemma_lookup_name(t: Seq<DeclaredModel>, name: Seq<char>)
    ensures
        lookup(t, name) matches Some(d) ==> d.name == name,
    decreases t.len(),
{
    if t.len() > 0 {
        lemma_lookup_name(t.drop_first(), name);
    }
}

proof fn lemma_fixed_prefix_clean(shared: Seq<SharedModel>, p: PackageModel, k: int)
    requires
        0 <= k <= shared.len(),
        shared_decl_names(shared).no_duplicates(),
    ensures
        package_findings(shared.subrange(0, k), fixed_package(shared, p)) == Seq::<
            FindingModel,
        >::empty(),
    decreases k,
{
    if k > 0 {
        let sub = shared.subrange(0, k);
        assert(sub.drop_last() =~= shared.subrange(0, k - 1));
        lemma_fixed_prefix_clean(shared, p, k - 1);
        lemma_fixed_table_clean(shared, p, k - 1, TableKind::Normal);
        lemma_fixed_table_clean(shared, p, k - 1, TableKind::Dev);
        assert(package_findings(sub, fixed_package(shared, p)) =~= Seq::<FindingModel>::empty());
    }
}

/// Linting a package that the fixes have repaired finds nothing: the fix pass
/// is idempotent. (The shared table's names are distinct, as the keys of a
/// TOML table are.)
pub proof fn lemma_fix_idempotent(shared: Seq<SharedModel>, p: PackageModel)
    requires
        distinct_shared_names(shared),
    ensures
        package_findings(shared, fixed_package(shared, p)) == Seq::<FindingModel>::empty(),
{
    let ns = shared_decl_names(shared);
    assert forall|i: int, j: int| 0 <= i < ns.len() && 0 <= j < ns.len() && i != j implies ns[i]
        != ns[j] by {
        assert(shared[i].name != shared[j].name);
    }
    lemma_fixed_prefix_clean(shared, p, shared.len() as int);
    assert(shared.subrange(0, shared.len() as int) =~= shared);
}

} // verus!
