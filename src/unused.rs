//! Shared declarations that no package of the workspace uses.
use vstd::prelude::*;
use crate::model::{
    distinct_shared_names, entries, package_models, shared_models, DeclaredDependency,
    DeclaredModel, PackageManifest, PackageModel, SharedDependency, SharedModel,
};
use crate::rules::names;

verus! {

/// Whether a table has an entry named `name`.
pub open spec fn table_declares(t: Seq<DeclaredModel>, name: Seq<char>) -> bool {
    exists|j: int| 0 <= j < t.len() && #[trigger] t[j].name == name
}

/// Whether a package names `name` in its normal, dev or build table, however
/// it declares it.
pub open spec fn package_declares(p: PackageModel, name: Seq<char>) -> bool {
    table_declares(p.dependencies, name) || table_declares(p.dev_dependencies, name)
        || table_declares(p.build_dependencies, name)
}

/// Whether some package names `name`.
pub open spec fn used_by_any(ps: Seq<PackageModel>, name: Seq<char>) -> bool {
    exists|k: int| 0 <= k < ps.len() && package_declares(#[trigger] ps[k], name)
}

pub open spec fn shared_names(shared: Seq<SharedModel>) -> Seq<Seq<char>> {
    shared.map_values(|s: SharedModel| s.name)
}

/// The names of the shared declarations that no package uses, in the order
/// of the shared table.
pub open spec fn unused_of(shared: Seq<SharedModel>, ps: Seq<PackageModel>) -> Seq<Seq<char>> {
    shared_names(shared).filter(|n: Seq<char>| !used_by_any(ps, n))
}

/// Whether table `t` has an entry named `name`.
pub fn has_entry(t: &Vec<DeclaredDependency>, name: &String) -> (r: bool)
    ensures
        r == table_declares(entries(t@), name@),
{
    let mut i: usize = 0;
    while i < t.len()
        invariant
            0 <= i <= t.len(),
            forall|j: int| 0 <= j < i ==> entries(t@)[j].name != name@,
        decreases t.len() - i,
    {
        if t[i].name == *name {
            assert(entries(t@)[i as int].name == name@);
            return true;
        }
        i = i + 1;
    }
    false
}

/// Whether some package names `name` in one of its three tables.
pub fn is_used(packages: &Vec<PackageManifest>, name: &String) -> (r: bool)
    ensures
        r == used_by_any(package_models(packages@), name@),
{
    let mut k: usize = 0;
    while k < packages.len()
        invariant
            0 <= k <= packages.len(),
            forall|m: int| 0 <= m < k ==> !package_declares(package_models(packages@)[m], name@),
        decreases packages.len() - k,
    {
        let p = &packages[k];
        assert(package_models(packages@)[k as int] == p@);
        if has_entry(&p.dependencies, name) || has_entry(&p.dev_dependencies, name) || has_entry(
            &p.build_dependencies,
            name,
        ) {
            return true;
        }
        k = k + 1;
    }
    false
}

/// The shared declarations that no package names in its normal, dev or build
/// table, in the order of the shared table.
pub fn find_unused(shared: &Vec<SharedDependency>, packages: &Vec<PackageManifest>) -> (r: Vec<
    String,
>)
    ensures
        names(r@) == unused_of(shared_models(shared@), package_models(packages@)),
{
    let ghost ps = package_models(packages@);
    let mut r: Vec<String> = Vec::new();
    let mut i: usize = 0;
    while i < shared.len()
        invariant
            0 <= i <= shared.len(),
            ps == package_models(packages@),
            names(r@) == unused_of(shared_models(shared@.subrange(0, i as int)), ps),
        decreases shared.len() - i,
    {
        let ghost before = r@;
        let ghost sub = shared_names(shared_models(shared@.subrange(0, i as int + 1)));
        assert(sub.drop_last() =~= shared_names(shared_models(shared@.subrange(0, i as int))));
        assert(sub.last() == shared@[i as int].name@);
        reveal_with_fuel(Seq::filter, 1);
        if !is_used(packages, &shared[i].name) {
            r.push(shared[i].name.clone());
            assert(names(r@) =~= names(before).push(shared@[i as int].name@));
        } else {
            assert(names(r@) =~= names(before));
        }
        i = i + 1;
    }
    assert(shared@.subrange(0, shared@.len() as int) =~= shared@);
    r
}

/// A name is reported unused exactly when it is a shared declaration that no
/// package names in its normal, dev or build table.
pub proof fn lemma_unused_iff_undeclared(
    shared: Seq<SharedModel>,
    ps: Seq<PackageModel>,
    name: Seq<char>,
)
    ensures
        unused_of(shared, ps).contains(name) <==> (shared_names(shared).contains(name) && forall|
            k: int,
        |
            0 <= k < ps.len() ==> !package_declares(#[trigger] ps[k], name)),
{
    broadcast use vstd::seq_lib::group_filter_ensures;

    let pred = |n: Seq<char>| !used_by_any(ps, n);
    let all = shared_names(shared);
    assert(unused_of(shared, ps) == all.filter(pred));
    if unused_of(shared, ps).contains(name) {
        let i = choose|i: int| 0 <= i < all.filter(pred).len() && all.filter(pred)[i] == name;
        assert(pred(all.filter(pred)[i]));
        all.lemma_filter_contains_rev(pred, name);
        assert(!used_by_any(ps, name));
    }
    if all.contains(name) && forall|k: int|
        0 <= k < ps.len() ==> !package_declares(#[trigger] ps[k], name) {
        let i = choose|i: int| 0 <= i < all.len() && all[i] == name;
        assert(pred(all[i]));
        assert(all.filter(pred).contains(all[i]));
    }
}

proof fn lemma_filter_distinct(s: Seq<Seq<char>>, pred: spec_fn(Seq<char>) -> bool)
    requires
        s.no_duplicates(),
    ensures
        s.filter(pred).no_duplicates(),
    decreases s.len(),
{
    reveal_with_fuel(Seq::filter, 1);
    if s.len() > 0 {
        let rest = s.drop_last();
        assert(rest.no_duplicates());
        lemma_filter_distinct(rest, pred);
        if pred(s.last()) {
            let f = rest.filter(pred);
            assert forall|j: int| 0 <= j < f.len() implies f[j] != s.last() by {
                rest.lemma_filter_contains_rev(pred, f[j]);
                let k = choose|k: int| 0 <= k < rest.len() && rest[k] == f[j];
                assert(s[k] == rest[k]);
            }
            assert(f.push(s.last()).no_duplicates());
        }
    }
}

/// Where the shared table's names are distinct, as the keys of a TOML table
/// are, no name is reported unused twice.
pub proof fn lemma_unused_distinct(shared: Seq<SharedModel>, ps: Seq<PackageModel>)
    requires
        distinct_shared_names(shared),
    ensures
        unused_of(shared, ps).no_duplicates(),
{
    let ns = shared_names(shared);
    assert forall|i: int, j: int| 0 <= i < ns.len() && 0 <= j < ns.len() && i != j implies ns[i]
        != ns[j] by {
        assert(shared[i].name != shared[j].name);
    }
    lemma_filter_distinct(shared_names(shared), |n: Seq<char>| !used_by_any(ps, n));
    assert(unused_of(shared, ps) == shared_names(shared).filter(|n: Seq<char>| !used_by_any(ps, n)));
}

} // verus!
