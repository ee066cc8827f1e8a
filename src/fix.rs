//! The lint and fix passes: findings become edits of the document, and the
//! edited document becomes a text and the diff shown for it.
use vstd::prelude::*;
use crate::document::{path3, sequence_items_removed, DocModel, Document};
use crate::model::{
    entries, finding_models, table_key_of, RuleModel, FindingModel, package_models, shared_models, DeclaredDependency, DeclaredModel,
    DependencySpec, Finding, FindingKind, InheritedEntry, PackageManifest, SharedDependency,
    TableKind,
};
use crate::report::{
    diff_models, diff_report, is_change, line_diff_of, tidy_manifest_text, tidy_of, DiffLine,
    DiffLineModel,
};
use crate::rules::{lint_package, names, package_findings};
use crate::unused::{find_unused, unused_of};

verus! {

/// The entries of table `t` with the default-features flag of each inherited
/// entry read from the package's document, under either spelling; all else
/// stays as it is.
pub fn read_default_features_flags(
    table: &Vec<DeclaredDependency>,
    t: TableKind,
    doc: &Document,
) -> (r: Vec<DeclaredDependency>)
    ensures
        r@.len() == table@.len(),
        forall|i: int|
            0 <= i < r@.len() ==> same_but_flag(#[trigger] entries(r@)[i], entries(table@)[i]),
        forall|i: int|
            0 <= i < r@.len() ==> ((#[trigger] entries(r@)[i]).inherited matches Some(e)
                ==> e.default_features_set == flag_in_document(doc.keys(), t, entries(table@)[i].name)),
{
    let mut r: Vec<DeclaredDependency> = Vec::new();
    let mut i: usize = 0;
    while i < table.len()
        invariant
            0 <= i <= table.len(),
            r@.len() == i,
            forall|j: int| 0 <= j < i ==> same_but_flag(#[trigger] entries(r@)[j], entries(table@)[j]),
            forall|j: int|
                0 <= j < i ==> ((#[trigger] entries(r@)[j]).inherited matches Some(e)
                    ==> e.default_features_set == flag_in_document(doc.keys(), t, entries(table@)[j].name)),
        decreases table.len() - i,
    {
        let d = &table[i];
        let ghost before = r@;
        let spec = match &d.spec {
            DependencySpec::Explicit => DependencySpec::Explicit,
            DependencySpec::Inherited(e) => {
                let name = d.name.as_str();
                let set = doc.has_key(t.table_key(), name, "default-features") || doc.has_key(
                    t.table_key(),
                    name,
                    "default_features",
                );
                DependencySpec::Inherited(
                    InheritedEntry {
                        workspace: e.workspace,
                        features: e.features.clone(),
                        default_features_set: set,
                    },
                )
            },
        };
        r.push(DeclaredDependency { name: d.name.clone(), spec });
        proof {
            assert forall|j: int| 0 <= j < i implies same_but_flag(
                #[trigger] entries(r@)[j],
                entries(table@)[j],
            ) by {
                assert(entries(r@)[j] == entries(before)[j]);
            }
            assert forall|j: int|
                0 <= j <= i && (#[trigger] entries(r@)[j]).inherited is Some implies entries(r@)[j].inherited->0.default_features_set
                    == flag_in_document(doc.keys(), t, entries(table@)[j].name) by {
                if j < i {
                    assert(entries(r@)[j] == entries(before)[j]);
                }
            }
            assert(entries(r@)[i as int] == r@[i as int]@);
            assert(entries(table@)[i as int] == table@[i as int]@);
            assert(names(e_features(r@[i as int])) =~= names(e_features(table@[i as int])));
        }
        i = i + 1;
    }
    r
}

/// Whether the entry `name` of table `t` sets the default-features flag in
/// the document, under either spelling.
pub open spec fn flag_in_document(keys: Set<Seq<Seq<char>>>, t: TableKind, name: Seq<char>) -> bool {
    keys.contains(path3(table_key_of(t), name, "default-features"@)) || keys.contains(
        path3(table_key_of(t), name, "default_features"@),
    )
}

spec fn e_features(d: DeclaredDependency) -> Seq<String> {
    match d.spec {
        DependencySpec::Inherited(e) => e.features@,
        DependencySpec::Explicit => Seq::empty(),
    }
}

/// Two entries that agree in all but the default-features flag.
pub open spec fn same_but_flag(a: DeclaredModel, b: DeclaredModel) -> bool {
    &&& a.name == b.name
    &&& match (a.inherited, b.inherited) {
        (Some(x), Some(y)) => x.workspace == y.workspace && x.features == y.features,
        (None, None) => true,
        _ => false,
    }
}

/// The model with the path `p` gone.
pub open spec fn key_removed(m: DocModel, p: Seq<Seq<char>>) -> DocModel {
    DocModel { keys: m.keys.remove(p), arrays: m.arrays.remove(p) }
}

/// The model after the edit that repairs finding `f`; none where the entry's
/// feature list, which a redundant-features finding edits, is missing.
pub open spec fn fix_applied(m: DocModel, f: FindingModel) -> Option<DocModel> {
    match (f.rule, f.table) {
        (RuleModel::RedundantFeatures(v), Some(t)) => {
            let p = path3(table_key_of(t), f.name, "features"@);
            if m.arrays.contains_key(p) {
                Some(sequence_items_removed(m, p, v))
            } else {
                None
            }
        },
        (RuleModel::RedundantDefaultFeaturesFlag, Some(t)) => Some(
            key_removed(
                key_removed(m, path3(table_key_of(t), f.name, "default-features"@)),
                path3(table_key_of(t), f.name, "default_features"@),
            ),
        ),
        (RuleModel::UnusedSharedDependency, _) => Some(
            key_removed(m, path3("workspace"@, "dependencies"@, f.name)),
        ),
        _ => Some(m),
    }
}

/// The model after the edits of all `fs`, in order; none where one of them
/// finds its feature list missing.
pub open spec fn fixes_applied(m: DocModel, fs: Seq<FindingModel>) -> Option<DocModel>
    decreases fs.len(),
{
    if fs.len() == 0 {
        Some(m)
    } else {
        match fixes_applied(m, fs.drop_last()) {
            Some(m2) => fix_applied(m2, fs.last()),
            None => None,
        }
    }
}

proof fn lemma_fixes_stay_failed(m: DocModel, fs: Seq<FindingModel>, k: int)
    requires
        0 <= k <= fs.len(),
        fixes_applied(m, fs.subrange(0, k)) is None,
    ensures
        fixes_applied(m, fs) is None,
    decreases fs.len() - k,
{
    if k < fs.len() {
        assert(fs.subrange(0, k + 1).drop_last() =~= fs.subrange(0, k));
        lemma_fixes_stay_failed(m, fs, k + 1);
    } else {
        assert(fs.subrange(0, k) =~= fs);
    }
}

/// Whether the document model no longer holds what finding `f` reports: the
/// entry's feature list, if it is still there, is non-empty and holds none of
/// the dropped features; neither spelling of the default-features flag is
/// left; the unused shared declaration is gone.
pub open spec fn fix_holds(m: DocModel, f: FindingModel) -> bool {
    match (f.rule, f.table) {
        (RuleModel::RedundantFeatures(v), Some(t)) => {
            let p = path3(table_key_of(t), f.name, "features"@);
            m.arrays.contains_key(p) ==> m.arrays[p].len() > 0 && forall|j: int|
                0 <= j < m.arrays[p].len() ==> crate::document::item_kept(#[trigger] m.arrays[p][j], v)
        },
        (RuleModel::RedundantDefaultFeaturesFlag, Some(t)) => !flag_in_document(m.keys, t, f.name),
        (RuleModel::UnusedSharedDependency, _) => !m.keys.contains(
            path3("workspace"@, "dependencies"@, f.name),
        ),
        _ => true,
    }
}

proof fn lemma_fix_establishes(m: DocModel, f: FindingModel)
    requires
        fix_applied(m, f) is Some,
    ensures
        fix_holds(fix_applied(m, f)->0, f),
{
    broadcast use vstd::seq_lib::group_filter_ensures;

    let m2 = fix_applied(m, f)->0;
    if let (RuleModel::RedundantFeatures(v), Some(t)) = (f.rule, f.table) {
        let p = path3(table_key_of(t), f.name, "features"@);
        if m2.arrays.contains_key(p) {
            let kept = crate::document::kept_items(m.arrays[p], v);
            assert(m2.arrays[p] == kept);
            assert forall|j: int| 0 <= j < kept.len() implies crate::document::item_kept(
                #[trigger] kept[j],
                v,
            ) by {
                m.arrays[p].lemma_filter_pred(|x: Option<Seq<char>>| crate::document::item_kept(x, v), j);
            }
        }
    }
}

proof fn lemma_fix_preserved(m: DocModel, f: FindingModel, g: FindingModel)
    requires
        fix_holds(m, f),
        fix_applied(m, g) is Some,
    ensures
        fix_holds(fix_applied(m, g)->0, f),
{
    let m2 = fix_applied(m, g)->0;
    if let (RuleModel::RedundantFeatures(v), Some(t)) = (f.rule, f.table) {
        let p = path3(table_key_of(t), f.name, "features"@);
        if m2.arrays.contains_key(p) {
            if let (RuleModel::RedundantFeatures(w), Some(u)) = (g.rule, g.table) {
                let q = path3(table_key_of(u), g.name, "features"@);
                if q == p {
                    let kept = crate::document::kept_items(m.arrays[p], w);
                    assert(m2.arrays[p] == kept);
                    assert forall|j: int| 0 <= j < kept.len() implies crate::document::item_kept(
                        #[trigger] kept[j],
                        v,
                    ) by {
                        m.arrays[p].lemma_filter_contains_rev(
                            |x: Option<Seq<char>>| crate::document::item_kept(x, w),
                            kept[j],
                        );
                        let k = choose|k: int| 0 <= k < m.arrays[p].len() && m.arrays[p][k] == kept[j];
                        assert(crate::document::item_kept(m.arrays[p][k], v));
                    }
                } else {
                    assert(m2.arrays[p] == m.arrays[p]);
                }
            } else {
                assert(m2.arrays[p] == m.arrays[p]);
            }
        }
    }
}

/// After the edits of all `fs` succeed, the document holds none of what any of
/// them reported (see `fix_holds`), whatever the later edits did.
pub proof fn lemma_fixes_take_effect(m: DocModel, fs: Seq<FindingModel>)
    requires
        fixes_applied(m, fs) is Some,
    ensures
        forall|i: int| 0 <= i < fs.len() ==> fix_holds(fixes_applied(m, fs)->0, #[trigger] fs[i]),
    decreases fs.len(),
{
    if fs.len() > 0 {
        let prev = fs.drop_last();
        lemma_fixes_take_effect(m, prev);
        let m2 = fixes_applied(m, prev)->0;
        lemma_fix_establishes(m2, fs.last());
        assert forall|i: int| 0 <= i < fs.len() implies fix_holds(
            fixes_applied(m, fs)->0,
            #[trigger] fs[i],
        ) by {
            if i < fs.len() - 1 {
                assert(fs[i] == prev[i]);
                lemma_fix_preserved(m2, fs[i], fs.last());
            }
        }
    }
}

/// A fix that could not be made because the document does not hold what the
/// parsed manifest says: the entry `name` of `table` has no feature list.
#[derive(Clone, Debug)]
pub struct MissingFeatureList {
    pub name: String,
    pub table: TableKind,
}

/// Applies the edits that repair `findings`: redundant features leave the
/// entry's feature list (and the list goes when it empties), a redundant
/// default-features flag goes under both spellings, and an unused shared
/// declaration leaves the workspace's shared table. Tells whether there was
/// anything to repair; a feature list that the document lacks stops the pass.
pub fn apply_fixes(doc: &mut Document, findings: &Vec<Finding>) -> (r: Result<
    bool,
    MissingFeatureList,
>)
    ensures
        r matches Ok(b) ==> b == (findings@.len() > 0),
        r is Ok <==> fixes_applied(old(doc).model(), finding_models(findings@)) is Some,
        r is Ok ==> fixes_applied(old(doc).model(), finding_models(findings@)) == Some(
            final(doc).model(),
        ),
        findings@.len() == 0 ==> r == Ok::<bool, MissingFeatureList>(false),
        (forall|i: int| 0 <= i < findings@.len() ==> !((#[trigger] findings@[i]).kind is RedundantFeatures))
            ==> r is Ok,
        final(doc).source() == old(doc).source(),
        findings@.len() == 0 ==> final(doc).edited() == old(doc).edited(),
{
    let mut i: usize = 0;
    while i < findings.len()
        invariant
            0 <= i <= findings.len(),
            doc.source() == old(doc).source(),
            i == 0 ==> doc.edited() == old(doc).edited(),
            fixes_applied(old(doc).model(), finding_models(findings@.subrange(0, i as int))) == Some(
                doc.model(),
            ),
        decreases findings.len() - i,
    {
        let ghost fs = finding_models(findings@);
        let ghost sub = finding_models(findings@.subrange(0, i as int + 1));
        assert(sub.drop_last() =~= finding_models(findings@.subrange(0, i as int)));
        assert(sub.last() == findings@[i as int]@);
        let f = &findings[i];
        let name = f.name.as_str();
        match (&f.kind, f.table) {
            (FindingKind::RedundantFeatures(dropped), Some(t)) => {
                let left = doc.remove_sequence_items(t.table_key(), name, "features", dropped);
                if left.is_none() {
                    proof {
                        assert(fs.subrange(0, i as int + 1) =~= sub);
                        assert(fix_applied(doc.model(), f@) is None);
                        lemma_fixes_stay_failed(old(doc).model(), fs, i as int + 1);
                    }
                    return Err(MissingFeatureList { name: f.name.clone(), table: t });
                }
            },
            (FindingKind::RedundantDefaultFeaturesFlag, Some(t)) => {
                doc.remove_key(t.table_key(), name, "default-features");
                doc.remove_key(t.table_key(), name, "default_features");
            },
            (FindingKind::UnusedSharedDependency, _) => {
                doc.remove_key("workspace", "dependencies", name);
            },
            _ => {},
        }
        i = i + 1;
    }
    assert(findings@.subrange(0, findings@.len() as int) =~= findings@);
    Ok(findings.len() > 0)
}

/// What a pass found in one file and, when fixing, the fixed text and the
/// changed lines between the original and the fixed text.
pub struct PassReport {
    pub findings: Vec<Finding>,
    pub fixed_text: Option<String>,
    pub diff: Vec<DiffLine>,
}

/// The fixed text of a document and its diff against the original, or
/// nothing where no fix is to be applied.
fn finish(doc: &Document, apply: bool, tidy: bool) -> (r: (Option<String>, Vec<DiffLine>))
    ensures
        !apply ==> r.0 is None && r.1@.len() == 0,
        apply ==> (r.0 matches Some(t) && t@ == (if tidy {
            tidy_of(doc.rendered())
        } else {
            doc.rendered()
        })),
        r.0 matches Some(t) ==> diff_models(r.1@) == line_diff_of(doc.source(), t@).filter(
            |d: DiffLineModel| is_change(d),
        ),
{
    if apply {
        let rendered = doc.render();
        let text = if tidy {
            tidy_manifest_text(rendered.as_str())
        } else {
            rendered
        };
        let diff = diff_report(doc.source_text().as_str(), text.as_str());
        (Some(text), diff)
    } else {
        (None, Vec::new())
    }
}

/// Lints one package against the shared declarations and, where `fix` is
/// asked and there are findings, repairs its manifest document.
pub fn fix_package(
    shared: &Vec<SharedDependency>,
    package: &PackageManifest,
    doc: &mut Document,
    fix: bool,
) -> (r: Result<PassReport, MissingFeatureList>)
    ensures
        final(doc).source() == old(doc).source(),
        r is Err ==> fix && package_findings(shared_models(shared@), package@).len() > 0
            && fixes_applied(
            old(doc).model(),
            package_findings(shared_models(shared@), package@),
        ) is None,
        r matches Ok(rep) ==> {
            &&& finding_models(rep.findings@) == package_findings(shared_models(shared@), package@)
            &&& (fix && rep.findings@.len() > 0) <==> rep.fixed_text is Some
            &&& rep.fixed_text is None ==> rep.diff@.len() == 0 && final(doc).edited() == old(
                doc,
            ).edited() && final(doc).model() == old(doc).model()
                && final(doc).rendered() == old(doc).rendered()
            &&& rep.fixed_text matches Some(t) ==> diff_models(rep.diff@) == line_diff_of(
                final(doc).source(),
                t@,
            ).filter(|d: DiffLineModel| is_change(d))
            &&& rep.fixed_text matches Some(t) ==> t@ == tidy_of(final(doc).rendered())
                && fixes_applied(old(doc).model(), finding_models(rep.findings@)) == Some(
                final(doc).model(),
            )
            &&& rep.fixed_text is Some ==> forall|i: int|
                0 <= i < rep.findings@.len() ==> fix_holds(
                    final(doc).model(),
                    #[trigger] finding_models(rep.findings@)[i],
                )
        },
{
    let findings = lint_package(shared, package);
    let apply = fix && findings.len() > 0;
    if apply {
        apply_fixes(doc, &findings)?;
        proof {
            lemma_fixes_take_effect(old(doc).model(), finding_models(findings@));
        }
    }
    let (fixed_text, diff) = finish(doc, apply, true);
    Ok(PassReport { findings, fixed_text, diff })
}

/// The unused shared declarations of the workspace and, where `fix` is asked
/// and there are some, their removal from the root document's shared table.
pub fn fix_workspace(
    shared: &Vec<SharedDependency>,
    packages: &Vec<PackageManifest>,
    root: &mut Document,
    fix: bool,
) -> (r: PassReport)
    ensures
        r.findings@.len() == unused_of(shared_models(shared@), package_models(packages@)).len(),
        forall|i: int|
            0 <= i < r.findings@.len() ==> finding_models(r.findings@)[i].name == unused_of(
                shared_models(shared@),
                package_models(packages@),
            )[i] && (#[trigger] r.findings@[i]).table is None
                && r.findings@[i].kind is UnusedSharedDependency,
        final(root).source() == old(root).source(),
        (fix && r.findings@.len() > 0) <==> r.fixed_text is Some,
        r.fixed_text is None ==> r.diff@.len() == 0 && final(root).edited() == old(root).edited()
            && final(root).model() == old(root).model() && final(root).rendered() == old(
            root,
        ).rendered(),
        r.fixed_text matches Some(t) ==> diff_models(r.diff@) == line_diff_of(
            final(root).source(),
            t@,
        ).filter(|d: DiffLineModel| is_change(d)),
        r.fixed_text matches Some(t) ==> t@ == final(root).rendered() && fixes_applied(
            old(root).model(),
            finding_models(r.findings@),
        ) == Some(final(root).model()),
        r.fixed_text is Some ==> forall|i: int|
            0 <= i < r.findings@.len() ==> !final(root).keys().contains(
                path3("workspace"@, "dependencies"@, #[trigger] finding_models(r.findings@)[i].name),
            ),
{
    let unused = find_unused(shared, packages);
    let mut findings: Vec<Finding> = Vec::new();
    let mut i: usize = 0;
    while i < unused.len()
        invariant
            0 <= i <= unused.len(),
            findings@.len() == i,
            forall|j: int|
                0 <= j < i ==> finding_models(findings@)[j].name == names(unused@)[j]
                    && (#[trigger] findings@[j]).table is None
                    && findings@[j].kind is UnusedSharedDependency,
        decreases unused.len() - i,
    {
        findings.push(
            Finding {
                name: unused[i].clone(),
                table: None,
                kind: FindingKind::UnusedSharedDependency,
            },
        );
        i = i + 1;
    }
    let apply = fix && findings.len() > 0;
    if apply {
        // Only keys go: no feature list can be missing.
        let applied = apply_fixes(root, &findings);
        assert(applied is Ok);
        proof {
            lemma_fixes_take_effect(old(root).model(), finding_models(findings@));
            assert forall|i: int| 0 <= i < findings@.len() implies !root.keys().contains(
                path3("workspace"@, "dependencies"@, #[trigger] finding_models(findings@)[i].name),
            ) by {
                assert(fix_holds(root.model(), finding_models(findings@)[i]));
            }
        }
    }
    let (fixed_text, diff) = finish(root, apply, false);
    PassReport { findings, fixed_text, diff }
}

/// Whether a fixed text is written back: only when fixing, with something
/// fixed, and not on a dry run.
pub fn should_persist(fix: bool, dry_run: bool, has_fixes: bool) -> (r: bool)
    ensures
        r == (fix && has_fixes && !dry_run),
{
    fix && has_fixes && !dry_run
}

/// The process's exit code: findings left unfixed fail the run.
pub fn exit_code(fix: bool, something_to_fix: bool) -> (r: i32)
    ensures
        r == (if !fix && something_to_fix { 1i32 } else { 0i32 }),
{
    if !fix && something_to_fix {
        1
    } else {
        0
    }
}

} // verus!
