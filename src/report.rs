//! Rendering a fixed document and the line diff shown for it.
use vstd::prelude::*;

verus! {

/// `s` with every occurrence of `from` replaced by `to`, matches taken from
/// left to right without overlap.
pub open spec fn replace_all(s: Seq<char>, from: Seq<char>, to: Seq<char>) -> Seq<char>
    decreases s.len(),
{
    if from.len() == 0 || s.len() == 0 {
        s
    } else if s.len() >= from.len() && s.subrange(0, from.len() as int) == from {
        to + replace_all(s.subrange(from.len() as int, s.len() as int), from, to)
    } else {
        seq![s[0]] + replace_all(s.drop_first(), from, to)
    }
}

/// Relies on `str::replace`: replaces all matches of a non-empty pattern,
/// searching from the left.
#[verifier::external_body]
fn replace_text(s: &str, from: &str, to: &str) -> (r: String)
    requires
        from@.len() > 0,
    ensures
        r@ == replace_all(s@, from@, to@),
{
    s.replace(from, to)
}

/// The rendered text of a fixed package manifest, tidied where removing keys
/// left an inline table ending in `workspace = true}`: the space goes back
/// before its closing brace.
pub fn tidy_manifest_text(s: &str) -> (r: String)
    ensures
        r@ == tidy_of(s@),
{
    proof {
        reveal_strlit("workspace = true}");
    }
    replace_text(s, "workspace = true}", "workspace = true }")
}

pub open spec fn tidy_of(s: Seq<char>) -> Seq<char> {
    replace_all(s, "workspace = true}"@, "workspace = true }"@)
}

/// One line of a line diff.
#[derive(Clone, Debug)]
pub enum DiffLine {
    Removed(String),
    Added(String),
    Unchanged(String),
}

pub enum DiffLineModel {
    Removed(Seq<char>),
    Added(Seq<char>),
    Unchanged(Seq<char>),
}

impl View for DiffLine {
    type V = DiffLineModel;

    open spec fn view(&self) -> DiffLineModel {
        match self {
            DiffLine::Removed(s) => DiffLineModel::Removed(s@),
            DiffLine::Added(s) => DiffLineModel::Added(s@),
            DiffLine::Unchanged(s) => DiffLineModel::Unchanged(s@),
        }
    }
}

pub open spec fn diff_models(v: Seq<DiffLine>) -> Seq<DiffLineModel> {
    v.map_values(|d: DiffLine| d@)
}

/// The line diff that the `diff` crate computes between two texts.
pub uninterp spec fn line_diff_of(old: Seq<char>, new: Seq<char>) -> Seq<DiffLineModel>;

/// Relies on `diff::lines`: a longest-common-subsequence diff of the lines of
/// the two texts. On two equal texts every line is common.
#[verifier::external_body]
fn diff_lines(old: &str, new: &str) -> (r: Vec<DiffLine>)
    ensures
        diff_models(r@) == line_diff_of(old@, new@),
        old@ == new@ ==> forall|i: int| 0 <= i < r@.len() ==> r@[i] is Unchanged,
{
    diff::lines(old, new).into_iter().map(|d| match d {
        diff::Result::Left(l) => DiffLine::Removed(l.to_string()),
        diff::Result::Right(r) => DiffLine::Added(r.to_string()),
        diff::Result::Both(l, _) => DiffLine::Unchanged(l.to_string()),
    }).collect()
}

/// Whether a diff line is a change.
pub open spec fn is_change(d: DiffLineModel) -> bool {
    !(d is Unchanged)
}

/// The changed lines of a diff, in order.
pub fn changed_lines(diff: &Vec<DiffLine>) -> (r: Vec<DiffLine>)
    ensures
        diff_models(r@) == diff_models(diff@).filter(|d: DiffLineModel| is_change(d)),
{
    let mut r: Vec<DiffLine> = Vec::new();
    let mut i: usize = 0;
    while i < diff.len()
        invariant
            0 <= i <= diff.len(),
            diff_models(r@) == diff_models(diff@.subrange(0, i as int)).filter(
                |d: DiffLineModel| is_change(d),
            ),
        decreases diff.len() - i,
    {
        let ghost before = r@;
        let ghost sub = diff_models(diff@.subrange(0, i as int + 1));
        assert(sub.drop_last() =~= diff_models(diff@.subrange(0, i as int)));
        assert(sub.last() == diff@[i as int]@);
        reveal_with_fuel(Seq::filter, 1);
        let line = match &diff[i] {
            DiffLine::Removed(s) => Some(DiffLine::Removed(s.clone())),
            DiffLine::Added(s) => Some(DiffLine::Added(s.clone())),
            DiffLine::Unchanged(_) => None,
        };
        match line {
            Some(l) => {
                r.push(l);
                assert(diff_models(r@) =~= diff_models(before).push(diff@[i as int]@));
            },
            None => {
                assert(diff_models(r@) =~= diff_models(before));
            },
        }
        i = i + 1;
    }
    assert(diff@.subrange(0, diff@.len() as int) =~= diff@);
    r
}

/// The changed lines between a document's original and fixed text: the
/// lines shown for a fix. Equal texts show none.
pub fn diff_report(old: &str, new: &str) -> (r: Vec<DiffLine>)
    ensures
        diff_models(r@) == line_diff_of(old@, new@).filter(|d: DiffLineModel| is_change(d)),
        old@ == new@ ==> r@.len() == 0,
{
    let all = diff_lines(old, new);
    let r = changed_lines(&all);
    proof {
        if old@ == new@ {
            lemma_no_change_filters_empty(diff_models(all@));
        }
    }
    r
}

proof fn lemma_no_change_filters_empty(s: Seq<DiffLineModel>)
    requires
        forall|i: int| 0 <= i < s.len() ==> s[i] is Unchanged,
    ensures
        s.filter(|d: DiffLineModel| is_change(d)).len() == 0,
    decreases s.len(),
{
    reveal_with_fuel(Seq::filter, 1);
    if s.len() > 0 {
        lemma_no_change_filters_empty(s.drop_last());
    }
}

} // verus!
