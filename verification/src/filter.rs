//! Choosing the commits of a log by type, scope, author and breaking mark.

use vstd::prelude::*;
use vstd::string::*;
use crate::commit::{CommitRecord, CommitView, commit_views};
use crate::parser::{name_set, has_name};

verus! {

/// One condition on a commit. The conditions of a list hold together; the
/// names inside one condition are alternatives.
#[derive(Clone, Debug, PartialEq, Eq)]
pub enum FilterPredicate {
    /// The type is one of these.
    TypeIs(Vec<String>),
    /// There is a scope, and it is one of these.
    ScopeIs(Vec<String>),
    /// The author is one of these.
    AuthorIs(Vec<String>),
    /// The commit is breaking.
    IsBreaking,
    /// No condition on a commit: the caller is asked to go on where commits
    /// of the range break the grammar.
    SuppressErrors,
}

/// What a [`FilterPredicate`] holds, with texts as sequences of characters.
pub enum PredicateView {
    TypeIs(Set<Seq<char>>),
    ScopeIs(Set<Seq<char>>),
    AuthorIs(Set<Seq<char>>),
    IsBreaking,
    SuppressErrors,
}

impl View for FilterPredicate {
    type V = PredicateView;

    open spec fn view(&self) -> PredicateView {
        match self {
            FilterPredicate::TypeIs(names) => PredicateView::TypeIs(name_set(names@)),
            FilterPredicate::ScopeIs(names) => PredicateView::ScopeIs(name_set(names@)),
            FilterPredicate::AuthorIs(names) => PredicateView::AuthorIs(name_set(names@)),
            FilterPredicate::IsBreaking => PredicateView::IsBreaking,
            FilterPredicate::SuppressErrors => PredicateView::SuppressErrors,
        }
    }
}

/// The views of the items of a list, in its order.
pub open spec fn predicate_views(ps: Seq<FilterPredicate>) -> Seq<PredicateView> {
    Seq::new(ps.len(), |i: int| ps[i]@)
}

/// Whether a commit meets one condition.
pub open spec fn satisfies(r: CommitView, p: PredicateView) -> bool {
    match p {
        PredicateView::TypeIs(names) => names.contains(r.commit_type),
        PredicateView::ScopeIs(names) => r.scope is Some && names.contains(r.scope->0),
        PredicateView::AuthorIs(names) => names.contains(r.author),
        PredicateView::IsBreaking => r.breaking,
        PredicateView::SuppressErrors => true,
    }
}

/// Whether a commit meets every condition of a list.
pub open spec fn satisfies_all(r: CommitView, ps: Seq<PredicateView>) -> bool {
    forall|i: int| 0 <= i < ps.len() ==> satisfies(r, #[trigger] ps[i])
}

/// The condition of meeting every condition of the list.
pub open spec fn keeps(ps: Seq<PredicateView>) -> spec_fn(CommitView) -> bool {
    |r: CommitView| satisfies_all(r, ps)
}

/// The commits that meet every condition, in the order of the input.
pub open spec fn filter_spec(rs: Seq<CommitView>, ps: Seq<PredicateView>) -> Seq<CommitView> {
    rs.filter(keeps(ps))
}

impl FilterPredicate {
    /// Whether the commit meets the condition.
    pub fn admits(&self, r: &CommitRecord) -> (b: bool)
        ensures
            b == satisfies(r@, self@),
    {
        match self {
            FilterPredicate::TypeIs(names) => has_name(names, &r.commit_type),
            FilterPredicate::ScopeIs(names) => match &r.scope {
                Some(scope) => has_name(names, scope),
                None => false,
            },
            FilterPredicate::AuthorIs(names) => has_name(names, &r.author),
            FilterPredicate::IsBreaking => r.breaking,
            FilterPredicate::SuppressErrors => true,
        }
    }
}

/// Whether the commit meets every condition of the list.
pub fn admits_all(predicates: &Vec<FilterPredicate>, r: &CommitRecord) -> (b: bool)
    ensures
        b == satisfies_all(r@, predicate_views(predicates@)),
{
    let ghost ps = predicate_views(predicates@);
    let mut i: usize = 0;
    while i < predicates.len()
        invariant
            i <= predicates.len(),
            ps == predicate_views(predicates@),
            forall|j: int| 0 <= j < i ==> satisfies(r@, #[trigger] ps[j]),
        decreases predicates.len() - i,
    {
        if !predicates[i].admits(r) {
            assert(!satisfies(r@, ps[i as int]));
            return false;
        }
        i += 1;
    }
    true
}

/// Keeps the commits that meet every condition, in the order of the input.
/// With no condition every commit is kept.
pub fn filter(records: &Vec<CommitRecord>, predicates: &Vec<FilterPredicate>) -> (r: Vec<
    CommitRecord,
>)
    ensures
        commit_views(r@) == filter_spec(commit_views(records@), predicate_views(predicates@)),
{
    let ghost rs = commit_views(records@);
    let ghost ps = predicate_views(predicates@);
    let mut kept: Vec<CommitRecord> = Vec::new();
    let mut i: usize = 0;
    assert(commit_views(kept@) =~= rs.take(0).filter(keeps(ps)));
    while i < records.len()
        invariant
            i <= records.len(),
            rs == commit_views(records@),
            ps == predicate_views(predicates@),
            commit_views(kept@) == rs.take(i as int).filter(keeps(ps)),
        decreases records.len() - i,
    {
        let ghost before = commit_views(kept@);
        let record = &records[i];
        proof {
            assert(rs.take(i + 1).drop_last() =~= rs.take(i as int));
            assert(rs.take(i + 1).last() == record@);
            reveal(Seq::filter);
        }
        if admits_all(predicates, record) {
            kept.push(record.duplicate());
            assert(commit_views(kept@) =~= before.push(record@));
        }
        i += 1;
    }
    proof {
        assert(rs.take(records.len() as int) =~= rs);
    }
    kept
}

/// Whether the list asks the caller to go on in spite of violations.
pub fn suppresses_errors(predicates: &Vec<FilterPredicate>) -> (b: bool)
    ensures
        b == exists|i: int|
            0 <= i < predicates.len() && (#[trigger] predicates@[i]) is SuppressErrors,
{
    let mut i: usize = 0;
    while i < predicates.len()
        invariant
            i <= predicates.len(),
            forall|j: int| 0 <= j < i ==> !((#[trigger] predicates@[j]) is SuppressErrors),
        decreases predicates.len() - i,
    {
        if let FilterPredicate::SuppressErrors = predicates[i] {
            return true;
        }
        i += 1;
    }
    false
}

/// The conditions that a set of log options asks for, in a fixed order:
/// types, scopes, authors, the breaking mark, the request to go on in spite
/// of violations. An option that is not given adds no condition.
pub open spec fn conditions_spec(
    types: Option<Vec<String>>,
    scopes: Option<Vec<String>>,
    authors: Option<Vec<String>>,
    breaking_only: bool,
    no_error: bool,
) -> Seq<PredicateView> {
    (match types {
        Some(names) => seq![PredicateView::TypeIs(name_set(names@))],
        None => Seq::<PredicateView>::empty(),
    }) + (match scopes {
        Some(names) => seq![PredicateView::ScopeIs(name_set(names@))],
        None => Seq::<PredicateView>::empty(),
    }) + (match authors {
        Some(names) => seq![PredicateView::AuthorIs(name_set(names@))],
        None => Seq::<PredicateView>::empty(),
    }) + (if breaking_only {
        seq![PredicateView::IsBreaking]
    } else {
        Seq::<PredicateView>::empty()
    }) + (if no_error {
        seq![PredicateView::SuppressErrors]
    } else {
        Seq::<PredicateView>::empty()
    })
}

/// Builds the list of conditions from the options of a log request.
pub fn conditions(
    types: Option<Vec<String>>,
    scopes: Option<Vec<String>>,
    authors: Option<Vec<String>>,
    breaking_only: bool,
    no_error: bool,
) -> (r: Vec<FilterPredicate>)
    ensures
        predicate_views(r@) == conditions_spec(types, scopes, authors, breaking_only, no_error),
{
    let mut r: Vec<FilterPredicate> = Vec::new();
    let ghost mut acc = Seq::<PredicateView>::empty();
    assert(predicate_views(r@) =~= acc);
    if let Some(names) = types {
        let p = FilterPredicate::TypeIs(names);
        r.push(p);
        proof {
            acc = acc + seq![PredicateView::TypeIs(name_set(names@))];
            assert(predicate_views(r@) =~= acc);
        }
    } else {
        proof {
            acc = acc + Seq::<PredicateView>::empty();
            assert(predicate_views(r@) =~= acc);
        }
    }
    if let Some(names) = scopes {
        let p = FilterPredicate::ScopeIs(names);
        r.push(p);
        proof {
            acc = acc + seq![PredicateView::ScopeIs(name_set(names@))];
            assert(predicate_views(r@) =~= acc);
        }
    } else {
        proof {
            acc = acc + Seq::<PredicateView>::empty();
            assert(predicate_views(r@) =~= acc);
        }
    }
    if let Some(names) = authors {
        let p = FilterPredicate::AuthorIs(names);
        r.push(p);
        proof {
            acc = acc + seq![PredicateView::AuthorIs(name_set(names@))];
            assert(predicate_views(r@) =~= acc);
        }
    } else {
        proof {
            acc = acc + Seq::<PredicateView>::empty();
            assert(predicate_views(r@) =~= acc);
        }
    }
    if breaking_only {
        r.push(FilterPredicate::IsBreaking);
        proof {
            acc = acc + seq![PredicateView::IsBreaking];
            assert(predicate_views(r@) =~= acc);
        }
    } else {
        proof {
            acc = acc + Seq::<PredicateView>::empty();
            assert(predicate_views(r@) =~= acc);
        }
    }
    if no_error {
        r.push(FilterPredicate::SuppressErrors);
        proof {
            acc = acc + seq![PredicateView::SuppressErrors];
            assert(predicate_views(r@) =~= acc);
        }
    } else {
        proof {
            acc = acc + Seq::<PredicateView>::empty();
            assert(predicate_views(r@) =~= acc);
        }
    }
    r
}

/// With no condition every commit is kept.
pub proof fn law_no_condition_keeps_all(rs: Seq<CommitView>)
    ensures
        filter_spec(rs, Seq::<PredicateView>::empty()) == rs,
    decreases rs.len(),
{
    reveal(Seq::filter);
    if rs.len() > 0 {
        law_no_condition_keeps_all(rs.drop_last());
        assert(rs.drop_last().push(rs.last()) =~= rs);
    } else {
        assert(rs.filter(keeps(Seq::<PredicateView>::empty())) =~= rs);
    }
}

/// A commit is kept if and only if it meets every condition, and the commits
/// that are kept stand in the order in which they came.
pub proof fn law_filter_keeps_exactly(rs: Seq<CommitView>, ps: Seq<PredicateView>)
    ensures
        forall|r: CommitView|
            filter_spec(rs, ps).contains(r) <==> rs.contains(r) && satisfies_all(r, ps),
        forall|i: int, j: int|
            0 <= i < j < filter_spec(rs, ps).len() ==> exists|a: int, b: int|
                0 <= a < b < rs.len() && rs[a] == #[trigger] filter_spec(rs, ps)[i] && rs[b]
                    == #[trigger] filter_spec(rs, ps)[j],
    decreases rs.len(),
{
    reveal(Seq::filter);
    let out = filter_spec(rs, ps);
    if rs.len() > 0 {
        let init = rs.drop_last();
        let sub = filter_spec(init, ps);
        law_filter_keeps_exactly(init, ps);
        assert(init.push(rs.last()) =~= rs);
        assert forall|r: CommitView| out.contains(r) <==> rs.contains(r) && satisfies_all(
            r,
            ps,
        ) by {
            if out.contains(r) {
                let k = choose|k: int| 0 <= k < out.len() && out[k] == r;
                if k < sub.len() {
                    assert(sub[k] == r);
                    assert(sub.contains(r));
                    assert(init.contains(r));
                    let a = choose|a: int| 0 <= a < init.len() && init[a] == r;
                    assert(rs[a] == r);
                } else {
                    assert(r == rs.last());
                    assert(rs[rs.len() - 1] == r);
                }
            }
            if rs.contains(r) && satisfies_all(r, ps) {
                let a = choose|a: int| 0 <= a < rs.len() && rs[a] == r;
                if a < init.len() {
                    assert(init[a] == r);
                    assert(init.contains(r));
                    assert(sub.contains(r));
                    let k = choose|k: int| 0 <= k < sub.len() && sub[k] == r;
                    assert(out[k] == r);
                } else {
                    assert(out[out.len() - 1] == r);
                }
            }
        }
        assert forall|i: int, j: int| 0 <= i < j < out.len() implies exists|a: int, b: int|
            0 <= a < b < rs.len() && rs[a] == #[trigger] out[i] && rs[b] == #[trigger] out[j] by {
            if j < sub.len() {
                let (a, b) = choose|a: int, b: int|
                    0 <= a < b < init.len() && init[a] == sub[i] && init[b] == sub[j];
                assert(rs[a] == out[i] && rs[b] == out[j]);
            } else {
                assert(sub[i] == out[i]);
                assert(sub.contains(out[i]));
                assert(init.contains(out[i]));
                let a = choose|a: int| 0 <= a < init.len() && init[a] == out[i];
                assert(rs[a] == out[i] && rs[rs.len() - 1] == out[j]);
            }
        }
    }
}

} // verus!
