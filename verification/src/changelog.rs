//! The document behind a changelog: releases, newest first; in each release
//! the breaking changes and then one section per commit type, in the order
//! of the table of types; in each section the commits, newest first.

use vstd::prelude::*;
use vstd::string::*;
use crate::commit::{CommitRecord, CommitView, commit_views, text_views};
use crate::config::{CommitType, CommitTypeView, type_views, names_of, title_of, title_for};
use crate::order::{
    listing_order,
    is_listing,
    lemma_newest_first,
    rearranged,
    order_newest_first,
    listed_before,
};

verus! {

/// The commits of one release, as they come from the repository.
#[derive(Clone, Debug, PartialEq, Eq)]
pub struct ReleaseCommits {
    /// What the release is called: a version, or a name for what is not released yet.
    pub label: String,
    /// When the release was made.
    pub timestamp: i64,
    pub commits: Vec<CommitRecord>,
}

/// What a [`ReleaseCommits`] holds, with texts as sequences of characters.
pub struct ReleaseCommitsView {
    pub label: Seq<char>,
    pub timestamp: i64,
    pub commits: Seq<CommitView>,
}

impl View for ReleaseCommits {
    type V = ReleaseCommitsView;

    open spec fn view(&self) -> ReleaseCommitsView {
        ReleaseCommitsView {
            label: self.label@,
            timestamp: self.timestamp,
            commits: commit_views(self.commits@),
        }
    }
}

/// The views of the items of a list, in its order.
pub open spec fn input_views(rs: Seq<ReleaseCommits>) -> Seq<ReleaseCommitsView> {
    Seq::new(rs.len(), |i: int| rs[i]@)
}

/// The commits of one type within a release.
#[derive(Clone, Debug, PartialEq, Eq)]
pub struct ChangelogSection {
    pub commit_type: String,
    pub title: String,
    pub commits: Vec<CommitRecord>,
}

/// What a [`ChangelogSection`] holds, with texts as sequences of characters.
pub struct SectionView {
    pub commit_type: Seq<char>,
    pub title: Seq<char>,
    pub commits: Seq<CommitView>,
}

impl View for ChangelogSection {
    type V = SectionView;

    open spec fn view(&self) -> SectionView {
        SectionView {
            commit_type: self.commit_type@,
            title: self.title@,
            commits: commit_views(self.commits@),
        }
    }
}

/// The views of the items of a list, in its order.
pub open spec fn section_views(ss: Seq<ChangelogSection>) -> Seq<SectionView> {
    Seq::new(ss.len(), |i: int| ss[i]@)
}

/// One release of a changelog.
#[derive(Clone, Debug, PartialEq, Eq)]
pub struct ChangelogRelease {
    pub label: String,
    pub timestamp: i64,
    /// The breaking changes of the release, of whatever type; `None` where
    /// it has none. The field is filled in from the sections when a document
    /// is assembled or arranged.
    pub breaking: Option<Vec<CommitRecord>>,
    pub sections: Vec<ChangelogSection>,
}

/// What a [`ChangelogRelease`] holds, with texts as sequences of characters.
pub struct ReleaseView {
    pub label: Seq<char>,
    pub timestamp: i64,
    pub breaking: Option<Seq<CommitView>>,
    pub sections: Seq<SectionView>,
}

impl View for ChangelogRelease {
    type V = ReleaseView;

    open spec fn view(&self) -> ReleaseView {
        ReleaseView {
            label: self.label@,
            timestamp: self.timestamp,
            breaking: match self.breaking {
                Some(commits) => Some(commit_views(commits@)),
                None => None,
            },
            sections: section_views(self.sections@),
        }
    }
}

/// The views of the items of a list, in its order.
pub open spec fn release_views(rs: Seq<ChangelogRelease>) -> Seq<ReleaseView> {
    Seq::new(rs.len(), |i: int| rs[i]@)
}

/// A changelog, before it is written out.
#[derive(Clone, Debug, PartialEq, Eq)]
pub struct ChangelogDocument {
    pub releases: Vec<ChangelogRelease>,
}

impl View for ChangelogDocument {
    type V = Seq<ReleaseView>;

    open spec fn view(&self) -> Seq<ReleaseView> {
        release_views(self.releases@)
    }
}

/// The times of the commits, in their order.
pub open spec fn times_of(rs: Seq<CommitView>) -> Seq<i64> {
    Seq::new(rs.len(), |i: int| rs[i].timestamp)
}

/// The commits with the newest first; commits of the same time keep their order.
pub open spec fn newest(rs: Seq<CommitView>) -> Seq<CommitView> {
    rearranged(rs, listing_order(times_of(rs)))
}

/// The condition of having the type `t`.
pub open spec fn has_type(t: Seq<char>) -> spec_fn(CommitView) -> bool {
    |r: CommitView| r.commit_type == t
}

/// The condition of being a breaking commit.
pub open spec fn is_breaking() -> spec_fn(CommitView) -> bool {
    |r: CommitView| r.breaking
}

/// The section of type `t` for the commits `rs`.
pub open spec fn section_for(table: Seq<CommitTypeView>, rs: Seq<CommitView>, t: Seq<char>)
    -> SectionView {
    SectionView { commit_type: t, title: title_of(table, t), commits: newest(rs.filter(has_type(t))) }
}

/// The order in which types get their sections: the table first, then
/// the types of the commits themselves, for those that the table lacks.
pub open spec fn type_order(table: Seq<CommitTypeView>, rs: Seq<CommitView>) -> Seq<Seq<char>> {
    names_of(table) + Seq::new(rs.len(), |i: int| rs[i].commit_type)
}

/// The sections for the first `k` names of `order`: one for each name at its
/// first place in `order`, where a commit has that type.
pub open spec fn sections_upto(
    table: Seq<CommitTypeView>,
    order: Seq<Seq<char>>,
    rs: Seq<CommitView>,
    k: int,
) -> Seq<SectionView>
    decreases k,
{
    if k <= 0 {
        Seq::<SectionView>::empty()
    } else {
        let before = sections_upto(table, order, rs, k - 1);
        let t = order[k - 1];
        if order.take(k - 1).contains(t) || rs.filter(has_type(t)).len() == 0 {
            before
        } else {
            before.push(section_for(table, rs, t))
        }
    }
}

/// The breaking commits of the sections, section by section.
pub open spec fn breaking_commits(sections: Seq<SectionView>) -> Seq<CommitView>
    decreases sections.len(),
{
    if sections.len() == 0 {
        Seq::<CommitView>::empty()
    } else {
        breaking_commits(sections.drop_last()) + sections.last().commits.filter(is_breaking())
    }
}

/// The breaking changes of a release with these sections: every breaking
/// commit of every section, the newest first; `None` where there is none.
pub open spec fn breaking_of(sections: Seq<SectionView>) -> Option<Seq<CommitView>> {
    let breaking = newest(breaking_commits(sections));
    if breaking.len() == 0 {
        None
    } else {
        Some(breaking)
    }
}

/// The release that the commits of `input` make.
pub open spec fn release_of(table: Seq<CommitTypeView>, input: ReleaseCommitsView) -> ReleaseView {
    let order = type_order(table, input.commits);
    let sections = sections_upto(table, order, input.commits, order.len() as int);
    ReleaseView {
        label: input.label,
        timestamp: input.timestamp,
        breaking: breaking_of(sections),
        sections,
    }
}

/// The times of the releases, in their order.
pub open spec fn release_times(inputs: Seq<ReleaseCommitsView>) -> Seq<i64> {
    Seq::new(inputs.len(), |i: int| inputs[i].timestamp)
}

/// The document for the releases `inputs`: each release made of its commits,
/// the newest release first.
pub open spec fn assemble_spec(table: Seq<CommitTypeView>, inputs: Seq<ReleaseCommitsView>) -> Seq<
    ReleaseView,
> {
    let order = listing_order(release_times(inputs));
    Seq::new(order.len(), |p: int| release_of(table, inputs[order[p] as int]))
}

/// Copies of the commits, the newest first.
pub fn by_time(records: &Vec<CommitRecord>) -> (r: Vec<CommitRecord>)
    ensures
        commit_views(r@) == newest(commit_views(records@)),
{
    let ghost rs = commit_views(records@);
    let mut keys: Vec<i64> = Vec::new();
    let mut i: usize = 0;
    while i < records.len()
        invariant
            i <= records.len(),
            keys.len() == i,
            forall|j: int| 0 <= j < i ==> keys@[j] == (#[trigger] records@[j]).timestamp,
        decreases records.len() - i,
    {
        keys.push(records[i].timestamp);
        i += 1;
    }
    assert(keys@ =~= times_of(rs));
    let order = order_newest_first(&keys);
    let mut r: Vec<CommitRecord> = Vec::new();
    let mut p: usize = 0;
    while p < order.len()
        invariant
            p <= order.len(),
            r.len() == p,
            rs == commit_views(records@),
            is_listing(keys@, records@.len(), order@),
            forall|q: int| 0 <= q < p ==> (#[trigger] r@[q])@ == records@[order@[q] as int]@,
        decreases order.len() - p,
    {
        r.push(records[order[p]].duplicate());
        p += 1;
    }
    assert(commit_views(r@) =~= newest(rs));
    r
}

/// Copies of the commits of type `t`, in their order.
pub fn select_type(records: &Vec<CommitRecord>, t: &String) -> (r: Vec<CommitRecord>)
    ensures
        commit_views(r@) == commit_views(records@).filter(has_type(t@)),
{
    let ghost rs = commit_views(records@);
    let mut kept: Vec<CommitRecord> = Vec::new();
    let mut i: usize = 0;
    assert(commit_views(kept@) =~= rs.take(0).filter(has_type(t@)));
    while i < records.len()
        invariant
            i <= records.len(),
            rs == commit_views(records@),
            commit_views(kept@) == rs.take(i as int).filter(has_type(t@)),
        decreases records.len() - i,
    {
        let ghost before = commit_views(kept@);
        let record = &records[i];
        proof {
            assert(rs.take(i + 1).drop_last() =~= rs.take(i as int));
            assert(rs.take(i + 1).last() == record@);
            reveal(Seq::filter);
        }
        if record.commit_type == *t {
            kept.push(record.duplicate());
            assert(commit_views(kept@) =~= before.push(record@));
        }
        i += 1;
    }
    assert(rs.take(records.len() as int) =~= rs);
    kept
}

/// Copies of the breaking commits, in their order.
pub fn select_breaking(records: &Vec<CommitRecord>) -> (r: Vec<CommitRecord>)
    ensures
        commit_views(r@) == commit_views(records@).filter(is_breaking()),
{
    let ghost rs = commit_views(records@);
    let mut kept: Vec<CommitRecord> = Vec::new();
    let mut i: usize = 0;
    assert(commit_views(kept@) =~= rs.take(0).filter(is_breaking()));
    while i < records.len()
        invariant
            i <= records.len(),
            rs == commit_views(records@),
            commit_views(kept@) == rs.take(i as int).filter(is_breaking()),
        decreases records.len() - i,
    {
        let ghost before = commit_views(kept@);
        let record = &records[i];
        proof {
            assert(rs.take(i + 1).drop_last() =~= rs.take(i as int));
            assert(rs.take(i + 1).last() == record@);
            reveal(Seq::filter);
        }
        if record.breaking {
            kept.push(record.duplicate());
            assert(commit_views(kept@) =~= before.push(record@));
        }
        i += 1;
    }
    assert(rs.take(records.len() as int) =~= rs);
    kept
}

/// Collects the breaking changes of a release from its sections.
pub fn collect_breaking(sections: &Vec<ChangelogSection>) -> (r: Option<Vec<CommitRecord>>)
    ensures
        match breaking_of(section_views(sections@)) {
            Some(commits) => r is Some && commit_views(r->0@) == commits,
            None => r is None,
        },
{
    let ghost ss = section_views(sections@);
    let mut all: Vec<CommitRecord> = Vec::new();
    let mut i: usize = 0;
    assert(commit_views(all@) =~= breaking_commits(ss.take(0)));
    while i < sections.len()
        invariant
            i <= sections.len(),
            ss == section_views(sections@),
            commit_views(all@) == breaking_commits(ss.take(i as int)),
        decreases sections.len() - i,
    {
        let ghost before = commit_views(all@);
        let mut found = select_breaking(&sections[i].commits);
        let ghost added = commit_views(found@);
        proof {
            assert(ss.take(i + 1).drop_last() =~= ss.take(i as int));
            assert(ss.take(i + 1).last() == sections@[i as int]@);
        }
        all.append(&mut found);
        assert(commit_views(all@) =~= before + added);
        i += 1;
    }
    assert(ss.take(sections.len() as int) =~= ss);
    let breaking = by_time(&all);
    if breaking.len() == 0 {
        None
    } else {
        Some(breaking)
    }
}

/// Whether the name at place `k` stands at an earlier place too.
fn listed_earlier(order: &Vec<String>, k: usize) -> (b: bool)
    requires
        k < order.len(),
    ensures
        b == text_views(order@).take(k as int).contains(order@[k as int]@),
{
    let ghost names = text_views(order@);
    let mut j: usize = 0;
    while j < k
        invariant
            j <= k < order.len(),
            names == text_views(order@),
            forall|m: int| 0 <= m < j ==> names[m] != order@[k as int]@,
        decreases k - j,
    {
        if order[j] == order[k] {
            assert(names.take(k as int)[j as int] == order@[k as int]@);
            return true;
        }
        j += 1;
    }
    assert(forall|m: int| 0 <= m < k ==> names.take(k as int)[m] == names[m]);
    false
}

/// The names in the order in which types get their sections.
fn section_order(table: &Vec<CommitType>, records: &Vec<CommitRecord>) -> (r: Vec<String>)
    ensures
        text_views(r@) == type_order(type_views(table@), commit_views(records@)),
{
    let ghost goal = type_order(type_views(table@), commit_views(records@));
    let mut r: Vec<String> = Vec::new();
    let mut i: usize = 0;
    while i < table.len()
        invariant
            i <= table.len(),
            r.len() == i,
            forall|j: int| 0 <= j < i ==> (#[trigger] r@[j])@ == table@[j].name@,
        decreases table.len() - i,
    {
        r.push(table[i].name.clone());
        i += 1;
    }
    let mut k: usize = 0;
    while k < records.len()
        invariant
            k <= records.len(),
            r.len() == table.len() + k,
            forall|j: int| 0 <= j < table.len() ==> (#[trigger] r@[j])@ == table@[j].name@,
            forall|j: int|
                table.len() <= j < table.len() + k ==> (#[trigger] r@[j])@ == records@[j
                    - table.len()].commit_type@,
        decreases records.len() - k,
    {
        r.push(records[k].commit_type.clone());
        k += 1;
    }
    assert(text_views(r@) =~= goal);
    r
}

/// Makes the release of a set of commits: the breaking changes, then one
/// section for each type that a commit has, in the order of the table
/// (types that the table lacks come after it, in the order in which they
/// first occur), and in each of them the newest commit first.
pub fn assemble_release(table: &Vec<CommitType>, input: &ReleaseCommits) -> (r: ChangelogRelease)
    ensures
        r@ == release_of(type_views(table@), input@),
{
    let ghost tv = type_views(table@);
    let ghost rs = commit_views(input.commits@);
    let order = section_order(table, &input.commits);
    let ghost names = text_views(order@);
    let mut sections: Vec<ChangelogSection> = Vec::new();
    let mut k: usize = 0;
    assert(section_views(sections@) =~= sections_upto(tv, names, rs, 0));
    while k < order.len()
        invariant
            k <= order.len(),
            tv == type_views(table@),
            rs == commit_views(input.commits@),
            names == text_views(order@),
            section_views(sections@) == sections_upto(tv, names, rs, k as int),
        decreases order.len() - k,
    {
        let ghost before = section_views(sections@);
        if !listed_earlier(&order, k) {
            let of_type = select_type(&input.commits, &order[k]);
            if of_type.len() > 0 {
                let section = ChangelogSection {
                    commit_type: order[k].clone(),
                    title: title_for(table, &order[k]),
                    commits: by_time(&of_type),
                };
                assert(section@ == section_for(tv, rs, names[k as int]));
                sections.push(section);
                assert(section_views(sections@) =~= before.push(section@));
            }
        }
        k += 1;
    }
    ChangelogRelease {
        label: input.label.clone(),
        timestamp: input.timestamp,
        breaking: collect_breaking(&sections),
        sections,
    }
}

/// Makes the document of a changelog from the commits of its releases.
/// Releases come newest first, and releases of the same time in the order
/// of the input.
pub fn assemble(table: &Vec<CommitType>, inputs: &Vec<ReleaseCommits>) -> (doc: ChangelogDocument)
    ensures
        doc@ == assemble_spec(type_views(table@), input_views(inputs@)),
{
    let ghost tv = type_views(table@);
    let ghost ins = input_views(inputs@);
    let mut keys: Vec<i64> = Vec::new();
    let mut i: usize = 0;
    while i < inputs.len()
        invariant
            i <= inputs.len(),
            keys.len() == i,
            forall|j: int| 0 <= j < i ==> keys@[j] == (#[trigger] inputs@[j]).timestamp,
        decreases inputs.len() - i,
    {
        keys.push(inputs[i].timestamp);
        i += 1;
    }
    assert(keys@ =~= release_times(ins));
    let order = order_newest_first(&keys);
    let mut releases: Vec<ChangelogRelease> = Vec::new();
    let mut p: usize = 0;
    while p < order.len()
        invariant
            p <= order.len(),
            releases.len() == p,
            tv == type_views(table@),
            ins == input_views(inputs@),
            is_listing(keys@, inputs@.len(), order@),
            forall|q: int|
                0 <= q < p ==> (#[trigger] releases@[q])@ == release_of(
                    tv,
                    ins[order@[q] as int],
                ),
        decreases order.len() - p,
    {
        releases.push(assemble_release(table, &inputs[order[p]]));
        p += 1;
    }
    let doc = ChangelogDocument { releases };
    assert(doc@ =~= assemble_spec(tv, ins));
    doc
}

/// Within a section the newest commit comes first, and every commit of the
/// input is listed.
pub proof fn law_newest_first(rs: Seq<CommitView>)
    requires
        rs.len() <= usize::MAX,
    ensures
        newest(rs).len() == rs.len(),
        forall|p: int, q: int|
            0 <= p < q < rs.len() ==> (#[trigger] newest(rs)[p]).timestamp >= (#[trigger] newest(
                rs,
            )[q]).timestamp,
        forall|i: int| 0 <= i < rs.len() ==> newest(rs).contains(#[trigger] rs[i]),
{
    let keys = times_of(rs);
    let order = listing_order(keys);
    lemma_newest_first(keys, keys.len());
    assert forall|p: int, q: int| 0 <= p < q < rs.len() implies (#[trigger] newest(
        rs,
    )[p]).timestamp >= (#[trigger] newest(rs)[q]).timestamp by {
        assert(listed_before(keys, order[p] as int, order[q] as int));
    }
    assert forall|i: int| 0 <= i < rs.len() implies newest(rs).contains(#[trigger] rs[i]) by {
        assert(order.contains(i as usize));
        let p = choose|p: int| 0 <= p < order.len() && order[p] == i as usize;
        assert(newest(rs)[p] == rs[i]);
    }
}

/// Releases come newest first.
pub proof fn law_releases_newest_first(table: Seq<CommitTypeView>, inputs: Seq<ReleaseCommitsView>)
    requires
        inputs.len() <= usize::MAX,
    ensures
        assemble_spec(table, inputs).len() == inputs.len(),
        forall|p: int, q: int|
            0 <= p < q < inputs.len() ==> (#[trigger] assemble_spec(table, inputs)[p]).timestamp
                >= (#[trigger] assemble_spec(table, inputs)[q]).timestamp,
{
    let keys = release_times(inputs);
    let order = listing_order(keys);
    lemma_newest_first(keys, keys.len());
    assert forall|p: int, q: int| 0 <= p < q < inputs.len() implies (#[trigger] assemble_spec(
        table,
        inputs,
    )[p]).timestamp >= (#[trigger] assemble_spec(table, inputs)[q]).timestamp by {
        assert(listed_before(keys, order[p] as int, order[q] as int));
    }
}

proof fn lemma_breaking_commits_hold(sections: Seq<SectionView>, i: int, j: int)
    requires
        0 <= i < sections.len(),
        0 <= j < sections[i].commits.len(),
        sections[i].commits[j].breaking,
    ensures
        breaking_commits(sections).contains(sections[i].commits[j]),
    decreases sections.len(),
{
    let c = sections[i].commits[j];
    let before = breaking_commits(sections.drop_last());
    let last = sections.last().commits.filter(is_breaking());
    if i == sections.len() - 1 {
        assert(sections.last().commits.contains(c));
        sections.last().commits.lemma_filter_contains_rev(is_breaking(), c);
        let k = choose|k: int| 0 <= k < last.len() && last[k] == c;
        assert((before + last)[before.len() + k] == c);
    } else {
        assert(sections.drop_last()[i] == sections[i]);
        lemma_breaking_commits_hold(sections.drop_last(), i, j);
        let k = choose|k: int| 0 <= k < before.len() && before[k] == c;
        assert((before + last)[k] == c);
    }
}

/// The breaking changes of a release hold every breaking commit of every
/// one of its sections.
pub proof fn law_breaking_changes_are_complete(sections: Seq<SectionView>, i: int, j: int)
    requires
        breaking_commits(sections).len() <= usize::MAX,
        0 <= i < sections.len(),
        0 <= j < sections[i].commits.len(),
        sections[i].commits[j].breaking,
    ensures
        breaking_of(sections) is Some,
        breaking_of(sections)->0.contains(sections[i].commits[j]),
{
    let all = breaking_commits(sections);
    let c = sections[i].commits[j];
    lemma_breaking_commits_hold(sections, i, j);
    let k = choose|k: int| 0 <= k < all.len() && all[k] == c;
    law_newest_first(all);
    assert(newest(all).contains(all[k]));
}

} // verus!
