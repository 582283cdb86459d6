//! Putting a document in the order in which it is written: releases newest
//! first; the sections of a release by the rank of their type, the built-in
//! types in their fixed order and every other type after them, in the order
//! in which the document holds them; the commits of a section newest first.

use vstd::prelude::*;
use vstd::string::*;
use crate::commit::text_views;
use crate::config::{builtin_table, builtin_types, names_of, type_names};
use crate::changelog::{
    ChangelogDocument,
    ChangelogRelease,
    ChangelogSection,
    ReleaseView,
    SectionView,
    section_views,
    newest,
    by_time,
    breaking_of,
    collect_breaking,
    law_newest_first,
};
use crate::order::{
    listing_order,
    is_listing,
    order_newest_first,
    lemma_newest_first,
    listed_before,
};

verus! {

/// The first place of `t` in `names`, or their number where it is not among them.
pub open spec fn place_of(names: Seq<Seq<char>>, t: Seq<char>, from: int) -> int
    decreases names.len() - from,
{
    if from < 0 || from >= names.len() {
        names.len() as int
    } else if names[from] == t {
        from
    } else {
        place_of(names, t, from + 1)
    }
}

/// The rank of a type: its place among the built-in types, or their number.
pub open spec fn rank_of(t: Seq<char>) -> int {
    place_of(names_of(builtin_table()), t, 0)
}

/// The keys by which sections are ordered: lower rank, greater key.
pub open spec fn section_keys(ss: Seq<SectionView>) -> Seq<i64> {
    Seq::new(ss.len(), |i: int| (-rank_of(ss[i].commit_type)) as i64)
}

/// A section with its commits newest first.
pub open spec fn arrange_section(s: SectionView) -> SectionView {
    SectionView { commit_type: s.commit_type, title: s.title, commits: newest(s.commits) }
}

/// A release in order: its sections by rank, their commits newest first,
/// and its breaking changes collected from them anew.
pub open spec fn arrange_release(r: ReleaseView) -> ReleaseView {
    let order = listing_order(section_keys(r.sections));
    let sections = Seq::new(order.len(), |p: int| arrange_section(r.sections[order[p] as int]));
    ReleaseView {
        label: r.label,
        timestamp: r.timestamp,
        breaking: breaking_of(sections),
        sections,
    }
}

/// The times of the releases of a document, in its order.
pub open spec fn document_times(doc: Seq<ReleaseView>) -> Seq<i64> {
    Seq::new(doc.len(), |i: int| doc[i].timestamp)
}

/// The document in the order in which it is written.
pub open spec fn arrange_spec(doc: Seq<ReleaseView>) -> Seq<ReleaseView> {
    let order = listing_order(document_times(doc));
    Seq::new(order.len(), |p: int| arrange_release(doc[order[p] as int]))
}

proof fn lemma_place_of(names: Seq<Seq<char>>, t: Seq<char>, from: int)
    requires
        0 <= from <= names.len(),
    ensures
        from <= place_of(names, t, from) <= names.len(),
    decreases names.len() - from,
{
    if from < names.len() && names[from] != t {
        lemma_place_of(names, t, from + 1);
    }
}

/// The key of a type, given the names of the built-in types.
fn key_of(builtin: &Vec<String>, t: &String) -> (k: i64)
    requires
        text_views(builtin@) == names_of(builtin_table()),
    ensures
        k == (-rank_of(t@)) as i64,
        -11 <= k <= 0,
{
    let ghost names = text_views(builtin@);
    assert(names.len() == 11);
    let mut i: usize = 0;
    while i < builtin.len()
        invariant
            i <= builtin.len(),
            builtin.len() == 11,
            names == text_views(builtin@),
            names == names_of(builtin_table()),
            place_of(names, t@, 0) == place_of(names, t@, i as int),
        decreases builtin.len() - i,
    {
        assert(names[i as int] == builtin@[i as int]@);
        if builtin[i] == *t {
            return -(i as i64);
        }
        i += 1;
    }
    -11
}

fn arrange_one_section(section: &ChangelogSection) -> (r: ChangelogSection)
    ensures
        r@ == arrange_section(section@),
{
    ChangelogSection {
        commit_type: section.commit_type.clone(),
        title: section.title.clone(),
        commits: by_time(&section.commits),
    }
}

fn arrange_one_release(builtin: &Vec<String>, release: &ChangelogRelease) -> (r: ChangelogRelease)
    requires
        text_views(builtin@) == names_of(builtin_table()),
    ensures
        r@ == arrange_release(release@),
{
    let ghost ss = section_views(release.sections@);
    let mut keys: Vec<i64> = Vec::new();
    let mut i: usize = 0;
    while i < release.sections.len()
        invariant
            i <= release.sections.len(),
            keys.len() == i,
            text_views(builtin@) == names_of(builtin_table()),
            forall|j: int|
                0 <= j < i ==> #[trigger] keys@[j] == (-rank_of(
                    release.sections@[j].commit_type@,
                )) as i64,
        decreases release.sections.len() - i,
    {
        keys.push(key_of(builtin, &release.sections[i].commit_type));
        i += 1;
    }
    assert(keys@ =~= section_keys(ss));
    let order = order_newest_first(&keys);
    let mut sections: Vec<ChangelogSection> = Vec::new();
    let mut p: usize = 0;
    while p < order.len()
        invariant
            p <= order.len(),
            sections.len() == p,
            ss == section_views(release.sections@),
            is_listing(keys@, release.sections@.len(), order@),
            forall|q: int|
                0 <= q < p ==> (#[trigger] sections@[q])@ == arrange_section(
                    ss[order@[q] as int],
                ),
        decreases order.len() - p,
    {
        sections.push(arrange_one_section(&release.sections[order[p]]));
        p += 1;
    }
    assert(section_views(sections@) =~= arrange_release(release@).sections);
    let r = ChangelogRelease {
        label: release.label.clone(),
        timestamp: release.timestamp,
        breaking: collect_breaking(&sections),
        sections,
    };
    r
}

/// Puts a document in the order in which it is written. No release, section
/// or commit is added or left out, and what has the same time, or the same
/// rank, keeps its order. The breaking changes of each release are collected
/// from its sections, whatever the document held for them.
pub fn arrange(doc: &ChangelogDocument) -> (r: ChangelogDocument)
    ensures
        r@ == arrange_spec(doc@),
{
    let builtin = type_names(&builtin_types());
    let ghost rs = doc@;
    let mut keys: Vec<i64> = Vec::new();
    let mut i: usize = 0;
    while i < doc.releases.len()
        invariant
            i <= doc.releases.len(),
            keys.len() == i,
            forall|j: int| 0 <= j < i ==> keys@[j] == (#[trigger] doc.releases@[j]).timestamp,
        decreases doc.releases.len() - i,
    {
        keys.push(doc.releases[i].timestamp);
        i += 1;
    }
    assert(keys@ =~= document_times(rs));
    let order = order_newest_first(&keys);
    let mut releases: Vec<ChangelogRelease> = Vec::new();
    let mut p: usize = 0;
    while p < order.len()
        invariant
            p <= order.len(),
            releases.len() == p,
            rs == doc@,
            text_views(builtin@) == names_of(builtin_table()),
            is_listing(keys@, doc.releases@.len(), order@),
            forall|q: int|
                0 <= q < p ==> (#[trigger] releases@[q])@ == arrange_release(
                    rs[order@[q] as int],
                ),
        decreases order.len() - p,
    {
        releases.push(arrange_one_release(&builtin, &doc.releases[order[p]]));
        p += 1;
    }
    let r = ChangelogDocument { releases };
    assert(r@ =~= arrange_spec(rs));
    r
}

/// In an arranged document the releases come newest first, and in each of
/// them a section of lower rank comes before one of higher rank.
pub proof fn law_arranged_order(doc: Seq<ReleaseView>)
    requires
        doc.len() <= usize::MAX,
        forall|i: int| 0 <= i < doc.len() ==> (#[trigger] doc[i]).sections.len() <= usize::MAX,
    ensures
        arrange_spec(doc).len() == doc.len(),
        forall|p: int, q: int|
            0 <= p < q < doc.len() ==> (#[trigger] arrange_spec(doc)[p]).timestamp
                >= (#[trigger] arrange_spec(doc)[q]).timestamp,
        forall|i: int, p: int, q: int|
            0 <= i < doc.len() && 0 <= p < q < arrange_spec(doc)[i].sections.len() ==> rank_of(
                (#[trigger] arrange_spec(doc)[i].sections[p]).commit_type,
            ) <= rank_of((#[trigger] arrange_spec(doc)[i].sections[q]).commit_type),
{
    let keys = document_times(doc);
    let order = listing_order(keys);
    lemma_newest_first(keys, keys.len());
    let out = arrange_spec(doc);
    assert forall|p: int, q: int| 0 <= p < q < doc.len() implies (#[trigger] out[p]).timestamp
        >= (#[trigger] out[q]).timestamp by {
        assert(listed_before(keys, order[p] as int, order[q] as int));
    }
    assert forall|i: int, p: int, q: int|
        0 <= i < doc.len() && 0 <= p < q < out[i].sections.len() implies rank_of(
        (#[trigger] out[i].sections[p]).commit_type,
    ) <= rank_of((#[trigger] out[i].sections[q]).commit_type) by {
        let r = doc[order[i] as int];
        let sk = section_keys(r.sections);
        let so = listing_order(sk);
        lemma_newest_first(sk, sk.len());
        assert(out[i] == arrange_release(r));
        assert(listed_before(sk, so[p] as int, so[q] as int));
        let a = r.sections[so[p] as int].commit_type;
        let b = r.sections[so[q] as int].commit_type;
        lemma_place_of(names_of(builtin_table()), a, 0);
        lemma_place_of(names_of(builtin_table()), b, 0);
        assert(names_of(builtin_table()).len() == 11);
        assert(out[i].sections[p].commit_type == a);
        assert(out[i].sections[q].commit_type == b);
    }
}

/// In an arranged document the commits of every section come newest first.
pub proof fn law_arranged_commits(doc: Seq<ReleaseView>, i: int, k: int)
    requires
        doc.len() <= usize::MAX,
        forall|i: int| 0 <= i < doc.len() ==> (#[trigger] doc[i]).sections.len() <= usize::MAX,
        forall|i: int, k: int|
            0 <= i < doc.len() && 0 <= k < doc[i].sections.len() ==> (#[trigger] doc[i].sections[k]).commits.len()
                <= usize::MAX,
        0 <= i < arrange_spec(doc).len(),
        0 <= k < arrange_spec(doc)[i].sections.len(),
    ensures
        forall|p: int, q: int|
            0 <= p < q < arrange_spec(doc)[i].sections[k].commits.len() ==> (
            #[trigger] arrange_spec(doc)[i].sections[k].commits[p]).timestamp >= (
            #[trigger] arrange_spec(doc)[i].sections[k].commits[q]).timestamp,
{
    let keys = document_times(doc);
    let order = listing_order(keys);
    lemma_newest_first(keys, keys.len());
    let r = doc[order[i] as int];
    assert(arrange_spec(doc)[i] == arrange_release(r));
    let sk = section_keys(r.sections);
    let so = listing_order(sk);
    lemma_newest_first(sk, sk.len());
    let section = r.sections[so[k] as int];
    assert(arrange_spec(doc)[i].sections[k] == arrange_section(section));
    law_newest_first(section.commits);
}

} // verus!
