//! Semantic versions and the rule that derives the next one from a set of commits.

use vstd::prelude::*;
use vstd::string::*;
use crate::commit::{CommitRecord, CommitView, commit_views, text_view, copy_text};
use crate::text::{decimal, push_decimal, text_is};

verus! {

/// A semantic version: three numbers, an optional pre-release tag and
/// optional build metadata.
#[derive(Clone, Debug, PartialEq, Eq)]
pub struct Version {
    pub major: u64,
    pub minor: u64,
    pub patch: u64,
    pub pre: Option<String>,
    pub build: Option<String>,
}

/// What a [`Version`] holds, with texts as sequences of characters.
pub struct VersionView {
    pub major: nat,
    pub minor: nat,
    pub patch: nat,
    pub pre: Option<Seq<char>>,
    pub build: Option<Seq<char>>,
}

impl View for Version {
    type V = VersionView;

    open spec fn view(&self) -> VersionView {
        VersionView {
            major: self.major as nat,
            minor: self.minor as nat,
            patch: self.patch as nat,
            pre: text_view(self.pre),
            build: text_view(self.build),
        }
    }
}

/// Which of the three numbers a bump raises.
#[derive(Clone, Copy, Debug, PartialEq, Eq, Structural)]
pub enum Increment {
    Major,
    Minor,
    Patch,
}

/// A target that the caller sets by hand, in place of what the commits ask for.
#[derive(Clone, Debug, PartialEq, Eq)]
pub enum ManualTarget {
    Explicit(Version),
    ForceMajor,
    ForceMinor,
    ForcePatch,
}

/// What a [`ManualTarget`] holds, with texts as sequences of characters.
pub enum ManualTargetView {
    Explicit(VersionView),
    ForceMajor,
    ForceMinor,
    ForcePatch,
}

impl View for ManualTarget {
    type V = ManualTargetView;

    open spec fn view(&self) -> ManualTargetView {
        match self {
            ManualTarget::Explicit(v) => ManualTargetView::Explicit(v@),
            ManualTarget::ForceMajor => ManualTargetView::ForceMajor,
            ManualTarget::ForceMinor => ManualTargetView::ForceMinor,
            ManualTarget::ForcePatch => ManualTargetView::ForcePatch,
        }
    }
}

/// The view of an optional target.
pub open spec fn target_view(t: Option<ManualTarget>) -> Option<ManualTargetView> {
    match t {
        Some(m) => Some(m@),
        None => None,
    }
}

/// What the engine decides: a new version, or that nothing calls for one.
#[derive(Clone, Debug, PartialEq, Eq)]
pub enum VersionIncrementDecision {
    Bump(Version),
    NoApplicableCommits,
}

/// What a [`VersionIncrementDecision`] holds, with texts as sequences of characters.
pub enum DecisionView {
    Bump(VersionView),
    NoApplicableCommits,
}

impl View for VersionIncrementDecision {
    type V = DecisionView;

    open spec fn view(&self) -> DecisionView {
        match self {
            VersionIncrementDecision::Bump(v) => DecisionView::Bump(v@),
            VersionIncrementDecision::NoApplicableCommits => DecisionView::NoApplicableCommits,
        }
    }
}

/// The failures of the engine.
#[derive(Clone, Copy, Debug, PartialEq, Eq, Structural)]
pub enum VersionError {
    /// The number to raise is already the largest that fits.
    NumericOverflow,
}

/// Some commit of the set is marked as breaking.
pub open spec fn any_breaking(rs: Seq<CommitView>) -> bool {
    exists|i: int| 0 <= i < rs.len() && (#[trigger] rs[i]).breaking
}

/// Some commit of the set has the type `t`.
pub open spec fn any_of_type(rs: Seq<CommitView>, t: Seq<char>) -> bool {
    exists|i: int| 0 <= i < rs.len() && (#[trigger] rs[i]).commit_type == t
}

/// The bump that a set of commits asks for: major for a breaking change,
/// else minor for a feature, else patch for a fix or a performance change.
pub open spec fn required_increment(rs: Seq<CommitView>) -> Option<Increment> {
    if any_breaking(rs) {
        Some(Increment::Major)
    } else if any_of_type(rs, "feat"@) {
        Some(Increment::Minor)
    } else if any_of_type(rs, "fix"@) || any_of_type(rs, "perf"@) {
        Some(Increment::Patch)
    } else {
        None
    }
}

/// The release that follows `cur` when the number named by `inc` is raised:
/// the numbers below it go back to zero, and tag and metadata are dropped.
pub open spec fn raised(cur: VersionView, inc: Increment) -> Result<VersionView, VersionError> {
    let top = match inc {
        Increment::Major => cur.major,
        Increment::Minor => cur.minor,
        Increment::Patch => cur.patch,
    };
    if top >= u64::MAX {
        Err(VersionError::NumericOverflow)
    } else {
        Ok(
            match inc {
                Increment::Major => VersionView {
                    major: cur.major + 1,
                    minor: 0,
                    patch: 0,
                    pre: None,
                    build: None,
                },
                Increment::Minor => VersionView {
                    major: cur.major,
                    minor: cur.minor + 1,
                    patch: 0,
                    pre: None,
                    build: None,
                },
                Increment::Patch => VersionView {
                    major: cur.major,
                    minor: cur.minor,
                    patch: cur.patch + 1,
                    pre: None,
                    build: None,
                },
            },
        )
    }
}

/// The decision to go to the release that follows `cur` when `inc` is raised.
pub open spec fn raised_decision(cur: VersionView, inc: Increment) -> Result<
    DecisionView,
    VersionError,
> {
    match raised(cur, inc) {
        Ok(v) => Ok(DecisionView::Bump(v)),
        Err(e) => Err(e),
    }
}

/// The decision for a version, a set of commits and an optional manual target.
/// A target decides alone; without one the commits do.
pub open spec fn next_version_spec(
    cur: VersionView,
    rs: Seq<CommitView>,
    target: Option<ManualTargetView>,
) -> Result<DecisionView, VersionError> {
    match target {
        Some(ManualTargetView::Explicit(v)) => Ok(DecisionView::Bump(v)),
        Some(ManualTargetView::ForceMajor) => raised_decision(cur, Increment::Major),
        Some(ManualTargetView::ForceMinor) => raised_decision(cur, Increment::Minor),
        Some(ManualTargetView::ForcePatch) => raised_decision(cur, Increment::Patch),
        None => match required_increment(rs) {
            Some(inc) => raised_decision(cur, inc),
            None => Ok(DecisionView::NoApplicableCommits),
        },
    }
}

impl Version {
    /// A release version: no pre-release tag, no build metadata.
    pub fn new(major: u64, minor: u64, patch: u64) -> (v: Version)
        ensures
            v@ == (VersionView {
                major: major as nat,
                minor: minor as nat,
                patch: patch as nat,
                pre: None,
                build: None,
            }),
    {
        Version { major, minor, patch, pre: None, build: None }
    }

    /// A copy that holds the same values.
    pub fn duplicate(&self) -> (r: Version)
        ensures
            r@ == self@,
    {
        Version {
            major: self.major,
            minor: self.minor,
            patch: self.patch,
            pre: copy_text(&self.pre),
            build: copy_text(&self.build),
        }
    }

    /// Raises one of the three numbers.
    pub fn raise(&self, inc: Increment) -> (r: Result<Version, VersionError>)
        ensures
            match raised(self@, inc) {
                Ok(v) => r is Ok && r->Ok_0@ == v,
                Err(e) => r == Err::<Version, VersionError>(e),
            },
    {
        match inc {
            Increment::Major => {
                if self.major == u64::MAX {
                    Err(VersionError::NumericOverflow)
                } else {
                    Ok(Version::new(self.major + 1, 0, 0))
                }
            },
            Increment::Minor => {
                if self.minor == u64::MAX {
                    Err(VersionError::NumericOverflow)
                } else {
                    Ok(Version::new(self.major, self.minor + 1, 0))
                }
            },
            Increment::Patch => {
                if self.patch == u64::MAX {
                    Err(VersionError::NumericOverflow)
                } else {
                    Ok(Version::new(self.major, self.minor, self.patch + 1))
                }
            },
        }
    }
}

/// The bump that the commits ask for, if any.
pub fn detect_increment(records: &Vec<CommitRecord>) -> (r: Option<Increment>)
    ensures
        r == required_increment(commit_views(records@)),
{
    let ghost rs = commit_views(records@);
    let mut breaking = false;
    let mut feature = false;
    let mut fix = false;
    let mut i: usize = 0;
    while i < records.len()
        invariant
            i <= records.len(),
            rs == commit_views(records@),
            breaking == any_breaking(rs.take(i as int)),
            feature == any_of_type(rs.take(i as int), "feat"@),
            fix == (any_of_type(rs.take(i as int), "fix"@) || any_of_type(
                rs.take(i as int),
                "perf"@,
            )),
        decreases records.len() - i,
    {
        let r = &records[i];
        let ghost before = rs.take(i as int);
        let ghost after = rs.take(i + 1);
        proof {
            assert(after =~= before.push(rs[i as int]));
            assert(rs[i as int] == r@);
            lemma_any_breaking_push(before, r@);
            lemma_any_of_type_push(before, r@, "feat"@);
            lemma_any_of_type_push(before, r@, "fix"@);
            lemma_any_of_type_push(before, r@, "perf"@);
        }
        if r.breaking {
            breaking = true;
        }
        if text_is(&r.commit_type, "feat") {
            feature = true;
        }
        if text_is(&r.commit_type, "fix") || text_is(&r.commit_type, "perf") {
            fix = true;
        }
        i += 1;
    }
    proof {
        assert(rs.take(records.len() as int) =~= rs);
    }
    if breaking {
        Some(Increment::Major)
    } else if feature {
        Some(Increment::Minor)
    } else if fix {
        Some(Increment::Patch)
    } else {
        None
    }
}

proof fn lemma_any_breaking_push(rs: Seq<CommitView>, r: CommitView)
    ensures
        any_breaking(rs.push(r)) == (any_breaking(rs) || r.breaking),
{
    let ext = rs.push(r);
    if any_breaking(rs) {
        let i = choose|i: int| 0 <= i < rs.len() && (#[trigger] rs[i]).breaking;
        assert(ext[i].breaking);
    }
    if r.breaking {
        assert(ext[rs.len() as int].breaking);
    }
    if any_breaking(ext) {
        let i = choose|i: int| 0 <= i < ext.len() && (#[trigger] ext[i]).breaking;
        if i < rs.len() {
            assert(rs[i].breaking);
        }
    }
}

proof fn lemma_any_of_type_push(rs: Seq<CommitView>, r: CommitView, t: Seq<char>)
    ensures
        any_of_type(rs.push(r), t) == (any_of_type(rs, t) || r.commit_type == t),
{
    let ext = rs.push(r);
    if any_of_type(rs, t) {
        let i = choose|i: int| 0 <= i < rs.len() && (#[trigger] rs[i]).commit_type == t;
        assert(ext[i].commit_type == t);
    }
    if r.commit_type == t {
        assert(ext[rs.len() as int].commit_type == t);
    }
    if any_of_type(ext, t) {
        let i = choose|i: int| 0 <= i < ext.len() && (#[trigger] ext[i]).commit_type == t;
        if i < rs.len() {
            assert(rs[i].commit_type == t);
        }
    }
}

/// Computes the next version.
///
/// A manual target decides alone and the commits are not looked at: an
/// explicit version is taken as it is, a forced bump raises the number it
/// names. Without a target the commits decide: a breaking change raises the
/// major number, whatever the current one is (also from `0.x.y`, which goes
/// to `1.0.0`); otherwise a feature raises the minor number; otherwise a fix
/// or a performance change raises the patch number; otherwise nothing applies.
/// A number that cannot be raised is an error, and no version comes back.
pub fn next_version(
    current: &Version,
    records: &Vec<CommitRecord>,
    target: Option<ManualTarget>,
) -> (r: Result<VersionIncrementDecision, VersionError>)
    ensures
        match next_version_spec(current@, commit_views(records@), target_view(target)) {
            Ok(d) => r is Ok && r->Ok_0@ == d,
            Err(e) => r == Err::<VersionIncrementDecision, VersionError>(e),
        },
{
    let inc = match target {
        Some(ManualTarget::Explicit(v)) => {
            return Ok(VersionIncrementDecision::Bump(v));
        },
        Some(ManualTarget::ForceMajor) => Increment::Major,
        Some(ManualTarget::ForceMinor) => Increment::Minor,
        Some(ManualTarget::ForcePatch) => Increment::Patch,
        None => match detect_increment(records) {
            Some(inc) => inc,
            None => {
                return Ok(VersionIncrementDecision::NoApplicableCommits);
            },
        },
    };
    match current.raise(inc) {
        Ok(v) => Ok(VersionIncrementDecision::Bump(v)),
        Err(e) => Err(e),
    }
}

/// A feature outranks a fix: where no commit is breaking and one is a
/// feature, the minor number is raised, whatever else the set holds.
pub proof fn law_feature_outranks_fix(cur: VersionView, rs: Seq<CommitView>, feat: int, fix: int)
    requires
        0 <= feat < rs.len(),
        0 <= fix < rs.len(),
        rs[feat].commit_type == "feat"@,
        rs[fix].commit_type == "fix"@,
        !any_breaking(rs),
    ensures
        next_version_spec(cur, rs, None) == raised_decision(cur, Increment::Minor),
        cur.minor < u64::MAX ==> next_version_spec(cur, rs, None) == Ok::<
            DecisionView,
            VersionError,
        >(
            DecisionView::Bump(
                VersionView {
                    major: cur.major,
                    minor: cur.minor + 1,
                    patch: 0,
                    pre: None,
                    build: None,
                },
            ),
        ),
{
}

/// One breaking commit is enough for a major bump, whatever its type and
/// whatever else the set holds.
pub proof fn law_breaking_dominates(cur: VersionView, rs: Seq<CommitView>, i: int)
    requires
        0 <= i < rs.len(),
        rs[i].breaking,
    ensures
        next_version_spec(cur, rs, None) == raised_decision(cur, Increment::Major),
        cur.major < u64::MAX ==> next_version_spec(cur, rs, None) == Ok::<
            DecisionView,
            VersionError,
        >(
            DecisionView::Bump(
                VersionView { major: cur.major + 1, minor: 0, patch: 0, pre: None, build: None },
            ),
        ),
{
}

/// Commits that are neither breaking nor a feature, a fix or a performance
/// change ask for no bump.
pub proof fn law_other_types_do_not_bump(cur: VersionView, rs: Seq<CommitView>)
    requires
        forall|i: int|
            0 <= i < rs.len() ==> {
                &&& !(#[trigger] rs[i]).breaking
                &&& rs[i].commit_type != "feat"@
                &&& rs[i].commit_type != "fix"@
                &&& rs[i].commit_type != "perf"@
            },
    ensures
        next_version_spec(cur, rs, None) == Ok::<DecisionView, VersionError>(
            DecisionView::NoApplicableCommits,
        ),
{
}

/// No commits, no bump.
pub proof fn law_empty_set_does_not_bump(cur: VersionView)
    ensures
        next_version_spec(cur, Seq::<CommitView>::empty(), None) == Ok::<
            DecisionView,
            VersionError,
        >(DecisionView::NoApplicableCommits),
{
}

/// A manual target decides alone: the commits make no difference.
pub proof fn law_target_ignores_commits(
    cur: VersionView,
    rs1: Seq<CommitView>,
    rs2: Seq<CommitView>,
    target: ManualTargetView,
)
    ensures
        next_version_spec(cur, rs1, Some(target)) == next_version_spec(cur, rs2, Some(target)),
{
}

/// The text of a version: `MAJOR.MINOR.PATCH`, then `-` and the pre-release
/// tag, then `+` and the build metadata, where there are any.
pub open spec fn version_text(v: VersionView) -> Seq<char> {
    decimal(v.major) + "."@ + decimal(v.minor) + "."@ + decimal(v.patch) + (match v.pre {
        Some(p) => "-"@ + p,
        None => Seq::<char>::empty(),
    }) + (match v.build {
        Some(b) => "+"@ + b,
        None => Seq::<char>::empty(),
    })
}

impl Version {
    /// Appends the text of the version to `out`.
    pub fn write_to(&self, out: &mut String)
        ensures
            final(out)@ == old(out)@ + version_text(self@),
    {
        push_decimal(out, self.major);
        out.append(".");
        push_decimal(out, self.minor);
        out.append(".");
        push_decimal(out, self.patch);
        let ghost mid = out@;
        match &self.pre {
            Some(p) => {
                out.append("-");
                out.append(p.as_str());
            },
            None => {},
        }
        let ghost mid2 = out@;
        match &self.build {
            Some(b) => {
                out.append("+");
                out.append(b.as_str());
            },
            None => {},
        }
        proof {
            let pre_part = match self@.pre {
                Some(p) => "-"@ + p,
                None => Seq::<char>::empty(),
            };
            let build_part = match self@.build {
                Some(b) => "+"@ + b,
                None => Seq::<char>::empty(),
            };
            let head = decimal(self@.major) + "."@ + decimal(self@.minor) + "."@ + decimal(
                self@.patch,
            );
            assert(mid =~= old(out)@ + head);
            assert(mid2 =~= mid + pre_part);
            assert(out@ =~= mid2 + build_part);
            assert(out@ =~= old(out)@ + (head + pre_part + build_part));
        }
    }

    /// The text of the version.
    pub fn to_text(&self) -> (r: String)
        ensures
            r@ == version_text(self@),
    {
        let mut r = String::new();
        self.write_to(&mut r);
        assert(Seq::<char>::empty() + version_text(self@) =~= version_text(self@));
        r
    }
}

/// The decision is a function of what the inputs hold: two calls on
/// versions, commits and targets with the same values decide the same,
/// whenever and in whatever order they are made.
pub proof fn law_next_version_is_deterministic(
    current1: Version,
    current2: Version,
    records1: Seq<CommitRecord>,
    records2: Seq<CommitRecord>,
    target1: Option<ManualTarget>,
    target2: Option<ManualTarget>,
)
    requires
        current1@ == current2@,
        commit_views(records1) == commit_views(records2),
        target_view(target1) == target_view(target2),
    ensures
        next_version_spec(current1@, commit_views(records1), target_view(target1))
            == next_version_spec(current2@, commit_views(records2), target_view(target2)),
{
}

/// What the options of a bump request ask for: `Some(None)` to let the
/// commits decide, `Some(Some(target))` for a manual target, `None` where no
/// option is given. An explicit version goes before `auto`, and `auto`
/// before the three forced bumps, major first.
pub open spec fn chosen_target(
    version: Option<VersionView>,
    auto: bool,
    major: bool,
    minor: bool,
    patch: bool,
) -> Option<Option<ManualTargetView>> {
    match version {
        Some(v) => Some(Some(ManualTargetView::Explicit(v))),
        None => if auto {
            Some(None)
        } else if major {
            Some(Some(ManualTargetView::ForceMajor))
        } else if minor {
            Some(Some(ManualTargetView::ForceMinor))
        } else if patch {
            Some(Some(ManualTargetView::ForcePatch))
        } else {
            None
        },
    }
}

/// Reads the options of a bump request.
pub fn choose_target(version: Option<Version>, auto: bool, major: bool, minor: bool, patch: bool)
    -> (r: Option<Option<ManualTarget>>)
    ensures
        match chosen_target(
            match version {
                Some(v) => Some(v@),
                None => None,
            },
            auto,
            major,
            minor,
            patch,
        ) {
            Some(t) => r is Some && target_view(r->0) == t,
            None => r is None,
        },
{
    match version {
        Some(v) => Some(Some(ManualTarget::Explicit(v))),
        None => if auto {
            Some(None)
        } else if major {
            Some(Some(ManualTarget::ForceMajor))
        } else if minor {
            Some(Some(ManualTarget::ForceMinor))
        } else if patch {
            Some(Some(ManualTarget::ForcePatch))
        } else {
            None
        },
    }
}

} // verus!
