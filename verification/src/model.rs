//! Records produced by the listing parsers and the grouping that the
//! version list is rendered from.  Lists are rebuilt wholesale on every
//! refresh; nothing here is patched incrementally.

use vstd::prelude::*;

use vstd::multiset::Multiset;

use crate::version::{version_le, version_lt, NodeVersion};

verus! {

/// One on-disk version of one backend and environment.  Within one
/// environment's list at most one entry should be the default; a backend
/// bug can violate that, so callers tolerate zero or one.
#[derive(Debug, Clone)]
pub struct InstalledVersion {
    pub version: NodeVersion,
    pub is_default: bool,
    pub lts_codename: Option<String>,
    /// Seconds since the Unix epoch, where the backend reports it.
    pub install_date: Option<i64>,
    pub disk_size: Option<u64>,
}

pub ghost struct InstalledVersionView {
    pub version: NodeVersion,
    pub is_default: bool,
    pub lts_codename: Option<Seq<char>>,
    pub install_date: Option<i64>,
    pub disk_size: Option<u64>,
}

impl View for InstalledVersion {
    type V = InstalledVersionView;

    open spec fn view(&self) -> InstalledVersionView {
        InstalledVersionView {
            version: self.version,
            is_default: self.is_default,
            lts_codename: self.lts_codename.deep_view(),
            install_date: self.install_date,
            disk_size: self.disk_size,
        }
    }
}

impl DeepView for InstalledVersion {
    type V = InstalledVersionView;

    open spec fn deep_view(&self) -> InstalledVersionView {
        self.view()
    }
}

/// An installable upstream release; one major/minor line may appear once
/// per patch in raw listings.
#[derive(Debug, Clone)]
pub struct RemoteVersion {
    pub version: NodeVersion,
    pub lts_codename: Option<String>,
    pub is_latest: bool,
}

pub ghost struct RemoteVersionView {
    pub version: NodeVersion,
    pub lts_codename: Option<Seq<char>>,
    pub is_latest: bool,
}

impl View for RemoteVersion {
    type V = RemoteVersionView;

    open spec fn view(&self) -> RemoteVersionView {
        RemoteVersionView {
            version: self.version,
            lts_codename: self.lts_codename.deep_view(),
            is_latest: self.is_latest,
        }
    }
}

impl DeepView for RemoteVersion {
    type V = RemoteVersionView;

    open spec fn deep_view(&self) -> RemoteVersionView {
        self.view()
    }
}

pub fn clone_installed(v: &InstalledVersion) -> (r: InstalledVersion)
    ensures
        r@ == v@,
{
    InstalledVersion {
        version: v.version,
        is_default: v.is_default,
        lts_codename: match &v.lts_codename {
            Some(s) => Some(s.clone()),
            None => None,
        },
        install_date: v.install_date,
        disk_size: v.disk_size,
    }
}

pub fn clone_remote(v: &RemoteVersion) -> (r: RemoteVersion)
    ensures
        r@ == v@,
{
    RemoteVersion {
        version: v.version,
        lts_codename: match &v.lts_codename {
            Some(s) => Some(s.clone()),
            None => None,
        },
        is_latest: v.is_latest,
    }
}

/// Derived view state: one collapsible group per major line.  Rebuilt in
/// full from the installed list on every refresh, never persisted.
#[derive(Debug, Clone)]
pub struct VersionGroup {
    pub major: u32,
    pub versions: Vec<InstalledVersion>,
    pub is_expanded: bool,
}

pub ghost struct VersionGroupView {
    pub major: u32,
    pub versions: Seq<InstalledVersionView>,
    pub is_expanded: bool,
}

impl View for VersionGroup {
    type V = VersionGroupView;

    open spec fn view(&self) -> VersionGroupView {
        VersionGroupView {
            major: self.major,
            versions: self.versions.deep_view(),
            is_expanded: self.is_expanded,
        }
    }
}

impl DeepView for VersionGroup {
    type V = VersionGroupView;

    open spec fn deep_view(&self) -> VersionGroupView {
        self.view()
    }
}

/// Later entries never exceed earlier ones: descending by version.
pub open spec fn versions_desc(s: Seq<InstalledVersionView>) -> bool {
    forall|i: int, j: int|
        0 <= i < j < s.len() ==> version_le(s[j].version, s[i].version)
}

/// A well-formed group: non-empty, every member on the group's major
/// line, members descending, and freshly expanded.
pub open spec fn group_wf(g: VersionGroupView) -> bool {
    &&& g.versions.len() > 0
    &&& forall|k: int|
        0 <= k < g.versions.len() ==> #[trigger] g.versions[k].version.major
            == g.major
    &&& versions_desc(g.versions)
    &&& g.is_expanded
}

/// Groups partition by major and majors strictly descend.
pub open spec fn groups_wf(gs: Seq<VersionGroupView>) -> bool {
    &&& forall|i: int| 0 <= i < gs.len() ==> group_wf(#[trigger] gs[i])
    &&& forall|i: int, j: int|
        0 <= i < j < gs.len() ==> #[trigger] gs[i].major > #[trigger] gs[j].major
}

pub open spec fn flatten_groups(gs: Seq<VersionGroupView>) -> Seq<
    InstalledVersionView,
> {
    gs.map_values(|g: VersionGroupView| g.versions).flatten()
}

proof fn lemma_version_le_trans(a: NodeVersion, b: NodeVersion, c: NodeVersion)
    requires
        version_le(a, b),
        version_le(b, c),
    ensures
        version_le(a, c),
{
}

proof fn lemma_seq_insert_to_multiset<A>(s: Seq<A>, k: int, x: A)
    requires
        0 <= k <= s.len(),
    ensures
        s.insert(k, x).to_multiset() == s.to_multiset().insert(x),
{
    broadcast use vstd::seq_lib::group_to_multiset_ensures;

    let left = s.take(k);
    let right = s.skip(k);
    assert(s.insert(k, x) =~= left + (seq![x] + right));
    assert(s =~= left + right);
    vstd::seq_lib::lemma_multiset_commutative(left, seq![x] + right);
    vstd::seq_lib::lemma_multiset_commutative(seq![x], right);
    vstd::seq_lib::lemma_multiset_commutative(left, right);
    assert(seq![x] =~= Seq::<A>::empty().push(x));
    assert(seq![x].to_multiset() =~= Multiset::<A>::empty().insert(x));
    assert((left + (seq![x] + right)).to_multiset() =~= s.to_multiset().insert(x));
}

/// Sorts descending by version, keeping the multiset of entries.
fn sort_versions_desc(versions: &Vec<InstalledVersion>) -> (r: Vec<
    InstalledVersion,
>)
    ensures
        r.deep_view().to_multiset() == versions.deep_view().to_multiset(),
        versions_desc(r.deep_view()),
        r@.len() == versions@.len(),
{
    let mut sorted: Vec<InstalledVersion> = Vec::new();
    let mut idx: usize = 0;
    proof {
        broadcast use vstd::seq_lib::group_to_multiset_ensures;

        assert(versions.deep_view().take(0) =~= Seq::<InstalledVersionView>::empty());
        assert(sorted.deep_view() =~= Seq::<InstalledVersionView>::empty());
    }
    while idx < versions.len()
        invariant
            0 <= idx <= versions@.len(),
            sorted.deep_view().to_multiset() == versions.deep_view().take(
                idx as int,
            ).to_multiset(),
            versions_desc(sorted.deep_view()),
            sorted@.len() == idx,
        decreases versions@.len() - idx,
    {
        let x = clone_installed(&versions[idx]);
        let mut k: usize = 0;
        while k < sorted.len() && !sorted[k].version.precedes(&x.version)
            invariant
                0 <= k <= sorted@.len(),
                forall|j: int|
                    0 <= j < k ==> !version_lt(
                        #[trigger] sorted.deep_view()[j].version,
                        x@.version,
                    ),
            decreases sorted@.len() - k,
        {
            k = k + 1;
        }
        let ghost before = sorted.deep_view();
        sorted.insert(k, x);
        proof {
            broadcast use vstd::seq_lib::group_to_multiset_ensures;

            assert(sorted.deep_view() =~= before.insert(k as int, x@));
            lemma_seq_insert_to_multiset(before, k as int, x@);
            assert(versions.deep_view().take(idx + 1) =~= versions.deep_view().take(
                idx as int,
            ).push(versions.deep_view()[idx as int]));
            // order: everything before k is >= x, everything after is <= x
            let now = sorted.deep_view();
            assert forall|i: int, j: int|
                0 <= i < j < now.len() implies version_le(
                now[j].version,
                now[i].version,
            ) by {
                if i < k && j == k {
                    assert(!version_lt(before[i].version, x@.version));
                } else if i == k && j > k {
                    assert(version_lt(before[k as int].version, x@.version));
                    assert(now[j] == before[j - 1]);
                    assert(version_le(before[j - 1].version, before[k as int].version));
                } else if i < k && j > k {
                    assert(now[i] == before[i] && now[j] == before[j - 1]);
                } else if i > k && j > k {
                    assert(now[i] == before[i - 1] && now[j] == before[j - 1]);
                }
            }
        }
        idx = idx + 1;
    }
    proof {
        assert(versions.deep_view().take(versions@.len() as int) =~= versions
            .deep_view());
    }
    sorted
}

impl VersionGroup {
    /// Rebuilds the whole grouping: strictly major-partitioned groups in
    /// descending major order, each group's versions descending, every
    /// entry of the input in the group of its major line and nothing
    /// else, and every group freshly expanded.  Empty input gives empty
    /// output.
    pub fn from_versions(versions: Vec<InstalledVersion>) -> (r: Vec<VersionGroup>)
        ensures
            groups_wf(r.deep_view()),
            flatten_groups(r.deep_view()).to_multiset() == versions.deep_view()
                .to_multiset(),
            (r@.len() == 0 <==> versions@.len() == 0),
    {
        let sorted = sort_versions_desc(&versions);
        let n = sorted.len();
        let mut groups: Vec<VersionGroup> = Vec::new();
        let mut i: usize = 0;
        proof {
            broadcast use Seq::lemma_flatten_push, Seq::lemma_flatten_singleton;

            assert(groups.deep_view().map_values(|g: VersionGroupView| g.versions)
                =~= Seq::<Seq<InstalledVersionView>>::empty());
            assert(flatten_groups(groups.deep_view()) =~= Seq::<
                InstalledVersionView,
            >::empty());
            assert(sorted.deep_view().take(0) =~= Seq::<
                InstalledVersionView,
            >::empty());
        }
        while i < n
            invariant
                0 <= i <= n,
                n == sorted@.len(),
                sorted.deep_view().len() == n,
                versions_desc(sorted.deep_view()),
                groups_wf(groups.deep_view()),
                flatten_groups(groups.deep_view()) == sorted.deep_view().take(
                    i as int,
                ),
                groups@.len() == 0 <==> i == 0,
                i > 0 ==> groups@.len() > 0 && groups.deep_view().last().versions
                    .last() == sorted.deep_view()[i - 1]
                    && groups.deep_view().last().major == sorted.deep_view()[i
                    - 1].version.major,
            decreases n - i,
        {
            let x = clone_installed(&sorted[i]);
            let ghost gs_before = groups.deep_view();
            let same_major = if groups.len() > 0 {
                let gl = groups.len() - 1;
                groups[gl].major == x.version.major
            } else {
                false
            };
            if same_major {
                let mut g = match groups.pop() {
                    Some(g) => g,
                    None => {
                        // groups is non-empty when the major matches
                        proof {
                            assert(false);
                        }
                        unreached()
                    },
                };
                let ghost g_before = g@;
                g.versions.push(x);
                proof {
                    let gv = g@;
                    assert(gv.versions =~= g_before.versions.push(x@));
                    // x keeps the group descending: it is below the last entry
                    assert(version_le(x@.version, g_before.versions.last().version));
                    assert forall|a: int, b: int|
                        0 <= a < b < gv.versions.len() implies version_le(
                        gv.versions[b].version,
                        gv.versions[a].version,
                    ) by {
                        if b == gv.versions.len() - 1 {
                            lemma_version_le_trans(
                                x@.version,
                                g_before.versions.last().version,
                                g_before.versions[a].version,
                            );
                        }
                    }
                    assert(group_wf(gv));
                }
                groups.push(g);
                proof {
                    broadcast use Seq::lemma_flatten_push, Seq::lemma_flatten_singleton;

                    let gs = groups.deep_view();
                    assert(gs =~= gs_before.drop_last().push(g@));
                    assert(gs_before =~= gs_before.drop_last().push(
                        gs_before.last(),
                    ));
                    let m0 = gs_before.drop_last().map_values(
                        |g: VersionGroupView| g.versions,
                    );
                    assert(gs_before.map_values(|g: VersionGroupView| g.versions)
                        =~= m0.push(gs_before.last().versions));
                    assert(gs.map_values(|g: VersionGroupView| g.versions) =~= m0
                        .push(g@.versions));
                    assert(flatten_groups(gs) =~= m0.flatten() + g@.versions);
                    assert(flatten_groups(gs_before) =~= m0.flatten()
                        + gs_before.last().versions);
                    assert(g@.versions =~= gs_before.last().versions.push(x@));
                    assert(flatten_groups(gs) =~= flatten_groups(gs_before).push(
                        x@,
                    ));
                    assert(sorted.deep_view().take(i + 1) =~= sorted.deep_view()
                        .take(i as int).push(sorted.deep_view()[i as int]));
                    assert(groups_wf(gs));
                }
            } else {
                let mut members: Vec<InstalledVersion> = Vec::new();
                members.push(x);
                let g = VersionGroup {
                    major: members[0].version.major_group(),
                    versions: members,
                    is_expanded: true,
                };
                proof {
                    assert(g@.versions =~= seq![sorted.deep_view()[i as int]]);
                    assert(group_wf(g@));
                }
                groups.push(g);
                proof {
                    broadcast use Seq::lemma_flatten_push, Seq::lemma_flatten_singleton;

                    let gs = groups.deep_view();
                    assert(gs =~= gs_before.push(g@));
                    let m0 = gs_before.map_values(|g: VersionGroupView| g.versions);
                    assert(gs.map_values(|g: VersionGroupView| g.versions) =~= m0
                        .push(g@.versions));
                    assert(flatten_groups(gs) =~= m0.flatten() + g@.versions);
                    assert(flatten_groups(gs) =~= flatten_groups(gs_before).push(
                        x@,
                    ));
                    assert(sorted.deep_view().take(i + 1) =~= sorted.deep_view()
                        .take(i as int).push(sorted.deep_view()[i as int]));
                    // a fresh group's major strictly descends
                    if i > 0 {
                        assert(version_le(
                            sorted.deep_view()[i as int].version,
                            sorted.deep_view()[i - 1].version,
                        ));
                        assert(gs_before.last().major > g@.major);
                        assert forall|a: int, b: int|
                            0 <= a < b < gs.len() implies gs[a].major > gs[
                            b
                        ].major by {
                            if b == gs.len() - 1 {
                                assert(gs[a].major >= gs_before.last().major);
                            }
                        }
                    }
                    assert(groups_wf(gs));
                }
            }
            i = i + 1;
        }
        proof {
            assert(sorted.deep_view().take(n as int) =~= sorted.deep_view());
            assert(flatten_groups(groups.deep_view()) == sorted.deep_view());
            assert(flatten_groups(groups.deep_view()).to_multiset() == versions
                .deep_view().to_multiset());
            if versions@.len() > 0 {
                assert(groups@.len() > 0);
            }
            if groups@.len() > 0 {
                broadcast use vstd::seq_lib::group_to_multiset_ensures;

                assert(sorted@.len() > 0);
            }
        }
        groups
    }
}

} // verus!
