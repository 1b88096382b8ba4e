//! Search and selection over remote-version listings: alias queries,
//! substring filtering, newest-patch deduplication and per-major
//! grouping for display.

use vstd::prelude::*;

use crate::model::{clone_remote, RemoteVersion, RemoteVersionView};
use crate::text::{chars_to_string, contains_seq, contains_sub, dec_digits,
    digit_char, has_prefix, starts_with, str_eq};
use crate::version::{format_version_spec, version_le, version_lt, NodeVersion};

verus! {

pub open spec fn lower_char(c: char) -> char {
    if 65 <= c as u32 && c as u32 <= 90 {
        ((c as u32 + 32) as u8) as char
    } else {
        c
    }
}

pub open spec fn lower_seq(s: Seq<char>) -> Seq<char> {
    s.map_values(|c: char| lower_char(c))
}

/// ASCII lowercasing, all the text the backends emit needs.
pub fn to_lower(s: &str) -> (r: String)
    ensures
        r@ == lower_seq(s@),
{
    let n = s.unicode_len();
    let mut out: Vec<char> = Vec::new();
    let mut i: usize = 0;
    while i < n
        invariant
            0 <= i <= n,
            n == s@.len(),
            out@.len() == i,
            forall|j: int| 0 <= j < i ==> out@[j] == lower_char(s@[j]),
        decreases n - i,
    {
        let c = s.get_char(i);
        let u = c as u32;
        if 65 <= u && u <= 90 {
            let lowered = ((u + 32) as u8) as char;
            out.push(lowered);
        } else {
            out.push(c);
        }
        i = i + 1;
    }
    proof {
        assert(out@ =~= lower_seq(s@));
    }
    chars_to_string(&out)
}

/// Whether one installed or remote entry matches a free-text query:
/// its canonical version text contains the query, or its LTS codename,
/// lowercased, contains the lowercased query.
pub open spec fn entry_matches(
    version: NodeVersion,
    lts_codename: Option<Seq<char>>,
    query: Seq<char>,
) -> bool {
    contains_seq(format_version_spec(version), query) || (match lts_codename {
        Some(c) => contains_seq(lower_seq(c), lower_seq(query)),
        None => false,
    })
}

fn remote_matches(v: &RemoteVersion, query: &str, query_lower: &String) -> (r:
    bool)
    requires
        query_lower@ == lower_seq(query@),
    ensures
        r == entry_matches(v.version, v@.lts_codename, query@),
{
    let vs = v.version.to_version_string();
    if contains_sub(vs.as_str(), query) {
        return true;
    }
    match &v.lts_codename {
        Some(c) => {
            let cl = to_lower(c.as_str());
            contains_sub(cl.as_str(), query_lower.as_str())
        },
        None => false,
    }
}

/// A group in a listing matches when the query is empty, when an `lts`
/// query finds any LTS member, or when any member matches the text.
pub open spec fn group_matches(
    members: Seq<crate::model::InstalledVersionView>,
    query: Seq<char>,
) -> bool {
    if query.len() == 0 {
        true
    } else if lower_seq(query) == "lts"@ {
        exists|i: int|
            0 <= i < members.len() && (#[trigger] members[i]).lts_codename
                is Some
    } else {
        exists|i: int|
            0 <= i < members.len() && entry_matches(
                (#[trigger] members[i]).version,
                members[i].lts_codename,
                query,
            )
    }
}

pub fn filter_group(group: &crate::model::VersionGroup, query: &str) -> (r: bool)
    ensures
        r == group_matches(group.versions.deep_view(), query@),
{
    if query.unicode_len() == 0 {
        return true;
    }
    let query_lower = to_lower(query);
    let is_lts_query = str_eq(query_lower.as_str(), "lts");
    let n = group.versions.len();
    let mut i: usize = 0;
    while i < n
        invariant
            0 <= i <= n,
            n == group.versions@.len(),
            query_lower@ == lower_seq(query@),
            is_lts_query == (lower_seq(query@) == "lts"@),
            is_lts_query ==> forall|j: int|
                0 <= j < i ==> !((#[trigger] group.versions.deep_view()[j])
                    .lts_codename is Some),
            !is_lts_query ==> forall|j: int|
                0 <= j < i ==> !entry_matches(
                    (#[trigger] group.versions.deep_view()[j]).version,
                    group.versions.deep_view()[j].lts_codename,
                    query@,
                ),
        decreases n - i,
    {
        let v = &group.versions[i];
        if is_lts_query {
            if v.lts_codename.is_some() {
                proof {
                    assert(group.versions.deep_view()[i as int].lts_codename
                        is Some);
                }
                return true;
            }
        } else {
            let vs = v.version.to_version_string();
            let matched = if contains_sub(vs.as_str(), query) {
                true
            } else {
                match &v.lts_codename {
                    Some(c) => {
                        let cl = to_lower(c.as_str());
                        contains_sub(cl.as_str(), query_lower.as_str())
                    },
                    None => false,
                }
            };
            if matched {
                proof {
                    assert(entry_matches(
                        group.versions.deep_view()[i as int].version,
                        group.versions.deep_view()[i as int].lts_codename,
                        query@,
                    ));
                }
                return true;
            }
        }
        i = i + 1;
    }
    false
}

/// One installed entry against the same matching rule.
pub fn filter_version(version: &crate::model::InstalledVersion, query: &str) -> (r:
    bool)
    ensures
        r == (if query@.len() == 0 {
            true
        } else if lower_seq(query@) == "lts"@ {
            version@.lts_codename is Some
        } else {
            entry_matches(version.version, version@.lts_codename, query@)
        }),
{
    if query.unicode_len() == 0 {
        return true;
    }
    let query_lower = to_lower(query);
    if str_eq(query_lower.as_str(), "lts") {
        return version.lts_codename.is_some();
    }
    let vs = version.version.to_version_string();
    if contains_sub(vs.as_str(), query) {
        return true;
    }
    match &version.lts_codename {
        Some(c) => {
            let cl = to_lower(c.as_str());
            contains_sub(cl.as_str(), query_lower.as_str())
        },
        None => false,
    }
}


/// Two entries on the same major/minor line.
pub open spec fn same_minor_key(a: RemoteVersionView, b: RemoteVersionView) -> bool {
    a.version.major == b.version.major && a.version.minor == b.version.minor
}

fn find_same_minor(reps: &Vec<RemoteVersion>, v: &RemoteVersion) -> (r: Option<
    usize,
>)
    ensures
        match r {
            Some(k) => k < reps@.len() && same_minor_key(
                reps.deep_view()[k as int],
                v@,
            ),
            None => forall|j: int|
                0 <= j < reps@.len() ==> !same_minor_key(
                    #[trigger] reps.deep_view()[j],
                    v@,
                ),
        },
{
    let m = reps.len();
    let mut k: usize = 0;
    while k < m
        invariant
            0 <= k <= m,
            m == reps@.len(),
            forall|j: int|
                0 <= j < k ==> !same_minor_key(
                    #[trigger] reps.deep_view()[j],
                    v@,
                ),
        decreases m - k,
    {
        if reps[k].version.major == v.version.major && reps[k].version.minor
            == v.version.minor {
            return Some(k);
        }
        k = k + 1;
    }
    None
}

/// Keeps the newest patch of every major/minor line, newest first:
/// every survivor comes from the input, carries the top patch of its
/// line, and the result is sorted descending.
pub fn filter_latest_patches(versions: &Vec<RemoteVersion>) -> (r: Vec<
    RemoteVersion,
>)
    ensures
        forall|k: int|
            0 <= k < r.deep_view().len() ==> versions.deep_view().contains(
                #[trigger] r.deep_view()[k],
            ),
        forall|i: int, j: int|
            0 <= i < j < r.deep_view().len() ==> version_le(
                r.deep_view()[j].version,
                r.deep_view()[i].version,
            ),
        forall|i: int, j: int|
            0 <= i < r.deep_view().len() && 0 <= j < versions.deep_view().len()
                && same_minor_key(
                #[trigger] r.deep_view()[i],
                #[trigger] versions.deep_view()[j],
            ) ==> versions.deep_view()[j].version.patch <= r.deep_view()[
                i
            ].version.patch,
{
    let inp = versions;
    let n = inp.len();
    let mut reps: Vec<RemoteVersion> = Vec::new();
    let mut i: usize = 0;
    while i < n
        invariant
            0 <= i <= n,
            n == inp@.len(),
            forall|k: int|
                0 <= k < reps.deep_view().len() ==> inp.deep_view().contains(
                    #[trigger] reps.deep_view()[k],
                ),
            forall|a: int, j: int|
                0 <= a < reps.deep_view().len() && 0 <= j < i && same_minor_key(
                    #[trigger] reps.deep_view()[a],
                    #[trigger] inp.deep_view()[j],
                ) ==> inp.deep_view()[j].version.patch <= reps.deep_view()[
                    a
                ].version.patch,
            forall|a: int, b: int|
                0 <= a < reps.deep_view().len() && 0 <= b < reps.deep_view().len()
                    && a != b ==> !same_minor_key(
                    #[trigger] reps.deep_view()[a],
                    #[trigger] reps.deep_view()[b],
                ),
            forall|j: int|
                0 <= j < i ==> exists|a: int|
                    0 <= a < reps.deep_view().len() && same_minor_key(
                        #[trigger] inp.deep_view()[j],
                        reps.deep_view()[a],
                    ),
        decreases n - i,
    {
        let ghost before = reps.deep_view();
        let ghost cur = inp.deep_view()[i as int];
        let v = &inp[i];
        match find_same_minor(&reps, v) {
            Some(k) => {
                let replace = v.version.patch > reps[k].version.patch;
                if replace {
                    let newv = clone_remote(v);
                    reps[k] = newv;
                    proof {
                        assert(reps.deep_view() =~= before.update(k as int, cur));
                        assert(inp.deep_view().contains(cur));
                    }
                }
                proof {
                    let now = reps.deep_view();
                    assert(same_minor_key(before[k as int], cur));
                    assert(same_minor_key(now[k as int], cur));
                    assert(cur.version.patch <= now[k as int].version.patch);
                    assert forall|a: int, j: int|
                        0 <= a < now.len() && 0 <= j < i + 1 && same_minor_key(
                            #[trigger] now[a],
                            #[trigger] inp.deep_view()[j],
                        ) implies inp.deep_view()[j].version.patch <= now[
                        a
                    ].version.patch by {
                        if a != k as int {
                            assert(now[a] == before[a]);
                        }
                        if j < i {
                            if a == k as int && replace {
                                assert(same_minor_key(before[a], inp.deep_view()[
                                    j
                                ]));
                                assert(inp.deep_view()[j].version.patch <= before[
                                    a
                                ].version.patch);
                            }
                        }
                    }
                    assert forall|a: int, b: int|
                        0 <= a < now.len() && 0 <= b < now.len() && a != b
                        implies !same_minor_key(
                        #[trigger] now[a],
                        #[trigger] now[b],
                    ) by {
                        if a != k as int {
                            assert(now[a] == before[a]);
                        }
                        if b != k as int {
                            assert(now[b] == before[b]);
                        }
                        assert(!same_minor_key(before[a], before[b]));
                    }
                    assert forall|k2: int|
                        0 <= k2 < now.len() implies inp.deep_view().contains(
                        #[trigger] now[k2],
                    ) by {
                        if k2 != k as int || !replace {
                            assert(now[k2] == before[k2]);
                            assert(inp.deep_view().contains(before[k2]));
                        }
                    }
                    assert forall|j: int| 0 <= j < i + 1 implies exists|a: int|
                        0 <= a < now.len() && same_minor_key(
                            #[trigger] inp.deep_view()[j],
                            now[a],
                        ) by {
                        if j == i {
                            assert(same_minor_key(inp.deep_view()[j], now[
                                k as int
                            ]));
                        } else {
                            let a0 = choose|a0: int|
                                0 <= a0 < before.len() && same_minor_key(
                                    inp.deep_view()[j],
                                    before[a0],
                                );
                            if a0 == k as int {
                                assert(same_minor_key(inp.deep_view()[j], now[
                                    a0
                                ]));
                            } else {
                                assert(now[a0] == before[a0]);
                            }
                        }
                    }
                }
            },
            None => {
                reps.push(clone_remote(v));
                proof {
                    let now = reps.deep_view();
                    assert(now =~= before.push(cur));
                    assert(inp.deep_view().contains(cur));
                    assert forall|a: int, j: int|
                        0 <= a < now.len() && 0 <= j < i + 1 && same_minor_key(
                            #[trigger] now[a],
                            #[trigger] inp.deep_view()[j],
                        ) implies inp.deep_view()[j].version.patch <= now[
                        a
                    ].version.patch by {
                        if a < now.len() - 1 {
                            assert(now[a] == before[a]);
                            if j == i {
                                // an older survivor on this line would have
                                // been found
                                assert(!same_minor_key(before[a], cur));
                            }
                        } else {
                            assert(now[a] == cur);
                            if j < i {
                                // this line is new: nothing before shares it
                                if same_minor_key(cur, inp.deep_view()[j]) {
                                    let b0 = choose|b0: int|
                                        0 <= b0 < before.len() && same_minor_key(
                                            inp.deep_view()[j],
                                            before[b0],
                                        );
                                    assert(same_minor_key(before[b0], cur));
                                    assert(false);
                                }
                            }
                        }
                    }
                    assert forall|a: int, b: int|
                        0 <= a < now.len() && 0 <= b < now.len() && a != b
                        implies !same_minor_key(
                        #[trigger] now[a],
                        #[trigger] now[b],
                    ) by {
                        if a == now.len() - 1 {
                            assert(now[b] == before[b]);
                            assert(!same_minor_key(before[b], cur));
                        } else if b == now.len() - 1 {
                            assert(now[a] == before[a]);
                            assert(!same_minor_key(before[a], cur));
                        } else {
                            assert(now[a] == before[a] && now[b] == before[b]);
                            assert(!same_minor_key(before[a], before[b]));
                        }
                    }
                    assert forall|j: int| 0 <= j < i + 1 implies exists|a: int|
                        0 <= a < now.len() && same_minor_key(
                            #[trigger] inp.deep_view()[j],
                            now[a],
                        ) by {
                        if j == i {
                            assert(same_minor_key(inp.deep_view()[j], now[
                                now.len() - 1
                            ]));
                        } else {
                            let a0 = choose|a0: int|
                                0 <= a0 < before.len() && same_minor_key(
                                    inp.deep_view()[j],
                                    before[a0],
                                );
                            assert(now[a0] == before[a0]);
                        }
                    }
                }
            },
        }
        i = i + 1;
    }
    // insertion sort, descending by version
    let mut out: Vec<RemoteVersion> = Vec::new();
    let mut t: usize = 0;
    let rn = reps.len();
    while t < rn
        invariant
            0 <= t <= rn,
            rn == reps@.len(),
            forall|m: int|
                0 <= m < out.deep_view().len() ==> reps.deep_view().contains(
                    #[trigger] out.deep_view()[m],
                ),
            forall|a: int, b: int|
                0 <= a < b < out.deep_view().len() ==> version_le(
                    out.deep_view()[b].version,
                    out.deep_view()[a].version,
                ),
        decreases rn - t,
    {
        let v = &reps[t];
        let mut pos: usize = 0;
        while pos < out.len() && !out[pos].version.precedes(&v.version)
            invariant
                0 <= pos <= out@.len(),
                v.version == reps.deep_view()[t as int].version,
                forall|j: int|
                    0 <= j < pos ==> !version_lt(
                        (#[trigger] out.deep_view()[j]).version,
                        reps.deep_view()[t as int].version,
                    ),
                t < rn,
                rn == reps@.len(),
            decreases out@.len() - pos,
        {
            pos = pos + 1;
        }
        let ghost before = out.deep_view();
        let ghost cur = reps.deep_view()[t as int];
        out.insert(pos, clone_remote(v));
        proof {
            let now = out.deep_view();
            assert(now =~= before.insert(pos as int, cur));
            assert(now[pos as int] == cur);
            assert(reps.deep_view().contains(cur));
            assert forall|a: int, b: int| 0 <= a < b < now.len() implies version_le(
                now[b].version,
                now[a].version,
            ) by {
                if a < pos && b == pos {
                    crate::version::lemma_version_order_total(
                        cur.version,
                        before[a].version,
                    );
                } else if a == pos && b > pos {
                    assert(now[b] == before[b - 1]);
                    assert(version_lt(before[pos as int].version, cur.version));
                    if b - 1 > pos {
                        assert(version_le(before[b - 1].version, before[
                            pos as int
                        ].version));
                    }
                } else if a < pos && b > pos {
                    assert(now[a] == before[a] && now[b] == before[b - 1]);
                } else if a > pos {
                    assert(now[a] == before[a - 1] && now[b] == before[b - 1]);
                } else {
                    assert(now[a] == before[a] && now[b] == before[b]);
                }
            }
            assert forall|m: int| 0 <= m < now.len() implies reps.deep_view()
                .contains(#[trigger] now[m]) by {
                if m < pos {
                    assert(now[m] == before[m]);
                } else if m > pos {
                    assert(now[m] == before[m - 1]);
                }
            }
        }
        t = t + 1;
    }
    proof {
        assert forall|m: int| 0 <= m < out.deep_view().len()
            implies versions.deep_view().contains(
            #[trigger] out.deep_view()[m],
        ) by {
            let k0 = choose|k0: int|
                0 <= k0 < reps.deep_view().len() && reps.deep_view()[k0] == out
                    .deep_view()[m];
            assert(inp.deep_view().contains(reps.deep_view()[k0]));
        }
        assert forall|a: int, j: int|
            0 <= a < out.deep_view().len() && 0 <= j < versions.deep_view().len()
                && same_minor_key(
                #[trigger] out.deep_view()[a],
                #[trigger] versions.deep_view()[j],
            ) implies versions.deep_view()[j].version.patch <= out.deep_view()[
            a
        ].version.patch by {
            let k0 = choose|k0: int|
                0 <= k0 < reps.deep_view().len() && reps.deep_view()[k0] == out
                    .deep_view()[a];
        }
    }
    out
}

/// The maximal entry of those admitted by an alias query: `latest`,
/// `stable` and `current` admit everything, `lts/*` admits LTS
/// entries, and `lts/<name>` admits the named LTS line; any other
/// query is no alias at all.
pub open spec fn alias_admits(
    entry: RemoteVersionView,
    query_lower: Seq<char>,
) -> Option<bool> {
    if query_lower == "latest"@ || query_lower == "stable"@ || query_lower
        == "current"@ {
        Some(true)
    } else if query_lower == "lts/*"@ {
        Some(entry.lts_codename is Some)
    } else if has_prefix(query_lower, "lts/"@) {
        Some(
            match entry.lts_codename {
                Some(c) => lower_seq(c) == query_lower.skip(4),
                None => false,
            },
        )
    } else {
        None
    }
}

fn alias_admits_exec(v: &RemoteVersion, query_lower: &String) -> (r: Option<
    bool,
>)
    ensures
        r == alias_admits(v@, query_lower@),
{
    let q = query_lower.as_str();
    if str_eq(q, "latest") || str_eq(q, "stable") || str_eq(q, "current") {
        Some(true)
    } else if str_eq(q, "lts/*") {
        Some(v.lts_codename.is_some())
    } else if starts_with(q, "lts/") {
        proof {
            reveal_strlit("lts/");
        }
        let rest = q.substring_char(4, q.unicode_len());
        proof {
            assert(rest@ =~= query_lower@.skip(4));
        }
        match &v.lts_codename {
            Some(c) => {
                let cl = to_lower(c.as_str());
                Some(str_eq(cl.as_str(), rest))
            },
            None => Some(false),
        }
    } else {
        None
    }
}

/// Resolves an alias query to the newest admitted entry: `None` when
/// the query is no alias or nothing is admitted; otherwise an admitted
/// entry at least as new as every other admitted entry.
pub fn resolve_alias(versions: &Vec<RemoteVersion>, query: &str) -> (r: Option<
    RemoteVersion,
>)
    ensures
        match r {
            Some(v) => {
                &&& versions.deep_view().contains(v@)
                &&& alias_admits(v@, lower_seq(query@)) == Some(true)
                &&& forall|j: int|
                    0 <= j < versions.deep_view().len() && alias_admits(
                        #[trigger] versions.deep_view()[j],
                        lower_seq(query@),
                    ) == Some(true) ==> version_le(
                        versions.deep_view()[j].version,
                        v@.version,
                    )
            },
            None => forall|j: int|
                0 <= j < versions.deep_view().len() ==> alias_admits(
                    #[trigger] versions.deep_view()[j],
                    lower_seq(query@),
                ) != Some(true),
        },
{
    let query_lower = to_lower(query);
    let n = versions.len();
    let mut best: Option<RemoteVersion> = None;
    let mut i: usize = 0;
    while i < n
        invariant
            0 <= i <= n,
            n == versions@.len(),
            query_lower@ == lower_seq(query@),
            match best {
                Some(b) => {
                    &&& versions.deep_view().contains(b@)
                    &&& alias_admits(b@, lower_seq(query@)) == Some(true)
                    &&& forall|j: int|
                        0 <= j < i && alias_admits(
                            #[trigger] versions.deep_view()[j],
                            lower_seq(query@),
                        ) == Some(true) ==> version_le(
                            versions.deep_view()[j].version,
                            b@.version,
                        )
                },
                None => forall|j: int|
                    0 <= j < i ==> alias_admits(
                        #[trigger] versions.deep_view()[j],
                        lower_seq(query@),
                    ) != Some(true),
            },
        decreases n - i,
    {
        let v = &versions[i];
        let admitted = match alias_admits_exec(v, &query_lower) {
            Some(a) => a,
            None => false,
        };
        if admitted {
            let take_it = match &best {
                Some(b) => !v.version.precedes(&b.version),
                None => true,
            };
            if take_it {
                proof {
                    assert(versions.deep_view().contains(versions.deep_view()[
                        i as int
                    ]));
                    if best is Some {
                        crate::version::lemma_version_order_total(
                            versions.deep_view()[i as int].version,
                            best->Some_0@.version,
                        );
                    }
                }
                best = Some(clone_remote(v));
            }
        }
        i = i + 1;
    }
    best
}

/// One decimal of the rounded ratio, as binary sizes are shown.
pub open spec fn tenths_of(bytes: nat, unit: nat) -> nat
    recommends
        unit > 0,
{
    ((bytes * 10 + unit / 2) / unit) as nat
}

/// The displayed size: gigabytes, megabytes or kilobytes to one
/// decimal, rounded half up, and bare bytes below one kilobyte.
pub open spec fn format_bytes_spec(bytes: nat) -> Seq<char> {
    let kb: nat = 1024;
    let mb: nat = 1024 * 1024;
    let gb: nat = 1024 * 1024 * 1024;
    if bytes >= gb {
        dec_digits(tenths_of(bytes, gb) / 10) + seq!['.'] + seq![
            digit_char(tenths_of(bytes, gb) % 10),
        ] + " GB"@
    } else if bytes >= mb {
        dec_digits(tenths_of(bytes, mb) / 10) + seq!['.'] + seq![
            digit_char(tenths_of(bytes, mb) % 10),
        ] + " MB"@
    } else if bytes >= kb {
        dec_digits(tenths_of(bytes, kb) / 10) + seq!['.'] + seq![
            digit_char(tenths_of(bytes, kb) % 10),
        ] + " KB"@
    } else {
        dec_digits(bytes) + " B"@
    }
}

/// Renders a byte count for display, exactly as `format_bytes_spec`.
pub fn format_bytes(bytes: u64) -> (r: String)
    ensures
        r@ == format_bytes_spec(bytes as nat),
{
    let kb: u64 = 1024;
    let mb: u64 = 1024 * 1024;
    let gb: u64 = 1024 * 1024 * 1024;
    if bytes >= gb {
        format_tenths(bytes, gb, " GB")
    } else if bytes >= mb {
        format_tenths(bytes, mb, " MB")
    } else if bytes >= kb {
        format_tenths(bytes, kb, " KB")
    } else {
        let mut s = u64_to_string_local(bytes);
        s.append(" B");
        s
    }
}

fn format_tenths(bytes: u64, unit: u64, suffix: &str) -> (r: String)
    requires
        1024 <= unit <= 1024 * 1024 * 1024,
    ensures
        r@ == dec_digits(tenths_of(bytes as nat, unit as nat) / 10) + seq!['.']
            + seq![digit_char(tenths_of(bytes as nat, unit as nat) % 10)]
            + suffix@,
{
    let wide: u128 = (bytes as u128) * 10 + ((unit / 2) as u128);
    let tenths_wide: u128 = wide / (unit as u128);
    proof {
        assert(wide as int == bytes as int * 10 + unit as int / 2);
        assert(tenths_wide as int == wide as int / unit as int);
        assert(tenths_wide as nat == tenths_of(bytes as nat, unit as nat));
        vstd::arithmetic::div_mod::lemma_div_is_ordered_by_denominator(
            wide as int,
            1024,
            unit as int,
        );
        assert(tenths_wide <= wide / 1024);
        assert(wide <= u64::MAX as u128 * 10 + 1024 * 1024 * 1024 / 2);
    }
    let whole: u128 = tenths_wide / 10;
    let frac: u128 = tenths_wide % 10;
    proof {
        assert(whole <= u64::MAX as u128);
        assert(frac < 10);
    }
    let mut s = u64_to_string_local((whole as u64));
    let frac_char = digit_to_char_local((frac as u32));
    let mut tail: Vec<char> = Vec::new();
    tail.push('.');
    tail.push(frac_char);
    let tail_s = chars_to_string(&tail);
    s.append(tail_s.as_str());
    s.append(suffix);
    proof {
        assert(tail@ =~= seq!['.', digit_char(frac as nat)]);
        assert(s@ =~= dec_digits(tenths_of(bytes as nat, unit as nat) / 10)
            + seq!['.'] + seq![digit_char(tenths_of(bytes as nat, unit as nat)
            % 10)] + suffix@);
    }
    s
}

fn u64_to_string_local(n: u64) -> (s: String)
    ensures
        s@ == dec_digits(n as nat),
{
    let mut v: Vec<char> = Vec::new();
    push_dec_digits_u64(n, &mut v);
    proof {
        assert(Seq::<char>::empty() + dec_digits(n as nat) =~= dec_digits(
            n as nat,
        ));
    }
    chars_to_string(&v)
}

fn push_dec_digits_u64(n: u64, out: &mut Vec<char>)
    ensures
        final(out)@ == old(out)@ + dec_digits(n as nat),
    decreases n,
{
    if n < 10 {
        out.push(digit_to_char_local(n as u32));
        proof {
            assert(out@ =~= old(out)@ + dec_digits(n as nat));
        }
    } else {
        push_dec_digits_u64(n / 10, out);
        out.push(digit_to_char_local((n % 10) as u32));
        proof {
            assert(out@ =~= old(out)@ + dec_digits(n as nat));
        }
    }
}

fn digit_to_char_local(d: u32) -> (c: char)
    requires
        d < 10,
    ensures
        c == digit_char(d as nat),
{
    match d {
        0 => '0',
        1 => '1',
        2 => '2',
        3 => '3',
        4 => '4',
        5 => '5',
        6 => '6',
        7 => '7',
        8 => '8',
        _ => '9',
    }
}


/// A strictly newer entry of the same major line exists in the input.
pub open spec fn major_bettered(
    inp: Seq<RemoteVersionView>,
    e: RemoteVersionView,
) -> bool {
    exists|j: int|
        0 <= j < inp.len() && (#[trigger] inp[j]).version.major == e.version.major
            && version_lt(e.version, inp[j].version)
}

/// The newest entry per major line, newest majors first, at most
/// `cap`: each from the input, on pairwise distinct majors in strictly
/// descending order, and none bettered by a newer entry of its line.
pub fn latest_per_major(versions: &Vec<RemoteVersion>, cap: usize) -> (r: Vec<
    RemoteVersion,
>)
    ensures
        r@.len() <= cap,
        forall|k: int|
            0 <= k < r.deep_view().len() ==> versions.deep_view().contains(
                #[trigger] r.deep_view()[k],
            ),
        forall|a: int, b: int|
            0 <= a < b < r.deep_view().len() ==> r.deep_view()[a].version.major
                > r.deep_view()[b].version.major,
        forall|k: int|
            0 <= k < r.deep_view().len() ==> !major_bettered(
                versions.deep_view(),
                #[trigger] r.deep_view()[k],
            ),
{
    let n = versions.len();
    let mut best: Vec<RemoteVersion> = Vec::new();
    let mut i: usize = 0;
    // one running maximum per major line
    while i < n
        invariant
            0 <= i <= n,
            n == versions@.len(),
            forall|k: int|
                0 <= k < best.deep_view().len() ==> versions.deep_view().contains(
                    #[trigger] best.deep_view()[k],
                ),
            forall|a: int, b: int|
                0 <= a < best.deep_view().len() && 0 <= b < best.deep_view().len()
                    && a != b ==> (#[trigger] best.deep_view()[a]).version.major
                    != (#[trigger] best.deep_view()[b]).version.major,
            forall|k: int, j: int|
                0 <= k < best.deep_view().len() && 0 <= j < i
                    && (#[trigger] versions.deep_view()[j]).version.major
                    == (#[trigger] best.deep_view()[k]).version.major
                    ==> !version_lt(
                    best.deep_view()[k].version,
                    versions.deep_view()[j].version,
                ),
            forall|j: int|
                0 <= j < i ==> exists|k: int|
                    0 <= k < best.deep_view().len() && (#[trigger] versions
                        .deep_view()[j]).version.major == best.deep_view()[
                        k
                    ].version.major,
        decreases n - i,
    {
        let ghost before = best.deep_view();
        let ghost cur = versions.deep_view()[i as int];
        let v = &versions[i];
        let m = best.len();
        let mut k: usize = 0;
        let mut slot: Option<usize> = None;
        while k < m
            invariant
                0 <= k <= m,
                m == best@.len(),
                v.version == versions.deep_view()[i as int].version,
                slot matches Some(p) ==> p < m && best.deep_view()[
                    p as int
                ].version.major == versions.deep_view()[i as int].version.major,
                slot is None ==> forall|j: int|
                    0 <= j < k ==> (#[trigger] best.deep_view()[j]).version.major
                        != versions.deep_view()[i as int].version.major,
                i < n,
                n == versions@.len(),
            decreases m - k,
        {
            if best[k].version.major == v.version.major {
                slot = Some(k);
                k = m;
            } else {
                k = k + 1;
            }
        }
        match slot {
            Some(p) => {
                if best[p].version.precedes(&v.version) {
                    best[p] = clone_remote(v);
                    proof {
                        assert(best.deep_view() =~= before.update(p as int, cur));
                    }
                }
                proof {
                    let now = best.deep_view();
                    assert(now[p as int].version.major == cur.version.major);
                    assert forall|a2: int, b2: int|
                        0 <= a2 < now.len() && 0 <= b2 < now.len() && a2 != b2
                        implies (#[trigger] now[a2]).version.major
                        != (#[trigger] now[b2]).version.major by {
                        if a2 != p as int {
                            assert(now[a2] == before[a2]);
                        }
                        if b2 != p as int {
                            assert(now[b2] == before[b2]);
                        }
                    }
                    assert forall|k2: int, j: int|
                        0 <= k2 < now.len() && 0 <= j < i + 1
                            && (#[trigger] versions.deep_view()[j]).version.major
                            == (#[trigger] now[k2]).version.major
                        implies !version_lt(
                        now[k2].version,
                        versions.deep_view()[j].version,
                    ) by {
                        if k2 != p as int {
                            assert(now[k2] == before[k2]);
                        } else {
                            if !version_lt(before[p as int].version, cur.version) {
                                assert(now[k2] == before[k2]);
                            }
                            crate::version::lemma_version_order_total(
                                now[k2].version,
                                cur.version,
                            );
                        }
                    }
                    assert forall|j: int| 0 <= j < i + 1 implies exists|k2: int|
                        0 <= k2 < now.len() && (#[trigger] versions.deep_view()[
                            j
                        ]).version.major == now[k2].version.major by {
                        if j == i {
                            assert(now[p as int].version.major == versions
                                .deep_view()[j].version.major);
                        } else {
                            let k0 = choose|k0: int|
                                0 <= k0 < before.len() && versions.deep_view()[
                                    j
                                ].version.major == before[k0].version.major;
                            assert(now[k0].version.major == before[
                                k0
                            ].version.major);
                        }
                    }
                    assert forall|k2: int|
                        0 <= k2 < now.len() implies versions.deep_view().contains(
                        #[trigger] now[k2],
                    ) by {
                        if now[k2] == cur {
                            assert(versions.deep_view()[i as int] == now[k2]);
                        } else {
                            assert(now[k2] == before[k2]);
                        }
                    }
                }
            },
            None => {
                best.push(clone_remote(v));
                proof {
                    let now = best.deep_view();
                    assert(now =~= before.push(cur));
                    assert(versions.deep_view()[i as int] == now[now.len() - 1]);
                    assert forall|j: int| 0 <= j < i + 1 implies exists|k2: int|
                        0 <= k2 < now.len() && (#[trigger] versions.deep_view()[
                            j
                        ]).version.major == now[k2].version.major by {
                        if j == i {
                            assert(now[now.len() - 1].version.major == versions
                                .deep_view()[j].version.major);
                        } else {
                            let k0 = choose|k0: int|
                                0 <= k0 < before.len() && versions.deep_view()[
                                    j
                                ].version.major == before[k0].version.major;
                            assert(now[k0].version.major == before[
                                k0
                            ].version.major);
                        }
                    }
                }
            },
        }
        i = i + 1;
    }
    // arrange by major, newest first; majors are pairwise distinct
    let mut out: Vec<RemoteVersion> = Vec::new();
    let mut t: usize = 0;
    let bn = best.len();
    while t < bn
        invariant
            0 <= t <= bn,
            bn == best@.len(),
            out.deep_view().len() == t,
            forall|a2: int, b2: int|
                0 <= a2 < best.deep_view().len() && 0 <= b2 < best.deep_view()
                    .len() && a2 != b2 ==> (#[trigger] best.deep_view()[
                    a2
                ]).version.major != (#[trigger] best.deep_view()[
                    b2
                ]).version.major,
            forall|m: int|
                0 <= m < out.deep_view().len() ==> exists|k2: int|
                    0 <= k2 < t && #[trigger] out.deep_view()[m] == best
                        .deep_view()[k2],
            forall|a2: int, b2: int|
                0 <= a2 < b2 < out.deep_view().len() ==> (#[trigger] out
                    .deep_view()[a2]).version.major > (#[trigger] out.deep_view()[
                    b2
                ]).version.major,
        decreases bn - t,
    {
        let v = &best[t];
        let mut pos: usize = 0;
        while pos < out.len() && out[pos].version.major > v.version.major
            invariant
                0 <= pos <= out@.len(),
                v.version.major == best.deep_view()[t as int].version.major,
                t < bn,
                bn == best@.len(),
                forall|j: int|
                    0 <= j < pos ==> (#[trigger] out.deep_view()[j]).version.major
                        > best.deep_view()[t as int].version.major,
            decreases out@.len() - pos,
        {
            pos = pos + 1;
        }
        let ghost before = out.deep_view();
        let ghost cur = best.deep_view()[t as int];
        out.insert(pos, clone_remote(v));
        proof {
            let now = out.deep_view();
            assert(now =~= before.insert(pos as int, cur));
            assert(now[pos as int] == cur);
            assert forall|m: int| 0 <= m < now.len() implies exists|k2: int|
                0 <= k2 < t + 1 && #[trigger] now[m] == best.deep_view()[k2] by {
                if m == pos {
                    assert(now[m] == best.deep_view()[t as int]);
                } else if m < pos {
                    assert(now[m] == before[m]);
                } else {
                    assert(now[m] == before[m - 1]);
                }
            }
            assert forall|a2: int, b2: int|
                0 <= a2 < b2 < now.len() implies (#[trigger] now[
                a2
            ]).version.major > (#[trigger] now[b2]).version.major by {
                if b2 == pos && a2 < pos {
                    assert(before[a2].version.major > cur.version.major);
                } else if a2 == pos && b2 > pos {
                    assert(now[b2] == before[b2 - 1]);
                    let k0 = choose|k0: int|
                        0 <= k0 < t && before[b2 - 1] == best.deep_view()[k0];
                    if b2 - 1 == pos as int {
                        assert(!(before[pos as int].version.major
                            > cur.version.major));
                        assert(before[pos as int].version.major
                            != cur.version.major);
                    } else {
                        assert(!(before[pos as int].version.major
                            > cur.version.major));
                        assert(before[b2 - 1].version.major < before[
                            pos as int
                        ].version.major || before[b2 - 1].version.major == before[
                            pos as int
                        ].version.major);
                        assert(before[b2 - 1].version.major
                            != cur.version.major);
                    }
                } else if a2 < pos && b2 > pos {
                    assert(now[a2] == before[a2] && now[b2] == before[b2 - 1]);
                } else if a2 > pos {
                    assert(now[a2] == before[a2 - 1] && now[b2] == before[b2 - 1]);
                } else {
                    assert(now[a2] == before[a2] && now[b2] == before[b2]);
                }
            }
        }
        t = t + 1;
    }
    let ghost pre = out.deep_view();
    out.truncate(cap);
    proof {
        let fin = out.deep_view();
        assert(forall|k: int| 0 <= k < fin.len() ==> #[trigger] fin[k] == pre[k]);
        assert forall|k: int| 0 <= k < fin.len() implies versions.deep_view()
            .contains(#[trigger] fin[k]) by {
            assert(pre[k] == fin[k]);
            let k0 = choose|k0: int|
                0 <= k0 < bn && #[trigger] pre[k] == best.deep_view()[k0];
            assert(versions.deep_view().contains(best.deep_view()[k0]));
        }
        assert forall|k: int| 0 <= k < fin.len() implies !major_bettered(
            versions.deep_view(),
            #[trigger] fin[k],
        ) by {
            assert(pre[k] == fin[k]);
            let k0 = choose|k0: int|
                0 <= k0 < bn && #[trigger] pre[k] == best.deep_view()[k0];
            if major_bettered(versions.deep_view(), fin[k]) {
                let j = choose|j: int|
                    0 <= j < versions.deep_view().len() && (#[trigger] versions
                        .deep_view()[j]).version.major == fin[k].version.major
                        && version_lt(fin[k].version, versions.deep_view()[
                        j
                    ].version);
                assert(!version_lt(
                    best.deep_view()[k0].version,
                    versions.deep_view()[j].version,
                ));
            }
        }
    }
    out
}


/// The eight newest major lines, one entry each.
pub fn get_recommended_versions(versions: &Vec<RemoteVersion>) -> (r: Vec<
    RemoteVersion,
>)
    ensures
        r@.len() <= 8,
        forall|k: int|
            0 <= k < r.deep_view().len() ==> versions.deep_view().contains(
                #[trigger] r.deep_view()[k],
            ),
        forall|a: int, b: int|
            0 <= a < b < r.deep_view().len() ==> r.deep_view()[a].version.major
                > r.deep_view()[b].version.major,
        forall|k: int|
            0 <= k < r.deep_view().len() ==> !major_bettered(
                versions.deep_view(),
                #[trigger] r.deep_view()[k],
            ),
{
    latest_per_major(versions, 8)
}

/// An alias query resolves to a single entry.
pub open spec fn is_alias_query(query_lower: Seq<char>) -> bool {
    ||| query_lower == "latest"@
    ||| query_lower == "stable"@
    ||| query_lower == "current"@
    ||| query_lower == "lts/*"@
    ||| has_prefix(query_lower, "lts/"@)
}

/// What the available-versions search shows for a query: an alias
/// resolves to its single target; `lts` shows the newest entry of each
/// LTS major line; any other text shows the newest patch of every
/// matching line; at most twenty entries, all from the input.
pub fn filter_available_versions(versions: &Vec<RemoteVersion>, query: &str) -> (r:
    Vec<RemoteVersion>)
    ensures
        r@.len() <= 20,
        forall|k: int|
            0 <= k < r.deep_view().len() ==> versions.deep_view().contains(
                #[trigger] r.deep_view()[k],
            ),
        is_alias_query(lower_seq(query@)) ==> r@.len() <= 1 && (forall|k: int|
            0 <= k < r.deep_view().len() ==> alias_admits(
                #[trigger] r.deep_view()[k],
                lower_seq(query@),
            ) == Some(true)),
        !is_alias_query(lower_seq(query@)) && lower_seq(query@) == "lts"@
            ==> forall|k: int|
            0 <= k < r.deep_view().len() ==> (#[trigger] r.deep_view()[
                k
            ]).lts_codename is Some,
        !is_alias_query(lower_seq(query@)) && lower_seq(query@) != "lts"@
            ==> forall|k: int|
            0 <= k < r.deep_view().len() ==> entry_matches(
                (#[trigger] r.deep_view()[k]).version,
                r.deep_view()[k].lts_codename,
                query@,
            ),
{
    let query_lower = to_lower(query);
    let q = query_lower.as_str();
    let ghost ql = lower_seq(query@);
    let alias = str_eq(q, "latest") || str_eq(q, "stable") || str_eq(q, "current")
        || str_eq(q, "lts/*") || starts_with(q, "lts/");
    if alias {
        let mut out: Vec<RemoteVersion> = Vec::new();
        match resolve_alias(versions, query) {
            Some(v) => {
                let ghost vv = v@;
                out.push(v);
                proof {
                    assert(out.deep_view() =~= seq![vv]);
                }
            },
            None => {},
        }
        return out;
    }
    if str_eq(q, "lts") {
        let n = versions.len();
        let mut candidates: Vec<RemoteVersion> = Vec::new();
        let mut i: usize = 0;
        while i < n
            invariant
                0 <= i <= n,
                n == versions@.len(),
                forall|k: int|
                    0 <= k < candidates.deep_view().len() ==> versions.deep_view()
                        .contains(#[trigger] candidates.deep_view()[k])
                        && candidates.deep_view()[k].lts_codename is Some,
            decreases n - i,
        {
            if versions[i].lts_codename.is_some() {
                let ghost before = candidates.deep_view();
                candidates.push(clone_remote(&versions[i]));
                proof {
                    assert(candidates.deep_view() =~= before.push(
                        versions.deep_view()[i as int],
                    ));
                    assert(versions.deep_view().contains(versions.deep_view()[
                        i as int
                    ]));
                }
            }
            i = i + 1;
        }
        let result = latest_per_major(&candidates, 20);
        proof {
            assert forall|k: int|
                0 <= k < result.deep_view().len() implies versions.deep_view()
                .contains(#[trigger] result.deep_view()[k]) && result.deep_view()[
                k
            ].lts_codename is Some by {
                let c = candidates.deep_view();
                assert(c.contains(result.deep_view()[k]));
                let k0 = choose|k0: int|
                    0 <= k0 < c.len() && c[k0] == result.deep_view()[k];
            }
        }
        return result;
    }
    let n = versions.len();
    let mut candidates: Vec<RemoteVersion> = Vec::new();
    let mut i: usize = 0;
    while i < n
        invariant
            0 <= i <= n,
            n == versions@.len(),
            query_lower@ == lower_seq(query@),
            forall|k: int|
                0 <= k < candidates.deep_view().len() ==> versions.deep_view()
                    .contains(#[trigger] candidates.deep_view()[k])
                    && entry_matches(
                    candidates.deep_view()[k].version,
                    candidates.deep_view()[k].lts_codename,
                    query@,
                ),
        decreases n - i,
    {
        if remote_matches(&versions[i], query, &query_lower) {
            let ghost before = candidates.deep_view();
            candidates.push(clone_remote(&versions[i]));
            proof {
                assert(candidates.deep_view() =~= before.push(
                    versions.deep_view()[i as int],
                ));
                assert(versions.deep_view().contains(versions.deep_view()[
                    i as int
                ]));
            }
        }
        i = i + 1;
    }
    let mut result = filter_latest_patches(&candidates);
    let ghost pre = result.deep_view();
    result.truncate(20);
    proof {
        assert(forall|k: int|
            0 <= k < result.deep_view().len() ==> #[trigger] result.deep_view()[
                k
            ] == pre[k]);
        assert forall|k: int|
            0 <= k < result.deep_view().len() implies versions.deep_view()
            .contains(#[trigger] result.deep_view()[k]) && entry_matches(
            result.deep_view()[k].version,
            result.deep_view()[k].lts_codename,
            query@,
        ) by {
            let c = candidates.deep_view();
            assert(c.contains(pre[k]));
            let k0 = choose|k0: int|
                0 <= k0 < c.len() && c[k0] == pre[k];
        }
    }
    result
}

} // verus!