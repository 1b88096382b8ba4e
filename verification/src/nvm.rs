//! Parsers for the list output of an nvm-style backend, whose Unix and
//! Windows variants render completely different text: alias arrows and
//! ANSI colour on Unix, star markers and a fixed-width table on Windows.
//! All of them are best-effort: unrecognizable lines are skipped.

use vstd::prelude::*;

use crate::model::{InstalledVersion, InstalledVersionView, RemoteVersion,
    RemoteVersionView};
use crate::text::{chars_to_string, contains_seq, contains_sub,
    digits_dots_prefix_len, find_char, find_char_spec, find_sub, find_sub_spec,
    has_prefix, lines_spec, split_lines, split_ws,
    split_ws_spec, starts_with, strip_leading, strip_leading_spec,
    strip_prefix_rep, strip_prefix_rep_spec, strip_trailing, strip_trailing_spec,
    take_digits_dots, trim_spec, trim_str};
use crate::version::{parse_version, parse_version_spec, NodeVersion};

verus! {

// ---------------------------------------------------------------------------
// ANSI escape stripping
// ---------------------------------------------------------------------------

pub open spec fn is_ascii_alpha_char(c: char) -> bool {
    (65 <= c as u32 && c as u32 <= 90) || (97 <= c as u32 && c as u32 <= 122)
}

fn is_ascii_alpha(c: char) -> (r: bool)
    ensures
        r == is_ascii_alpha_char(c),
{
    let u = c as u32;
    (65 <= u && u <= 90) || (97 <= u && u <= 122)
}

/// Characters a CSI sequence swallows: everything up to and including
/// the first ASCII letter, or all of the rest.
pub open spec fn csi_skip_len(s: Seq<char>) -> nat
    decreases s.len(),
{
    if s.len() == 0 {
        0
    } else if is_ascii_alpha_char(s[0]) {
        1
    } else {
        (1 + csi_skip_len(s.drop_first())) as nat
    }
}

proof fn lemma_csi_skip_len_le(s: Seq<char>)
    ensures
        csi_skip_len(s) <= s.len(),
    decreases s.len(),
{
    if s.len() > 0 && !is_ascii_alpha_char(s[0]) {
        lemma_csi_skip_len_le(s.drop_first());
    }
}

proof fn lemma_csi_skip_len_is(s: Seq<char>, k: int)
    requires
        0 <= k <= s.len(),
        forall|j: int| 0 <= j < k ==> !is_ascii_alpha_char(s[j]),
        k == s.len() || is_ascii_alpha_char(s[k]),
    ensures
        k == s.len() ==> csi_skip_len(s) == k,
        k < s.len() ==> csi_skip_len(s) == k + 1,
    decreases k,
{
    if k > 0 {
        lemma_csi_skip_len_is(s.drop_first(), k - 1);
    }
}

/// What survives ANSI stripping: an escape followed by `[` swallows the
/// whole CSI sequence; an escape followed by anything else swallows
/// that character too; everything else stays.
pub open spec fn strip_ansi_spec(s: Seq<char>) -> Seq<char>
    decreases s.len(),
    via strip_ansi_spec_decreases
{
    if s.len() == 0 {
        Seq::empty()
    } else if s[0] == '\u{1b}' {
        if s.len() == 1 {
            Seq::empty()
        } else if s[1] == '[' {
            let rest = s.skip(2);
            strip_ansi_spec(rest.skip(csi_skip_len(rest) as int))
        } else {
            strip_ansi_spec(s.skip(2))
        }
    } else {
        seq![s[0]] + strip_ansi_spec(s.drop_first())
    }
}

#[via_fn]
proof fn strip_ansi_spec_decreases(s: Seq<char>) {
    if s.len() > 0 && s[0] == '\u{1b}' && s.len() > 1 && s[1] == '[' {
        lemma_csi_skip_len_le(s.skip(2));
    }
}

fn strip_ansi(s: &str) -> (r: String)
    ensures
        r@ == strip_ansi_spec(s@),
{
    let n = s.unicode_len();
    let mut out: Vec<char> = Vec::new();
    let mut i: usize = 0;
    proof {
        assert(s@.skip(0) =~= s@);
        assert(out@ + strip_ansi_spec(s@) =~= strip_ansi_spec(s@));
    }
    while i < n
        invariant
            0 <= i <= n,
            n == s@.len(),
            strip_ansi_spec(s@) == out@ + strip_ansi_spec(s@.skip(i as int)),
        decreases n - i,
    {
        let ghost rem = s@.skip(i as int);
        let c = s.get_char(i);
        proof {
            assert(rem[0] == s@[i as int]);
        }
        if c == '\u{1b}' {
            if i + 1 == n {
                proof {
                    assert(rem.len() == 1);
                    assert(out@ + Seq::<char>::empty() =~= out@);
                    assert(s@.skip(n as int) =~= Seq::<char>::empty());
                }
                i = n;
            } else if s.get_char(i + 1) == '[' {
                proof {
                    assert(rem[1] == s@[i + 1]);
                }
                let mut j = i + 2;
                while j < n && !is_ascii_alpha(s.get_char(j))
                    invariant
                        i + 2 <= j <= n,
                        n == s@.len(),
                        forall|t: int|
                            i + 2 <= t < j ==> !is_ascii_alpha_char(s@[t]),
                    decreases n - j,
                {
                    j = j + 1;
                }
                proof {
                    let tail = s@.skip(i + 2);
                    assert(forall|t: int|
                        0 <= t < tail.len() ==> tail[t] == s@[i + 2 + t]);
                    lemma_csi_skip_len_is(tail, j - (i + 2));
                    assert(rem.skip(2) =~= tail);
                    if j < n {
                        assert(tail.skip(j - (i + 2) + 1) =~= s@.skip(j + 1));
                    } else {
                        assert(tail.skip(j - (i + 2)) =~= s@.skip(n as int));
                    }
                }
                if j < n {
                    i = j + 1;
                } else {
                    i = n;
                }
            } else {
                proof {
                    assert(rem[1] == s@[i + 1]);
                    assert(rem.skip(2) =~= s@.skip(i + 2));
                }
                i = i + 2;
            }
        } else {
            let ghost before = out@;
            out.push(c);
            proof {
                assert(rem.drop_first() =~= s@.skip(i + 1));
                assert(out@ =~= before.push(c));
                assert(before.push(c) + strip_ansi_spec(s@.skip(i + 1)) =~= before
                    + (seq![rem[0]] + strip_ansi_spec(rem.drop_first())));
            }
            i = i + 1;
        }
    }
    proof {
        assert(s@.skip(n as int) =~= Seq::<char>::empty());
        assert(out@ + Seq::<char>::empty() =~= out@);
    }
    chars_to_string(&out)
}

/// Strips ANSI colour sequences off raw backend output.
pub fn clean_output(output: &str) -> (r: String)
    ensures
        r@ == strip_ansi_spec(output@),
{
    strip_ansi(output)
}

// ---------------------------------------------------------------------------
// Unix installed listing
// ---------------------------------------------------------------------------

/// A `default -> ...` alias line resolves the default version: the
/// concrete version is behind `(-> `, or failing that behind `-> `,
/// read as digits and dots after any `v`.
pub open spec fn nvm_default_line_spec(line: Seq<char>) -> Option<NodeVersion> {
    let t = trim_spec(line);
    if has_prefix(t, "default"@) && find_sub_spec(t, "-> "@) is Some {
        let resolved = match find_sub_spec(t, "(-> "@) {
            Some(p) => strip_trailing_spec(t.skip(p + 4), ')'),
            None => t.skip(find_sub_spec(t, "-> "@)->0 + 3),
        };
        let u = strip_leading_spec(trim_spec(resolved), 'v');
        parse_version_spec(u.take(digits_dots_prefix_len(u) as int))
    } else {
        None
    }
}

/// The default alias named by the listing: the last resolving line wins.
pub open spec fn nvm_default_spec(lines: Seq<Seq<char>>) -> Option<NodeVersion>
    decreases lines.len(),
{
    if lines.len() == 0 {
        None
    } else {
        match nvm_default_line_spec(lines.last()) {
            Some(v) => Some(v),
            None => nvm_default_spec(lines.drop_last()),
        }
    }
}

fn nvm_default_line(line: &String) -> (r: Option<NodeVersion>)
    ensures
        r == nvm_default_line_spec(line@),
{
    let t = trim_str(line.as_str());
    let n = t.unicode_len();
    if !starts_with(t, "default") {
        return None;
    }
    let arrow = match find_sub(t, "-> ") {
        Some(p) => p,
        None => {
            return None;
        },
    };
    let resolved = match find_sub(t, "(-> ") {
        Some(p) => {
            proof {
                reveal_strlit("(-> ");
            }
            let tail = t.substring_char(p + 4, n);
            proof {
                assert(tail@ =~= t@.skip(p + 4));
            }
            strip_trailing(tail, ')')
        },
        None => {
            proof {
                reveal_strlit("-> ");
            }
            let tail = t.substring_char(arrow + 3, n);
            proof {
                assert(tail@ =~= t@.skip(arrow + 3));
            }
            tail
        },
    };
    let u = strip_leading(trim_str(resolved), 'v');
    let vs = take_digits_dots(u);
    match parse_version(vs) {
        Ok(v) => Some(v),
        Err(_) => None,
    }
}

/// An ordinary listing line: alias lines are skipped; a current-version
/// arrow is stripped; the version is the first token after any leading
/// `v`s; the entry is the default when it matches the resolved alias.
pub open spec fn nvm_installed_line_spec(
    line: Seq<char>,
    dflt: Option<NodeVersion>,
) -> Option<InstalledVersionView> {
    let t = trim_spec(line);
    if has_prefix(t, "default"@) || has_prefix(t, "node"@) || has_prefix(
        t,
        "stable"@,
    ) || has_prefix(t, "iojs"@) || has_prefix(t, "lts/"@) || has_prefix(
        t,
        "system"@,
    ) {
        None
    } else {
        let vp = if has_prefix(t, "->"@) {
            trim_spec(strip_prefix_rep_spec(t, "->"@))
        } else {
            t
        };
        let u = strip_leading_spec(vp, 'v');
        let toks = split_ws_spec(u);
        if toks.len() == 0 {
            None
        } else {
            match parse_version_spec(toks[0]) {
                Some(version) => Some(
                    InstalledVersionView {
                        version,
                        is_default: dflt == Some(version),
                        lts_codename: None,
                        install_date: None,
                        disk_size: None,
                    },
                ),
                None => None,
            }
        }
    }
}

pub open spec fn nvm_installed_spec(
    lines: Seq<Seq<char>>,
    dflt: Option<NodeVersion>,
) -> Seq<InstalledVersionView>
    decreases lines.len(),
{
    if lines.len() == 0 {
        Seq::empty()
    } else {
        match nvm_installed_line_spec(lines[0], dflt) {
            Some(e) => seq![e] + nvm_installed_spec(lines.drop_first(), dflt),
            None => nvm_installed_spec(lines.drop_first(), dflt),
        }
    }
}

fn nvm_installed_line(line: &String, dflt: Option<NodeVersion>) -> (r: Option<
    InstalledVersion,
>)
    ensures
        r.deep_view() == nvm_installed_line_spec(line@, dflt),
{
    let t = trim_str(line.as_str());
    if starts_with(t, "default") || starts_with(t, "node") || starts_with(
        t,
        "stable",
    ) || starts_with(t, "iojs") || starts_with(t, "lts/") || starts_with(
        t,
        "system",
    ) {
        return None;
    }
    let vp = if starts_with(t, "->") {
        trim_str(strip_prefix_rep(t, "->"))
    } else {
        t
    };
    let u = strip_leading(vp, 'v');
    let toks = split_ws(u);
    if toks.len() == 0 {
        return None;
    }
    match parse_version(toks[0].as_str()) {
        Ok(version) => {
            let is_default = match dflt {
                Some(d) => d == version,
                None => false,
            };
            Some(InstalledVersion {
                version,
                is_default,
                lts_codename: None,
                install_date: None,
                disk_size: None,
            })
        },
        Err(_) => None,
    }
}

/// Parses Unix `nvm ls` output: resolves the default from its alias
/// arrow, then reads the concrete version lines.
pub fn parse_unix_installed(output: &str) -> (r: Vec<InstalledVersion>)
    ensures
        r.deep_view() == nvm_installed_spec(
            lines_spec(output@),
            nvm_default_spec(lines_spec(output@)),
        ),
{
    let lines = split_lines(output);
    let n = lines.len();
    let ghost all = lines.deep_view();
    let mut dflt: Option<NodeVersion> = None;
    let mut i: usize = 0;
    proof {
        assert(all.take(0) =~= Seq::<Seq<char>>::empty());
    }
    while i < n
        invariant
            0 <= i <= n,
            n == lines@.len(),
            all == lines.deep_view(),
            dflt == nvm_default_spec(all.take(i as int)),
        decreases n - i,
    {
        let d = nvm_default_line(&lines[i]);
        proof {
            assert(all.take(i + 1).last() == all[i as int]);
            assert(all.take(i + 1).drop_last() =~= all.take(i as int));
        }
        match d {
            Some(v) => {
                dflt = Some(v);
            },
            None => {},
        }
        i = i + 1;
    }
    proof {
        assert(all.take(n as int) =~= all);
    }
    let mut out: Vec<InstalledVersion> = Vec::new();
    let mut k: usize = 0;
    proof {
        assert(out.deep_view() + nvm_installed_spec(all, dflt)
            =~= nvm_installed_spec(all, dflt));
        assert(all.skip(0) =~= all);
    }
    while k < n
        invariant
            0 <= k <= n,
            n == lines@.len(),
            all == lines.deep_view(),
            dflt == nvm_default_spec(all),
            nvm_installed_spec(all, dflt) == out.deep_view() + nvm_installed_spec(
                all.skip(k as int),
                dflt,
            ),
        decreases n - k,
    {
        let ghost rem = all.skip(k as int);
        let entry = nvm_installed_line(&lines[k], dflt);
        proof {
            assert(rem[0] == all[k as int]);
            assert(rem.drop_first() =~= all.skip(k + 1));
        }
        match entry {
            Some(e) => {
                let ghost before = out.deep_view();
                out.push(e);
                proof {
                    assert(out.deep_view() =~= before.push(e@));
                    assert(before.push(e@) + nvm_installed_spec(
                        all.skip(k + 1),
                        dflt,
                    ) =~= before + (seq![e@] + nvm_installed_spec(
                        all.skip(k + 1),
                        dflt,
                    )));
                }
            },
            None => {},
        }
        k = k + 1;
    }
    proof {
        assert(all.skip(n as int) =~= Seq::<Seq<char>>::empty());
        assert(out.deep_view() + Seq::<InstalledVersionView>::empty() =~= out
            .deep_view());
    }
    out
}

// ---------------------------------------------------------------------------
// Windows installed listing
// ---------------------------------------------------------------------------

/// A Windows listing line: a `*` or a `Currently using` note marks the
/// default; the version is the first token, stars and `v`s stripped.
pub open spec fn nvm_win_installed_line_spec(line: Seq<char>) -> Option<
    InstalledVersionView,
> {
    let t = trim_spec(line);
    if t.len() == 0 {
        None
    } else {
        let toks = split_ws_spec(strip_leading_spec(t, '*'));
        let vp = if toks.len() == 0 {
            Seq::<char>::empty()
        } else {
            toks[0]
        };
        let vs = strip_leading_spec(vp, 'v');
        if vs.len() == 0 {
            None
        } else {
            match parse_version_spec(vs) {
                Some(version) => Some(
                    InstalledVersionView {
                        version,
                        is_default: (t[0] == '*') || contains_seq(
                            t,
                            "Currently using"@,
                        ),
                        lts_codename: None,
                        install_date: None,
                        disk_size: None,
                    },
                ),
                None => None,
            }
        }
    }
}

pub open spec fn nvm_win_installed_spec(lines: Seq<Seq<char>>) -> Seq<
    InstalledVersionView,
>
    decreases lines.len(),
{
    if lines.len() == 0 {
        Seq::empty()
    } else {
        match nvm_win_installed_line_spec(lines[0]) {
            Some(e) => seq![e] + nvm_win_installed_spec(lines.drop_first()),
            None => nvm_win_installed_spec(lines.drop_first()),
        }
    }
}

fn nvm_win_installed_line(line: &String) -> (r: Option<InstalledVersion>)
    ensures
        r.deep_view() == nvm_win_installed_line_spec(line@),
{
    let t = trim_str(line.as_str());
    if t.unicode_len() == 0 {
        return None;
    }
    let is_current = contains_sub(t, "Currently using");
    let is_star = t.get_char(0) == '*';
    let toks = split_ws(strip_leading(t, '*'));
    if toks.len() == 0 {
        return None;
    }
    let vs = strip_leading(toks[0].as_str(), 'v');
    if vs.unicode_len() == 0 {
        return None;
    }
    match parse_version(vs) {
        Ok(version) => Some(InstalledVersion {
            version,
            is_default: is_star || is_current,
            lts_codename: None,
            install_date: None,
            disk_size: None,
        }),
        Err(_) => None,
    }
}

/// Parses Windows `nvm list` output.
pub fn parse_windows_installed(output: &str) -> (r: Vec<InstalledVersion>)
    ensures
        r.deep_view() == nvm_win_installed_spec(lines_spec(output@)),
{
    let lines = split_lines(output);
    let n = lines.len();
    let ghost all = lines.deep_view();
    let mut out: Vec<InstalledVersion> = Vec::new();
    let mut i: usize = 0;
    proof {
        assert(out.deep_view() + nvm_win_installed_spec(all)
            =~= nvm_win_installed_spec(all));
        assert(all.skip(0) =~= all);
    }
    while i < n
        invariant
            0 <= i <= n,
            n == lines@.len(),
            all == lines.deep_view(),
            nvm_win_installed_spec(all) == out.deep_view()
                + nvm_win_installed_spec(all.skip(i as int)),
        decreases n - i,
    {
        let ghost rem = all.skip(i as int);
        let entry = nvm_win_installed_line(&lines[i]);
        proof {
            assert(rem[0] == all[i as int]);
            assert(rem.drop_first() =~= all.skip(i + 1));
        }
        match entry {
            Some(e) => {
                let ghost before = out.deep_view();
                out.push(e);
                proof {
                    assert(out.deep_view() =~= before.push(e@));
                    assert(before.push(e@) + nvm_win_installed_spec(
                        all.skip(i + 1),
                    ) =~= before + (seq![e@] + nvm_win_installed_spec(
                        all.skip(i + 1),
                    )));
                }
            },
            None => {},
        }
        i = i + 1;
    }
    proof {
        assert(all.skip(n as int) =~= Seq::<Seq<char>>::empty());
        assert(out.deep_view() + Seq::<InstalledVersionView>::empty() =~= out
            .deep_view());
    }
    out
}

// ---------------------------------------------------------------------------
// Unix remote listing
// ---------------------------------------------------------------------------

/// A Unix remote line: version digits after any `v`, then annotations;
/// `LTS: Name` up to a closing parenthesis names the line, and
/// `Latest LTS` marks the newest of that line.
pub open spec fn nvm_remote_line_spec(line: Seq<char>) -> Option<
    RemoteVersionView,
> {
    let t = trim_spec(line);
    if t.len() == 0 {
        None
    } else {
        let vp = strip_leading_spec(t, 'v');
        let k = digits_dots_prefix_len(vp) as int;
        let vs = vp.take(k);
        let rest = if k < vp.len() {
            vp.skip(k + 1)
        } else {
            Seq::<char>::empty()
        };
        if vs.len() == 0 {
            None
        } else {
            match parse_version_spec(vs) {
                Some(version) => Some(
                    RemoteVersionView {
                        version,
                        lts_codename: match find_sub_spec(rest, "LTS: "@) {
                            Some(st) => {
                                let after = rest.skip(st + 5);
                                Some(
                                    after.take(
                                        match find_char_spec(after, ')') {
                                            Some(cp) => cp,
                                            None => after.len() as int,
                                        },
                                    ),
                                )
                            },
                            None => None,
                        },
                        is_latest: contains_seq(rest, "Latest LTS"@),
                    },
                ),
                None => None,
            }
        }
    }
}

pub open spec fn nvm_remote_spec(lines: Seq<Seq<char>>) -> Seq<RemoteVersionView>
    decreases lines.len(),
{
    if lines.len() == 0 {
        Seq::empty()
    } else {
        match nvm_remote_line_spec(lines[0]) {
            Some(e) => seq![e] + nvm_remote_spec(lines.drop_first()),
            None => nvm_remote_spec(lines.drop_first()),
        }
    }
}

fn nvm_remote_line(line: &String) -> (r: Option<RemoteVersion>)
    ensures
        r.deep_view() == nvm_remote_line_spec(line@),
{
    let t = trim_str(line.as_str());
    if t.unicode_len() == 0 {
        return None;
    }
    let vp = strip_leading(t, 'v');
    let vn = vp.unicode_len();
    let vs = take_digits_dots(vp);
    let kk = vs.unicode_len();
    let rest = if kk < vn {
        let r = vp.substring_char(kk + 1, vn);
        proof {
            assert(r@ =~= vp@.skip(kk + 1));
        }
        r
    } else {
        let r = vp.substring_char(vn, vn);
        proof {
            assert(r@ =~= Seq::<char>::empty());
        }
        r
    };
    if kk == 0 {
        return None;
    }
    let version = match parse_version(vs) {
        Ok(v) => v,
        Err(_) => {
            return None;
        },
    };
    let rn = rest.unicode_len();
    let lts_codename = match find_sub(rest, "LTS: ") {
        Some(st) => {
            proof {
                reveal_strlit("LTS: ");
            }
            let after = rest.substring_char(st + 5, rn);
            proof {
                assert(after@ =~= rest@.skip(st + 5));
            }
            let an = after.unicode_len();
            let cut = match find_char(after, ')') {
                Some(cp) => cp,
                None => an,
            };
            let name = after.substring_char(0, cut);
            proof {
                assert(name@ =~= after@.take(cut as int));
            }
            Some(name.to_owned())
        },
        None => None,
    };
    let is_latest = contains_sub(rest, "Latest LTS");
    Some(RemoteVersion { version, lts_codename, is_latest })
}

/// Parses Unix `nvm ls-remote` output.
pub fn parse_unix_remote(output: &str) -> (r: Vec<RemoteVersion>)
    ensures
        r.deep_view() == nvm_remote_spec(lines_spec(output@)),
{
    let lines = split_lines(output);
    let n = lines.len();
    let ghost all = lines.deep_view();
    let mut out: Vec<RemoteVersion> = Vec::new();
    let mut i: usize = 0;
    proof {
        assert(out.deep_view() + nvm_remote_spec(all) =~= nvm_remote_spec(all));
        assert(all.skip(0) =~= all);
    }
    while i < n
        invariant
            0 <= i <= n,
            n == lines@.len(),
            all == lines.deep_view(),
            nvm_remote_spec(all) == out.deep_view() + nvm_remote_spec(
                all.skip(i as int),
            ),
        decreases n - i,
    {
        let ghost rem = all.skip(i as int);
        let entry = nvm_remote_line(&lines[i]);
        proof {
            assert(rem[0] == all[i as int]);
            assert(rem.drop_first() =~= all.skip(i + 1));
        }
        match entry {
            Some(e) => {
                let ghost before = out.deep_view();
                out.push(e);
                proof {
                    assert(out.deep_view() =~= before.push(e@));
                    assert(before.push(e@) + nvm_remote_spec(all.skip(i + 1))
                        =~= before + (seq![e@] + nvm_remote_spec(all.skip(i + 1))));
                }
            },
            None => {},
        }
        i = i + 1;
    }
    proof {
        assert(all.skip(n as int) =~= Seq::<Seq<char>>::empty());
        assert(out.deep_view() + Seq::<RemoteVersionView>::empty() =~= out
            .deep_view());
    }
    out
}

// ---------------------------------------------------------------------------
// Windows remote listing
// ---------------------------------------------------------------------------

/// Versions found in the columns of one table row.
pub open spec fn nvm_win_row_spec(cols: Seq<Seq<char>>) -> Seq<RemoteVersionView>
    decreases cols.len(),
{
    if cols.len() == 0 {
        Seq::empty()
    } else {
        let rest = nvm_win_row_spec(cols.drop_first());
        match parse_version_spec(strip_leading_spec(cols[0], 'v')) {
            Some(version) => seq![
                RemoteVersionView {
                    version,
                    lts_codename: None,
                    is_latest: false,
                },
            ] + rest,
            None => rest,
        }
    }
}

/// Header words switch table mode on; after that every version-shaped
/// token of a non-empty row counts.
pub open spec fn nvm_win_remote_spec(lines: Seq<Seq<char>>, in_table: bool) -> Seq<
    RemoteVersionView,
>
    decreases lines.len(),
{
    if lines.len() == 0 {
        Seq::empty()
    } else {
        let t = trim_spec(lines[0]);
        if contains_seq(t, "CURRENT"@) || contains_seq(t, "LTS"@) || contains_seq(
            t,
            "OLD"@,
        ) {
            nvm_win_remote_spec(lines.drop_first(), true)
        } else if !in_table || t.len() == 0 {
            nvm_win_remote_spec(lines.drop_first(), in_table)
        } else {
            nvm_win_row_spec(split_ws_spec(t)) + nvm_win_remote_spec(
                lines.drop_first(),
                in_table,
            )
        }
    }
}

fn nvm_win_row(cols: &Vec<String>) -> (r: Vec<RemoteVersion>)
    ensures
        r.deep_view() == nvm_win_row_spec(cols.deep_view()),
{
    let n = cols.len();
    let ghost all = cols.deep_view();
    let mut out: Vec<RemoteVersion> = Vec::new();
    let mut i: usize = 0;
    proof {
        assert(out.deep_view() + nvm_win_row_spec(all) =~= nvm_win_row_spec(all));
        assert(all.skip(0) =~= all);
    }
    while i < n
        invariant
            0 <= i <= n,
            n == cols@.len(),
            all == cols.deep_view(),
            nvm_win_row_spec(all) == out.deep_view() + nvm_win_row_spec(
                all.skip(i as int),
            ),
        decreases n - i,
    {
        let ghost rem = all.skip(i as int);
        proof {
            assert(rem[0] == all[i as int]);
            assert(rem.drop_first() =~= all.skip(i + 1));
        }
        let vs = strip_leading(cols[i].as_str(), 'v');
        match parse_version(vs) {
            Ok(version) => {
                let e = RemoteVersion {
                    version,
                    lts_codename: None,
                    is_latest: false,
                };
                let ghost before = out.deep_view();
                let ghost ev = e@;
                out.push(e);
                proof {
                    assert(out.deep_view() =~= before.push(ev));
                    assert(before.push(ev) + nvm_win_row_spec(all.skip(i + 1))
                        =~= before + (seq![ev] + nvm_win_row_spec(
                        all.skip(i + 1),
                    )));
                }
            },
            Err(_) => {},
        }
        i = i + 1;
    }
    proof {
        assert(all.skip(n as int) =~= Seq::<Seq<char>>::empty());
        assert(out.deep_view() + Seq::<RemoteVersionView>::empty() =~= out
            .deep_view());
    }
    out
}

/// Parses Windows `nvm list available` output: a box-drawn table whose
/// data rows follow a detected header row.
pub fn parse_windows_remote(output: &str) -> (r: Vec<RemoteVersion>)
    ensures
        r.deep_view() == nvm_win_remote_spec(lines_spec(output@), false),
{
    let lines = split_lines(output);
    let n = lines.len();
    let ghost all = lines.deep_view();
    let mut out: Vec<RemoteVersion> = Vec::new();
    let mut in_table: bool = false;
    let mut i: usize = 0;
    proof {
        assert(out.deep_view() + nvm_win_remote_spec(all, false)
            =~= nvm_win_remote_spec(all, false));
        assert(all.skip(0) =~= all);
    }
    while i < n
        invariant
            0 <= i <= n,
            n == lines@.len(),
            all == lines.deep_view(),
            nvm_win_remote_spec(all, false) == out.deep_view()
                + nvm_win_remote_spec(all.skip(i as int), in_table),
        decreases n - i,
    {
        let ghost rem = all.skip(i as int);
        proof {
            assert(rem[0] == all[i as int]);
            assert(rem.drop_first() =~= all.skip(i + 1));
        }
        let t = trim_str(lines[i].as_str());
        if contains_sub(t, "CURRENT") || contains_sub(t, "LTS") || contains_sub(
            t,
            "OLD",
        ) {
            in_table = true;
        } else if !in_table || t.unicode_len() == 0 {
        } else {
            let cols = split_ws(t);
            let row = nvm_win_row(&cols);
            let ghost before = out.deep_view();
            let ghost rowv = row.deep_view();
            out = append_remote(out, row);
            proof {
                assert(out.deep_view() =~= before + rowv);
                assert((before + rowv) + nvm_win_remote_spec(
                    all.skip(i + 1),
                    in_table,
                ) =~= before + (rowv + nvm_win_remote_spec(
                    all.skip(i + 1),
                    in_table,
                )));
            }
        }
        i = i + 1;
    }
    proof {
        assert(all.skip(n as int) =~= Seq::<Seq<char>>::empty());
        assert(out.deep_view() + Seq::<RemoteVersionView>::empty() =~= out
            .deep_view());
    }
    out
}

fn append_remote(mut base: Vec<RemoteVersion>, mut extra: Vec<RemoteVersion>) -> (r: Vec<
    RemoteVersion,
>)
    ensures
        r.deep_view() == base.deep_view() + extra.deep_view(),
{
    let ghost b0 = base.deep_view();
    let ghost e0 = extra.deep_view();
    let n = extra.len();
    let mut i: usize = 0;
    while i < n
        invariant
            0 <= i <= n,
            n == extra@.len(),
            extra.deep_view() == e0,
            base.deep_view() == b0 + e0.take(i as int),
        decreases n - i,
    {
        let ghost before = base.deep_view();
        let item = crate::model::clone_remote(&extra[i]);
        base.push(item);
        proof {
            assert(base.deep_view() =~= before.push(e0[i as int]));
            assert(e0.take(i + 1) =~= e0.take(i as int).push(e0[i as int]));
            assert(b0 + e0.take(i + 1) =~= (b0 + e0.take(i as int)).push(
                e0[i as int],
            ));
        }
        i = i + 1;
    }
    proof {
        assert(e0.take(n as int) =~= e0);
    }
    base
}

} // verus!
