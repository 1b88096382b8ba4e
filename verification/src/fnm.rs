//! Parsers for the list output of an fnm-style backend.  The output is
//! unversioned shell text with no schema, so both parsers are
//! best-effort: they extract every recognizable entry and silently skip
//! anything else, and never fail as a whole.

use vstd::prelude::*;

use crate::model::{InstalledVersion, InstalledVersionView, RemoteVersion,
    RemoteVersionView};
use crate::text::{contains_seq, contains_sub, find_char, find_char_spec,
    lines_spec, split_lines, split_ws, split_ws_spec, str_eq, trim_spec,
    trim_str};
use crate::version::{parse_version, parse_version_spec};

verus! {

/// First whitespace token that begins with `v`.
pub open spec fn first_v_token(tokens: Seq<Seq<char>>) -> Option<Seq<char>>
    decreases tokens.len(),
{
    if tokens.len() == 0 {
        None
    } else if tokens[0].len() > 0 && tokens[0][0] == 'v' {
        Some(tokens[0])
    } else {
        first_v_token(tokens.drop_first())
    }
}

proof fn lemma_first_v_token_at(tokens: Seq<Seq<char>>, i: int)
    requires
        0 <= i < tokens.len(),
        tokens[i].len() > 0 && tokens[i][0] == 'v',
        forall|j: int|
            0 <= j < i ==> !((#[trigger] tokens[j]).len() > 0 && tokens[j][0]
                == 'v'),
    ensures
        first_v_token(tokens) == Some(tokens[i]),
    decreases i,
{
    if i > 0 {
        lemma_first_v_token_at(tokens.drop_first(), i - 1);
    }
}

proof fn lemma_first_v_token_none(tokens: Seq<Seq<char>>)
    requires
        forall|j: int|
            0 <= j < tokens.len() ==> !((#[trigger] tokens[j]).len() > 0
                && tokens[j][0] == 'v'),
    ensures
        first_v_token(tokens) is None,
    decreases tokens.len(),
{
    if tokens.len() > 0 {
        lemma_first_v_token_none(tokens.drop_first());
    }
}

/// What one line of `fnm list` output contributes.  Blank lines and the
/// `system` sentinels give nothing; the word `default` anywhere marks
/// the entry as the default; the version is the first `v`-prefixed
/// whitespace token, and a line with none that parses is dropped.
pub open spec fn fnm_installed_line_spec(line: Seq<char>) -> Option<
    InstalledVersionView,
> {
    let t = trim_spec(line);
    if t.len() == 0 {
        None
    } else if t == "system"@ || t == "* system"@ {
        None
    } else {
        match first_v_token(split_ws_spec(t)) {
            None => None,
            Some(tok) => match parse_version_spec(tok) {
                None => None,
                Some(version) => Some(
                    InstalledVersionView {
                        version,
                        is_default: contains_seq(t, "default"@),
                        lts_codename: None,
                        install_date: None,
                        disk_size: None,
                    },
                ),
            },
        }
    }
}

pub open spec fn fnm_installed_spec(lines: Seq<Seq<char>>) -> Seq<
    InstalledVersionView,
>
    decreases lines.len(),
{
    if lines.len() == 0 {
        Seq::empty()
    } else {
        match fnm_installed_line_spec(lines[0]) {
            Some(e) => seq![e] + fnm_installed_spec(lines.drop_first()),
            None => fnm_installed_spec(lines.drop_first()),
        }
    }
}

/// Sentinel and blank lines never produce an entry.
pub proof fn lemma_fnm_skips_sentinels(line: Seq<char>)
    ensures
        trim_spec(line).len() == 0 ==> fnm_installed_line_spec(line) is None,
        trim_spec(line) == "system"@ ==> fnm_installed_line_spec(line) is None,
        trim_spec(line) == "* system"@ ==> fnm_installed_line_spec(line) is None,
{
    reveal_strlit("system");
    reveal_strlit("* system");
}

/// A line containing `default` marks its entry as the default.
pub proof fn lemma_fnm_default_marker(line: Seq<char>)
    ensures
        fnm_installed_line_spec(line) matches Some(e) ==> e.is_default
            == contains_seq(trim_spec(line), "default"@),
{
}

fn fnm_installed_line(line: &String) -> (r: Option<InstalledVersion>)
    ensures
        r.deep_view() == fnm_installed_line_spec(line@),
{
    let t = trim_str(line.as_str());
    if t.unicode_len() == 0 {
        return None;
    }
    if str_eq(t, "system") || str_eq(t, "* system") {
        return None;
    }
    let is_default = contains_sub(t, "default");
    let tokens = split_ws(t);
    let n = tokens.len();
    let mut i: usize = 0;
    while i < n
        invariant
            0 <= i <= n,
            n == tokens@.len(),
            t@ == trim_spec(line@),
            t@.len() > 0,
            t@ != "system"@,
            t@ != "* system"@,
            is_default == contains_seq(t@, "default"@),
            tokens.deep_view() == split_ws_spec(t@),
            forall|j: int|
                0 <= j < i ==> !((#[trigger] tokens.deep_view()[j]).len() > 0
                    && tokens.deep_view()[j][0] == 'v'),
        decreases n - i,
    {
        let tok = &tokens[i];
        if tok.as_str().unicode_len() > 0 && tok.as_str().get_char(0) == 'v' {
            proof {
                lemma_first_v_token_at(tokens.deep_view(), i as int);
            }
            match parse_version(tok.as_str()) {
                Ok(version) => {
                    return Some(InstalledVersion {
                        version,
                        is_default,
                        lts_codename: None,
                        install_date: None,
                        disk_size: None,
                    });
                },
                Err(_) => {
                    return None;
                },
            }
        }
        i = i + 1;
    }
    proof {
        lemma_first_v_token_none(tokens.deep_view());
    }
    None
}

/// Parses `fnm list`: best-effort, line-oriented, never fails.
pub fn parse_installed_versions(output: &str) -> (r: Vec<InstalledVersion>)
    ensures
        r.deep_view() == fnm_installed_spec(lines_spec(output@)),
{
    let lines = split_lines(output);
    let n = lines.len();
    let mut out: Vec<InstalledVersion> = Vec::new();
    let ghost all = lines.deep_view();
    proof {
        assert(out.deep_view() + fnm_installed_spec(all) =~= fnm_installed_spec(
            all,
        ));
        assert(all.skip(0) =~= all);
    }
    let mut i: usize = 0;
    while i < n
        invariant
            0 <= i <= n,
            n == lines@.len(),
            all == lines.deep_view(),
            fnm_installed_spec(all) == out.deep_view() + fnm_installed_spec(
                all.skip(i as int),
            ),
        decreases n - i,
    {
        let ghost rem = all.skip(i as int);
        let entry = fnm_installed_line(&lines[i]);
        proof {
            assert(rem[0] == all[i as int]);
            assert(rem.drop_first() =~= all.skip(i + 1));
        }
        match entry {
            Some(e) => {
                let ghost before = out.deep_view();
                out.push(e);
                proof {
                    assert(out.deep_view() =~= before.push(e@));
                    assert(before.push(e@) + fnm_installed_spec(all.skip(i + 1))
                        =~= before + (seq![e@] + fnm_installed_spec(
                        all.skip(i + 1),
                    )));
                }
            },
            None => {},
        }
        i = i + 1;
    }
    proof {
        assert(all.skip(n as int) =~= Seq::<Seq<char>>::empty());
        assert(out.deep_view() + Seq::<InstalledVersionView>::empty() =~= out
            .deep_view());
    }
    out
}

/// What one line of `fnm list-remote` output contributes: a version
/// token, then an optional parenthesized annotation that names the LTS
/// line.
pub open spec fn fnm_remote_line_spec(line: Seq<char>) -> Option<
    RemoteVersionView,
> {
    let t = trim_spec(line);
    if t.len() == 0 {
        None
    } else {
        let vs = match find_char_spec(t, ' ') {
            Some(k) => trim_spec(t.take(k)),
            None => trim_spec(t),
        };
        let rest = match find_char_spec(t, ' ') {
            Some(k) => trim_spec(t.skip(k + 1)),
            None => Seq::<char>::empty(),
        };
        match parse_version_spec(vs) {
            None => None,
            Some(version) => Some(
                RemoteVersionView {
                    version,
                    lts_codename: if rest.len() >= 2 && rest[0] == '('
                        && rest.last() == ')' {
                        Some(rest.subrange(1, rest.len() - 1))
                    } else {
                        None
                    },
                    is_latest: false,
                },
            ),
        }
    }
}

pub open spec fn fnm_remote_spec(lines: Seq<Seq<char>>) -> Seq<RemoteVersionView>
    decreases lines.len(),
{
    if lines.len() == 0 {
        Seq::empty()
    } else {
        match fnm_remote_line_spec(lines[0]) {
            Some(e) => seq![e] + fnm_remote_spec(lines.drop_first()),
            None => fnm_remote_spec(lines.drop_first()),
        }
    }
}

fn fnm_remote_line(line: &String) -> (r: Option<RemoteVersion>)
    ensures
        r.deep_view() == fnm_remote_line_spec(line@),
{
    let t = trim_str(line.as_str());
    let n = t.unicode_len();
    if n == 0 {
        return None;
    }
    let (vs, rest) = match find_char(t, ' ') {
        Some(k) => {
            let vs = trim_str(t.substring_char(0, k));
            let rest = trim_str(t.substring_char(k + 1, n));
            proof {
                assert(t@.subrange(0, k as int) =~= t@.take(k as int));
                assert(t@.subrange(k + 1, n as int) =~= t@.skip(k + 1));
            }
            (vs, rest)
        },
        None => {
            let vs = trim_str(t);
            (vs, t.substring_char(n, n))
        },
    };
    let version = match parse_version(vs) {
        Ok(v) => v,
        Err(_) => {
            return None;
        },
    };
    let m = rest.unicode_len();
    let lts_codename = if m >= 2 && rest.get_char(0) == '(' && rest.get_char(m - 1)
        == ')' {
        let inner = rest.substring_char(1, m - 1);
        Some(inner.to_owned())
    } else {
        proof {
            if find_char_spec(t@, ' ') is None {
                assert(Seq::<char>::empty().len() < 2);
            }
        }
        None
    };
    proof {
        if find_char_spec(t@, ' ') is None {
            assert(rest@ =~= t@.subrange(n as int, n as int));
            assert(rest@ =~= Seq::<char>::empty());
        }
    }
    Some(RemoteVersion { version, lts_codename, is_latest: false })
}

/// Parses `fnm list-remote`: a version per line, with its optional LTS
/// codename; the codename comes from `(Name)` and nothing else.
pub fn parse_remote_versions(output: &str) -> (r: Vec<RemoteVersion>)
    ensures
        r.deep_view() == fnm_remote_spec(lines_spec(output@)),
{
    let lines = split_lines(output);
    let n = lines.len();
    let mut out: Vec<RemoteVersion> = Vec::new();
    let ghost all = lines.deep_view();
    proof {
        assert(out.deep_view() + fnm_remote_spec(all) =~= fnm_remote_spec(all));
        assert(all.skip(0) =~= all);
    }
    let mut i: usize = 0;
    while i < n
        invariant
            0 <= i <= n,
            n == lines@.len(),
            all == lines.deep_view(),
            fnm_remote_spec(all) == out.deep_view() + fnm_remote_spec(
                all.skip(i as int),
            ),
        decreases n - i,
    {
        let ghost rem = all.skip(i as int);
        let entry = fnm_remote_line(&lines[i]);
        proof {
            assert(rem[0] == all[i as int]);
            assert(rem.drop_first() =~= all.skip(i + 1));
        }
        match entry {
            Some(e) => {
                let ghost before = out.deep_view();
                out.push(e);
                proof {
                    assert(out.deep_view() =~= before.push(e@));
                    assert(before.push(e@) + fnm_remote_spec(all.skip(i + 1))
                        =~= before + (seq![e@] + fnm_remote_spec(all.skip(i + 1))));
                }
            },
            None => {},
        }
        i = i + 1;
    }
    proof {
        assert(all.skip(n as int) =~= Seq::<Seq<char>>::empty());
        assert(out.deep_view() + Seq::<RemoteVersionView>::empty() =~= out
            .deep_view());
    }
    out
}

} // verus!
