//! Character-level text utilities shared by every CLI-output parser:
//! whitespace trimming, splitting, substring search and decimal numbers,
//! each with a mathematical specification over `Seq<char>`.

use vstd::prelude::*;

verus! {

// ---------------------------------------------------------------------------
// character classes
// ---------------------------------------------------------------------------

/// ASCII whitespace, the only whitespace the wrapped CLIs emit.
pub open spec fn is_ws_char(c: char) -> bool {
    c == ' ' || c == '\t' || c == '\n' || c == '\r'
}

pub open spec fn is_digit_char(c: char) -> bool {
    48 <= c as u32 && c as u32 <= 57
}

pub open spec fn digit_val(c: char) -> nat {
    (c as u32 - 48) as nat
}

pub fn is_ws(c: char) -> (r: bool)
    ensures
        r == is_ws_char(c),
{
    c == ' ' || c == '\t' || c == '\n' || c == '\r'
}

pub fn is_digit(c: char) -> (r: bool)
    ensures
        r == is_digit_char(c),
{
    let u = c as u32;
    48 <= u && u <= 57
}

// ---------------------------------------------------------------------------
// trimming
// ---------------------------------------------------------------------------

pub open spec fn trim_start_spec(s: Seq<char>) -> Seq<char>
    decreases s.len(),
{
    if s.len() > 0 && is_ws_char(s[0]) {
        trim_start_spec(s.drop_first())
    } else {
        s
    }
}

pub open spec fn trim_end_spec(s: Seq<char>) -> Seq<char>
    decreases s.len(),
{
    if s.len() > 0 && is_ws_char(s.last()) {
        trim_end_spec(s.drop_last())
    } else {
        s
    }
}

pub open spec fn trim_spec(s: Seq<char>) -> Seq<char> {
    trim_end_spec(trim_start_spec(s))
}

proof fn lemma_trim_start_skip(s: Seq<char>, i: int)
    requires
        0 <= i <= s.len(),
        forall|j: int| 0 <= j < i ==> is_ws_char(s[j]),
    ensures
        trim_start_spec(s) == trim_start_spec(s.skip(i)),
    decreases i,
{
    if i == 0 {
        assert(s.skip(0) =~= s);
    } else {
        assert(s.drop_first() =~= s.skip(1));
        lemma_trim_start_skip(s.skip(1), i - 1);
        assert(s.skip(1).skip(i - 1) =~= s.skip(i));
    }
}

proof fn lemma_trim_end_take(s: Seq<char>, i: int)
    requires
        0 <= i <= s.len(),
        forall|j: int| i <= j < s.len() ==> is_ws_char(s[j]),
    ensures
        trim_end_spec(s) == trim_end_spec(s.take(i)),
    decreases s.len() - i,
{
    if i == s.len() {
        assert(s.take(i) =~= s);
    } else {
        assert(s.drop_last() =~= s.take(s.len() - 1));
        lemma_trim_end_take(s.take(s.len() - 1), i);
        assert(s.take(s.len() - 1).take(i) =~= s.take(i));
    }
}

/// Strips leading and trailing ASCII whitespace.
pub fn trim_str<'a>(s: &'a str) -> (r: &'a str)
    ensures
        r@ == trim_spec(s@),
{
    let n = s.unicode_len();
    let mut start: usize = 0;
    while start < n && is_ws(s.get_char(start))
        invariant
            0 <= start <= n,
            n == s@.len(),
            forall|j: int| 0 <= j < start ==> is_ws_char(s@[j]),
        decreases n - start,
    {
        start = start + 1;
    }
    proof {
        lemma_trim_start_skip(s@, start as int);
    }
    if start == n {
        proof {
            assert(s@.skip(start as int) =~= Seq::<char>::empty());
            assert(trim_start_spec(Seq::<char>::empty()) =~= Seq::<char>::empty());
            assert(trim_end_spec(Seq::<char>::empty()) =~= Seq::<char>::empty());
        }
        let r = s.substring_char(0, 0);
        proof {
            assert(r@ =~= s@.subrange(0, 0));
            assert(s@.subrange(0, 0) =~= Seq::<char>::empty());
        }
        return r;
    }
    // s@[start] is not whitespace, so trim_start_spec(s@) == s@.skip(start)
    assert(trim_start_spec(s@.skip(start as int)) == s@.skip(start as int));
    let mut end: usize = n;
    while end > start && is_ws(s.get_char(end - 1))
        invariant
            start <= end <= n,
            n == s@.len(),
            forall|j: int| end <= j < n ==> is_ws_char(s@[j]),
        decreases end,
    {
        end = end - 1;
    }
    // end > start here: s@[start] is not ws, so the loop cannot pass it
    proof {
        let t = s@.skip(start as int);
        lemma_trim_end_take(t, end - start);
        assert(t.take(end - start) =~= s@.subrange(start as int, end as int));
        if end == start {
            assert(is_ws_char(s@[start as int]));  // contradiction with loop exit
            assert(false);
        }
        assert(!is_ws_char(t.take(end - start).last()));
        assert(trim_end_spec(t.take(end - start)) == t.take(end - start));
    }
    s.substring_char(start, end)
}

// ---------------------------------------------------------------------------
// single-character search and splitting
// ---------------------------------------------------------------------------

/// Index of the first occurrence of `sep`, at `from` or later.
pub fn find_char_at(s: &str, from: usize, sep: char) -> (r: Option<usize>)
    requires
        from <= s@.len(),
    ensures
        match r {
            Some(i) => from <= i < s@.len() && s@[i as int] == sep && forall|j: int|
                from <= j < i ==> s@[j] != sep,
            None => forall|j: int| from <= j < s@.len() ==> s@[j] != sep,
        },
{
    let n = s.unicode_len();
    let mut i: usize = from;
    while i < n
        invariant
            from <= i <= n,
            n == s@.len(),
            forall|j: int| from <= j < i ==> s@[j] != sep,
        decreases n - i,
    {
        if s.get_char(i) == sep {
            return Some(i);
        }
        i = i + 1;
    }
    None
}

/// `str::split` on a single separator character.
pub open spec fn split_char_spec(s: Seq<char>, sep: char) -> Seq<Seq<char>>
    decreases s.len(),
{
    if s.len() == 0 {
        seq![Seq::<char>::empty()]
    } else if s[0] == sep {
        seq![Seq::<char>::empty()] + split_char_spec(s.drop_first(), sep)
    } else {
        let rest = split_char_spec(s.drop_first(), sep);
        seq![seq![s[0]] + rest[0]] + rest.drop_first()
    }
}

pub proof fn lemma_split_char_len(s: Seq<char>, sep: char)
    ensures
        split_char_spec(s, sep).len() >= 1,
    decreases s.len(),
{
    if s.len() > 0 {
        lemma_split_char_len(s.drop_first(), sep);
    }
}

/// With no separator present, splitting yields the whole input alone.
pub proof fn lemma_split_char_none(s: Seq<char>, sep: char)
    requires
        forall|j: int| 0 <= j < s.len() ==> s[j] != sep,
    ensures
        split_char_spec(s, sep) =~~= seq![s],
    decreases s.len(),
{
    if s.len() > 0 {
        lemma_split_char_none(s.drop_first(), sep);
    }
}

/// Splitting at the first separator: head is everything before it,
/// and the tail is the split of everything after it.
pub proof fn lemma_split_char_first(s: Seq<char>, sep: char, i: int)
    requires
        0 <= i < s.len(),
        s[i] == sep,
        forall|j: int| 0 <= j < i ==> s[j] != sep,
    ensures
        split_char_spec(s, sep) =~~= seq![s.take(i)] + split_char_spec(
            s.skip(i + 1),
            sep,
        ),
    decreases i,
{
    if i == 0 {
        assert(s.take(0) =~= Seq::<char>::empty());
        assert(s.skip(1) =~= s.drop_first());
    } else {
        let s1 = s.drop_first();
        lemma_split_char_first(s1, sep, i - 1);
        lemma_split_char_len(s1.skip(i), sep);
        assert(s1.skip(i) =~= s.skip(i + 1));
        assert(seq![s[0]] + s1.take(i - 1) =~= s.take(i));
    }
}

// ---------------------------------------------------------------------------
// prefix and substring search
// ---------------------------------------------------------------------------

pub open spec fn has_prefix(s: Seq<char>, pre: Seq<char>) -> bool {
    pre.len() <= s.len() && s.take(pre.len() as int) == pre
}

pub fn starts_with(s: &str, pre: &str) -> (r: bool)
    ensures
        r == has_prefix(s@, pre@),
{
    let n = s.unicode_len();
    let m = pre.unicode_len();
    if m > n {
        return false;
    }
    let mut i: usize = 0;
    while i < m
        invariant
            0 <= i <= m <= n,
            n == s@.len(),
            m == pre@.len(),
            forall|j: int| 0 <= j < i ==> s@[j] == pre@[j],
        decreases m - i,
    {
        if s.get_char(i) != pre.get_char(i) {
            assert(s@.take(m as int)[i as int] != pre@[i as int]);
            return false;
        }
        i = i + 1;
    }
    proof {
        assert(s@.take(m as int) =~= pre@);
    }
    true
}

pub fn str_eq(a: &str, b: &str) -> (r: bool)
    ensures
        r == (a@ == b@),
{
    let n = a.unicode_len();
    if b.unicode_len() != n {
        return false;
    }
    let mut i: usize = 0;
    while i < n
        invariant
            0 <= i <= n,
            n == a@.len(),
            n == b@.len(),
            forall|j: int| 0 <= j < i ==> a@[j] == b@[j],
        decreases n - i,
    {
        if a.get_char(i) != b.get_char(i) {
            return false;
        }
        i = i + 1;
    }
    proof {
        assert(a@ =~= b@);
    }
    true
}

/// First index, at `from` or later, where `sub` occurs as a substring.
pub fn find_sub_at(s: &str, from: usize, sub: &str) -> (r: Option<usize>)
    requires
        from <= s@.len(),
    ensures
        match r {
            Some(i) => {
                &&& from <= i
                &&& i + sub@.len() <= s@.len()
                &&& s@.subrange(i as int, i + sub@.len()) == sub@
                &&& forall|j: int|
                    from <= j < i ==> #[trigger] s@.subrange(j, j + sub@.len())
                        != sub@
            },
            None => forall|j: int|
                from <= j && j + sub@.len() <= s@.len() ==> #[trigger] s@.subrange(
                    j,
                    j + sub@.len(),
                ) != sub@,
        },
{
    let n = s.unicode_len();
    let m = sub.unicode_len();
    if m == 0 {
        proof {
            assert(s@.subrange(from as int, from as int) =~= sub@);
        }
        return Some(from);
    }
    if m > n || from > n - m {
        return None;
    }
    let mut i: usize = from;
    while i <= n - m
        invariant
            from <= i,
            1 <= m <= n,
            i <= n - m + 1,
            n == s@.len(),
            m == sub@.len(),
            forall|j: int|
                from <= j < i ==> #[trigger] s@.subrange(j, j + m as int) != sub@,
        decreases n - i,
    {
        let mut k: usize = 0;
        let mut matched: bool = true;
        while k < m
            invariant
                0 <= k <= m,
                i + m <= n,
                n == s@.len(),
                m == sub@.len(),
                matched ==> forall|j: int| 0 <= j < k ==> s@[i + j] == sub@[j],
                !matched ==> s@.subrange(i as int, i + m as int) != sub@,
            decreases m - k,
        {
            if s.get_char(i + k) != sub.get_char(k) {
                proof {
                    assert(s@.subrange(i as int, i + m as int)[k as int] != sub@[
                        k as int
                    ]);
                }
                matched = false;
                k = m;
            } else {
                k = k + 1;
            }
        }
        if matched {
            proof {
                assert(s@.subrange(i as int, i + m as int) =~= sub@);
            }
            return Some(i);
        }
        i = i + 1;
    }
    None
}

pub open spec fn contains_seq(s: Seq<char>, sub: Seq<char>) -> bool {
    exists|i: int|
        0 <= i && i + sub.len() <= s.len() && #[trigger] s.subrange(i, i + sub.len())
            == sub
}

pub fn contains_sub(s: &str, sub: &str) -> (r: bool)
    ensures
        r == contains_seq(s@, sub@),
{
    match find_sub_at(s, 0, sub) {
        Some(i) => {
            proof {
                assert(s@.subrange(i as int, i + sub@.len()) == sub@);
            }
            true
        },
        None => false,
    }
}

// ---------------------------------------------------------------------------
// whitespace splitting
// ---------------------------------------------------------------------------

/// Length of the longest prefix of non-whitespace characters.
pub open spec fn token_prefix_len(s: Seq<char>) -> nat
    decreases s.len(),
{
    if s.len() > 0 && !is_ws_char(s[0]) {
        1 + token_prefix_len(s.drop_first())
    } else {
        0
    }
}

pub proof fn lemma_token_prefix_len_le(s: Seq<char>)
    ensures
        token_prefix_len(s) <= s.len(),
    decreases s.len(),
{
    if s.len() > 0 && !is_ws_char(s[0]) {
        lemma_token_prefix_len_le(s.drop_first());
    }
}

/// `token_prefix_len` is pinned by its first-whitespace characterization.
pub proof fn lemma_token_prefix_len_is(s: Seq<char>, k: int)
    requires
        0 <= k <= s.len(),
        forall|j: int| 0 <= j < k ==> !is_ws_char(s[j]),
        k == s.len() || is_ws_char(s[k]),
    ensures
        token_prefix_len(s) == k,
    decreases k,
{
    if k > 0 {
        lemma_token_prefix_len_is(s.drop_first(), k - 1);
    }
}

/// `str::split_whitespace`: maximal runs of non-whitespace characters.
pub open spec fn split_ws_spec(s: Seq<char>) -> Seq<Seq<char>>
    decreases s.len(),
    via split_ws_spec_decreases
{
    if s.len() == 0 {
        Seq::empty()
    } else if is_ws_char(s[0]) {
        split_ws_spec(s.drop_first())
    } else {
        let k = token_prefix_len(s) as int;
        seq![s.take(k)] + split_ws_spec(s.skip(k))
    }
}

#[via_fn]
proof fn split_ws_spec_decreases(s: Seq<char>) {
    if s.len() > 0 && !is_ws_char(s[0]) {
        lemma_token_prefix_len_le(s);
        assert(token_prefix_len(s) >= 1);
    }
}

proof fn lemma_split_ws_skip_ws(s: Seq<char>, i: int)
    requires
        0 <= i <= s.len(),
        forall|j: int| 0 <= j < i ==> is_ws_char(s[j]),
    ensures
        split_ws_spec(s) == split_ws_spec(s.skip(i)),
    decreases i,
{
    if i == 0 {
        assert(s.skip(0) =~= s);
    } else {
        assert(s.drop_first() =~= s.skip(1));
        lemma_split_ws_skip_ws(s.skip(1), i - 1);
        assert(s.skip(1).skip(i - 1) =~= s.skip(i));
    }
}

pub fn split_ws(s: &str) -> (r: Vec<String>)
    ensures
        r.deep_view() == split_ws_spec(s@),
{
    let n = s.unicode_len();
    let mut parts: Vec<String> = Vec::new();
    let mut i: usize = 0;
    proof {
        assert(s@.skip(0) =~= s@);
        assert(parts.deep_view() + split_ws_spec(s@) =~= split_ws_spec(s@));
    }
    while i < n
        invariant
            0 <= i <= n,
            n == s@.len(),
            split_ws_spec(s@) == parts.deep_view() + split_ws_spec(s@.skip(i as int)),
        decreases n - i,
    {
        if is_ws(s.get_char(i)) {
            proof {
                assert(s@.skip(i as int).drop_first() =~= s@.skip(i + 1));
            }
            i = i + 1;
        } else {
            let start = i;
            let mut j = i + 1;
            while j < n && !is_ws(s.get_char(j))
                invariant
                    start < j <= n,
                    n == s@.len(),
                    forall|t: int| start <= t < j ==> !is_ws_char(s@[t]),
                decreases n - j,
            {
                j = j + 1;
            }
            let token = s.substring_char(start, j).to_owned();
            proof {
                let rem = s@.skip(start as int);
                assert(rem[0] == s@[start as int]);
                lemma_token_prefix_len_is(rem, j - start);
                assert(rem.take(j - start) =~= s@.subrange(start as int, j as int));
                assert(rem.skip(j - start) =~= s@.skip(j as int));
                assert(split_ws_spec(rem) == seq![token@] + split_ws_spec(
                    s@.skip(j as int),
                ));
            }
            let ghost before = parts.deep_view();
            parts.push(token);
            proof {
                assert(parts.deep_view() =~= before.push(token@));
                assert(before.push(token@) + split_ws_spec(s@.skip(j as int))
                    =~= before + (seq![token@] + split_ws_spec(s@.skip(j as int))));
            }
            i = j;
        }
    }
    proof {
        assert(s@.skip(n as int) =~= Seq::<char>::empty());
        assert(parts.deep_view() + Seq::<Seq<char>>::empty() =~= parts.deep_view());
    }
    parts
}

// ---------------------------------------------------------------------------
// lines
// ---------------------------------------------------------------------------

pub open spec fn strip_cr(line: Seq<char>) -> Seq<char> {
    if line.len() > 0 && line.last() == '\r' {
        line.drop_last()
    } else {
        line
    }
}

/// `str::lines`: split on newline, final newline optional, trailing
/// carriage returns removed.
pub open spec fn lines_spec(s: Seq<char>) -> Seq<Seq<char>> {
    if s.len() == 0 {
        Seq::empty()
    } else {
        let parts = split_char_spec(s, '\n');
        let trimmed = if parts.last().len() == 0 {
            parts.drop_last()
        } else {
            parts
        };
        trimmed.map_values(|l: Seq<char>| strip_cr(l))
    }
}

pub fn split_lines(s: &str) -> (r: Vec<String>)
    ensures
        r.deep_view() == lines_spec(s@),
{
    let n = s.unicode_len();
    let mut raw: Vec<String> = Vec::new();
    let mut i: usize = 0;
    let mut trailing_piece: bool = false;
    proof {
        assert(s@.skip(0) =~= s@);
        assert(raw.deep_view() + split_char_spec(s@, '\n') =~= split_char_spec(
            s@,
            '\n',
        ));
    }
    while i < n && !trailing_piece
        invariant
            0 <= i <= n,
            n == s@.len(),
            !trailing_piece ==> split_char_spec(s@, '\n') == raw.deep_view()
                + split_char_spec(s@.skip(i as int), '\n'),
            trailing_piece ==> n > 0 && split_char_spec(s@, '\n') == raw.deep_view()
                && raw.deep_view().len() > 0 && raw.deep_view().last().len() > 0,
        decreases n - i + (if trailing_piece { 0int } else { 1int }),
    {
        let ghost before = raw.deep_view();
        let ghost rem = s@.skip(i as int);
        match find_char_at(s, i, '\n') {
            Some(j) => {
                let piece = s.substring_char(i, j).to_owned();
                proof {
                    lemma_split_char_first(rem, '\n', j - i);
                    assert(rem.take(j - i) =~= s@.subrange(i as int, j as int));
                    assert(rem.skip(j - i + 1) =~= s@.skip(j + 1));
                }
                raw.push(piece);
                proof {
                    assert(raw.deep_view() =~= before.push(piece@));
                    assert(before.push(piece@) + split_char_spec(s@.skip(j + 1), '\n')
                        =~= before + (seq![piece@] + split_char_spec(
                        s@.skip(j + 1),
                        '\n',
                    )));
                }
                i = j + 1;
            },
            None => {
                let piece = s.substring_char(i, n).to_owned();
                proof {
                    lemma_split_char_none(rem, '\n');
                    assert(rem =~= s@.subrange(i as int, n as int));
                    assert(piece@.len() == n - i > 0);
                }
                raw.push(piece);
                proof {
                    assert(raw.deep_view() =~= before.push(piece@));
                    assert(before.push(piece@) =~= before + seq![piece@]);
                }
                trailing_piece = true;
            },
        }
    }
    proof {
        if !trailing_piece {
            assert(s@.skip(n as int) =~= Seq::<char>::empty());
            assert(split_char_spec(Seq::<char>::empty(), '\n') == seq![
                Seq::<char>::empty()
            ]);
        }
        if n == 0 {
            assert(raw.deep_view() =~= Seq::<Seq<char>>::empty());
        }
    }
    let out = strip_cr_all(&raw);
    proof {
        if n > 0 {
            let parts = split_char_spec(s@, '\n');
            if trailing_piece {
                assert(parts.last().len() > 0);
            } else {
                assert(parts =~= raw.deep_view() + seq![Seq::<char>::empty()]);
                assert(parts.last().len() == 0);
                assert(parts.drop_last() =~= raw.deep_view());
            }
        } else {
            assert(out.deep_view() =~= Seq::<Seq<char>>::empty());
        }
    }
    out
}

/// Removes one trailing carriage return from every line.
fn strip_cr_all(raw: &Vec<String>) -> (out: Vec<String>)
    ensures
        out.deep_view() == raw.deep_view().map_values(|l: Seq<char>| strip_cr(l)),
{
    let mut out: Vec<String> = Vec::new();
    let mut k: usize = 0;
    proof {
        assert(out.deep_view() =~= raw.deep_view().take(0).map_values(
            |l: Seq<char>| strip_cr(l),
        ));
    }
    while k < raw.len()
        invariant
            0 <= k <= raw.len(),
            out.deep_view() == raw.deep_view().take(k as int).map_values(
                |l: Seq<char>| strip_cr(l),
            ),
        decreases raw.len() - k,
    {
        let ghost before = out.deep_view();
        let line = strip_cr_exec(&raw[k]);
        out.push(line);
        proof {
            assert(out.deep_view() =~= before.push(strip_cr(raw.deep_view()[
                k as int
            ])));
            assert(raw.deep_view().take(k + 1).map_values(
                |l: Seq<char>| strip_cr(l),
            ) =~= before.push(strip_cr(raw.deep_view()[k as int])));
        }
        k = k + 1;
    }
    proof {
        assert(raw.deep_view().take(raw.len() as int) =~= raw.deep_view());
    }
    out
}

fn strip_cr_exec(line: &String) -> (r: String)
    ensures
        r@ == strip_cr(line@),
{
    let n = line.as_str().unicode_len();
    if n > 0 && line.as_str().get_char(n - 1) == '\r' {
        let r = line.as_str().substring_char(0, n - 1).to_owned();
        proof {
            assert(r@ =~= line@.drop_last());
        }
        r
    } else {
        line.clone()
    }
}

// ---------------------------------------------------------------------------
// prefix stripping
// ---------------------------------------------------------------------------

/// `str::trim_start_matches` with a single-character pattern.
pub open spec fn strip_leading_spec(s: Seq<char>, c: char) -> Seq<char>
    decreases s.len(),
{
    if s.len() > 0 && s[0] == c {
        strip_leading_spec(s.drop_first(), c)
    } else {
        s
    }
}

proof fn lemma_strip_leading_skip(s: Seq<char>, c: char, i: int)
    requires
        0 <= i <= s.len(),
        forall|j: int| 0 <= j < i ==> s[j] == c,
    ensures
        strip_leading_spec(s, c) == strip_leading_spec(s.skip(i), c),
    decreases i,
{
    if i == 0 {
        assert(s.skip(0) =~= s);
    } else {
        assert(s.drop_first() =~= s.skip(1));
        lemma_strip_leading_skip(s.skip(1), c, i - 1);
        assert(s.skip(1).skip(i - 1) =~= s.skip(i));
    }
}

pub fn strip_leading<'a>(s: &'a str, c: char) -> (r: &'a str)
    ensures
        r@ == strip_leading_spec(s@, c),
{
    let n = s.unicode_len();
    let mut i: usize = 0;
    while i < n && s.get_char(i) == c
        invariant
            0 <= i <= n,
            n == s@.len(),
            forall|j: int| 0 <= j < i ==> s@[j] == c,
        decreases n - i,
    {
        i = i + 1;
    }
    proof {
        lemma_strip_leading_skip(s@, c, i as int);
        if i < n {
            assert(strip_leading_spec(s@.skip(i as int), c) == s@.skip(i as int));
        } else {
            assert(s@.skip(i as int) =~= Seq::<char>::empty());
        }
        assert(s@.subrange(i as int, n as int) =~= s@.skip(i as int));
    }
    s.substring_char(i, n)
}

/// Strips one leading occurrence of `c`, as `str::strip_prefix` does,
/// returning the input unchanged when it does not start with `c`.
pub open spec fn strip_one_spec(s: Seq<char>, c: char) -> Seq<char> {
    if s.len() > 0 && s[0] == c {
        s.drop_first()
    } else {
        s
    }
}

pub fn strip_one<'a>(s: &'a str, c: char) -> (r: &'a str)
    ensures
        r@ == strip_one_spec(s@, c),
{
    let n = s.unicode_len();
    if n > 0 && s.get_char(0) == c {
        let r = s.substring_char(1, n);
        proof {
            assert(r@ =~= s@.drop_first());
        }
        r
    } else {
        s
    }
}

/// Longest prefix made only of decimal digits and dots: how the parsers
/// cut a version token out of trailing annotations.
pub open spec fn digits_dots_prefix_len(s: Seq<char>) -> nat
    decreases s.len(),
{
    if s.len() > 0 && (is_digit_char(s[0]) || s[0] == '.') {
        1 + digits_dots_prefix_len(s.drop_first())
    } else {
        0
    }
}

proof fn lemma_digits_dots_prefix_len_is(s: Seq<char>, k: int)
    requires
        0 <= k <= s.len(),
        forall|j: int| 0 <= j < k ==> (is_digit_char(s[j]) || s[j] == '.'),
        k == s.len() || !(is_digit_char(s[k]) || s[k] == '.'),
    ensures
        digits_dots_prefix_len(s) == k,
    decreases k,
{
    if k > 0 {
        lemma_digits_dots_prefix_len_is(s.drop_first(), k - 1);
    }
}

pub fn take_digits_dots<'a>(s: &'a str) -> (r: &'a str)
    ensures
        r@ == s@.take(digits_dots_prefix_len(s@) as int),
        r@.len() == digits_dots_prefix_len(s@),
{
    let n = s.unicode_len();
    let mut i: usize = 0;
    while i < n && (is_digit(s.get_char(i)) || s.get_char(i) == '.')
        invariant
            0 <= i <= n,
            n == s@.len(),
            forall|j: int| 0 <= j < i ==> (is_digit_char(s@[j]) || s@[j] == '.'),
        decreases n - i,
    {
        i = i + 1;
    }
    proof {
        lemma_digits_dots_prefix_len_is(s@, i as int);
        assert(s@.subrange(0, i as int) =~= s@.take(i as int));
    }
    s.substring_char(0, i)
}

// ---------------------------------------------------------------------------
// decimal numbers
// ---------------------------------------------------------------------------

pub open spec fn digit_char(d: nat) -> char {
    if d == 0 {
        '0'
    } else if d == 1 {
        '1'
    } else if d == 2 {
        '2'
    } else if d == 3 {
        '3'
    } else if d == 4 {
        '4'
    } else if d == 5 {
        '5'
    } else if d == 6 {
        '6'
    } else if d == 7 {
        '7'
    } else if d == 8 {
        '8'
    } else {
        '9'
    }
}

fn digit_to_char(d: u32) -> (c: char)
    requires
        d < 10,
    ensures
        c == digit_char(d as nat),
{
    match d {
        0 => '0',
        1 => '1',
        2 => '2',
        3 => '3',
        4 => '4',
        5 => '5',
        6 => '6',
        7 => '7',
        8 => '8',
        _ => '9',
    }
}

/// The decimal digit string of `n`, most significant digit first.
pub open spec fn dec_digits(n: nat) -> Seq<char>
    decreases n,
{
    if n < 10 {
        seq![digit_char(n)]
    } else {
        dec_digits(n / 10).push(digit_char(n % 10))
    }
}

pub open spec fn all_digits(s: Seq<char>) -> bool {
    forall|j: int| 0 <= j < s.len() ==> is_digit_char(s[j])
}

/// Value of a digit string read in base ten.
pub open spec fn dec_val(s: Seq<char>) -> nat
    decreases s.len(),
{
    if s.len() == 0 {
        0
    } else {
        dec_val(s.drop_last()) * 10 + digit_val(s.last())
    }
}

pub proof fn lemma_dec_digits(n: nat)
    ensures
        dec_digits(n).len() >= 1,
        all_digits(dec_digits(n)),
        dec_val(dec_digits(n)) == n,
    decreases n,
{
    if n < 10 {
        let s = dec_digits(n);
        assert(s == seq![digit_char(n)]);
        assert(s.drop_last() =~= Seq::<char>::empty());
        assert(s.last() == digit_char(n));
        assert(dec_val(Seq::<char>::empty()) == 0);
        assert(dec_val(s) == dec_val(s.drop_last()) * 10 + digit_val(s.last()));
        assert(is_digit_char(digit_char(n)) && digit_val(digit_char(n)) == n);
    } else {
        lemma_dec_digits(n / 10);
        let hi = dec_digits(n / 10);
        let s = hi.push(digit_char(n % 10));
        assert(s.drop_last() =~= hi);
        assert(s.last() == digit_char(n % 10));
        assert(digit_val(digit_char(n % 10)) == n % 10);
        assert(dec_val(s) == (n / 10) * 10 + n % 10);
        assert((n / 10) * 10 + n % 10 == n) by {
            vstd::arithmetic::div_mod::lemma_fundamental_div_mod(n as int, 10);
        }
        assert(forall|j: int| 0 <= j < s.len() ==> is_digit_char(#[trigger] s[j]));
    }
}

proof fn lemma_dec_val_prefix_le(s: Seq<char>, i: int, j: int)
    requires
        0 <= i <= j <= s.len(),
    ensures
        dec_val(s.take(i)) <= dec_val(s.take(j)),
    decreases j - i,
{
    if i < j {
        lemma_dec_val_prefix_le(s, i, j - 1);
        let a = s.take(j - 1);
        let b = s.take(j);
        assert(b.drop_last() =~= a);
        assert(dec_val(b) == dec_val(a) * 10 + digit_val(b.last()));
    }
}

/// `None` exactly on the empty string, a non-digit, or overflow of `u32`.
pub open spec fn parse_u32_spec(s: Seq<char>) -> Option<u32> {
    if s.len() > 0 && all_digits(s) && dec_val(s) <= u32::MAX {
        Some(dec_val(s) as u32)
    } else {
        None
    }
}

pub fn parse_u32(s: &str) -> (r: Option<u32>)
    ensures
        r == parse_u32_spec(s@),
{
    let n = s.unicode_len();
    if n == 0 {
        return None;
    }
    let mut acc: u64 = 0;
    let mut i: usize = 0;
    while i < n
        invariant
            0 <= i <= n,
            n == s@.len(),
            all_digits(s@.take(i as int)),
            acc == dec_val(s@.take(i as int)),
            acc <= u32::MAX,
        decreases n - i,
    {
        let c = s.get_char(i);
        if !is_digit(c) {
            assert(!all_digits(s@));
            return None;
        }
        let d = (c as u32) - 48;
        let next: u64 = acc * 10 + (d as u64);
        proof {
            assert(s@.take(i + 1).drop_last() =~= s@.take(i as int));
            assert(s@.take(i + 1).last() == s@[i as int]);
        }
        if next > 0xffff_ffff {
            proof {
                lemma_dec_val_prefix_le(s@, i + 1, n as int);
                assert(s@.take(n as int) =~= s@);
            }
            return None;
        }
        acc = next;
        i = i + 1;
    }
    proof {
        assert(s@.take(n as int) =~= s@);
    }
    Some(acc as u32)
}

/// Turns a vector of characters into the string holding exactly them.
/// Relies on `String`'s `FromIterator` implementation: collecting
/// characters yields the string of those characters in order.
#[verifier::external_body]
pub fn chars_to_string(v: &Vec<char>) -> (s: String)
    ensures
        s@ == v@,
{
    v.iter().collect()
}

fn push_dec_digits(n: u32, out: &mut Vec<char>)
    ensures
        final(out)@ == old(out)@ + dec_digits(n as nat),
    decreases n,
{
    if n < 10 {
        out.push(digit_to_char(n));
        proof {
            assert(out@ =~= old(out)@ + dec_digits(n as nat));
        }
        // single digit appended

    } else {
        push_dec_digits(n / 10, out);
        out.push(digit_to_char(n % 10));
        proof {
            assert(out@ =~= old(out)@ + dec_digits(n as nat));
        }
    }
}

/// Decimal rendering of `n`, no sign and no padding.
pub fn u32_to_string(n: u32) -> (s: String)
    ensures
        s@ == dec_digits(n as nat),
{
    let mut v: Vec<char> = Vec::new();
    push_dec_digits(n, &mut v);
    proof {
        assert(Seq::<char>::empty() + dec_digits(n as nat) =~= dec_digits(n as nat));
    }
    chars_to_string(&v)
}


/// Spec-level first occurrence of `sub` in `s`.
pub open spec fn find_sub_spec(s: Seq<char>, sub: Seq<char>) -> Option<int>
    decreases s.len(),
{
    if s.len() < sub.len() {
        None
    } else if s.take(sub.len() as int) == sub {
        Some(0)
    } else if s.len() == 0 {
        None
    } else {
        match find_sub_spec(s.drop_first(), sub) {
            Some(i) => Some(i + 1),
            None => None,
        }
    }
}

pub proof fn lemma_find_sub_spec_at(s: Seq<char>, sub: Seq<char>, i: int)
    requires
        0 <= i,
        i + sub.len() <= s.len(),
        s.subrange(i, i + sub.len()) == sub,
        forall|j: int|
            0 <= j < i ==> #[trigger] s.subrange(j, j + sub.len()) != sub,
    ensures
        find_sub_spec(s, sub) == Some(i),
    decreases i,
{
    if i == 0 {
        assert(s.take(sub.len() as int) =~= s.subrange(0, sub.len() as int));
    } else {
        assert(s.subrange(0, 0 + sub.len() as int) != sub);
        assert(s.subrange(0, sub.len() as int) =~= s.take(sub.len() as int));
        assert(s.take(sub.len() as int) != sub);
        let s1 = s.drop_first();
        assert forall|j: int| 0 <= j < i - 1 implies #[trigger] s1.subrange(
            j,
            j + sub.len(),
        ) != sub by {
            assert(s1.subrange(j, j + sub.len()) =~= s.subrange(
                j + 1,
                j + 1 + sub.len(),
            ));
        }
        assert(s1.subrange(i - 1, i - 1 + sub.len()) =~= s.subrange(
            i,
            i + sub.len(),
        ));
        lemma_find_sub_spec_at(s1, sub, i - 1);
    }
}

pub proof fn lemma_find_sub_spec_none(s: Seq<char>, sub: Seq<char>)
    requires
        forall|j: int|
            0 <= j && j + sub.len() <= s.len() ==> #[trigger] s.subrange(
                j,
                j + sub.len(),
            ) != sub,
    ensures
        find_sub_spec(s, sub) is None,
    decreases s.len(),
{
    if s.len() >= sub.len() {
        assert(s.subrange(0, 0 + sub.len() as int) != sub);
        assert(s.take(sub.len() as int) =~= s.subrange(0, sub.len() as int));
        if s.len() > 0 {
            let s1 = s.drop_first();
            assert forall|j: int|
                0 <= j && j + sub.len() <= s1.len() implies #[trigger] s1.subrange(
                j,
                j + sub.len(),
            ) != sub by {
                assert(s1.subrange(j, j + sub.len()) =~= s.subrange(
                    j + 1,
                    j + 1 + sub.len(),
                ));
            }
            lemma_find_sub_spec_none(s1, sub);
        }
    }
}

/// `find_sub_at` from the start, tied to `find_sub_spec`.
pub fn find_sub(s: &str, sub: &str) -> (r: Option<usize>)
    ensures
        match r {
            Some(i) => find_sub_spec(s@, sub@) == Some(i as int) && i + sub@.len()
                <= s@.len(),
            None => find_sub_spec(s@, sub@) is None,
        },
{
    match find_sub_at(s, 0, sub) {
        Some(i) => {
            proof {
                lemma_find_sub_spec_at(s@, sub@, i as int);
            }
            Some(i)
        },
        None => {
            proof {
                lemma_find_sub_spec_none(s@, sub@);
            }
            None
        },
    }
}

/// `str::trim_end_matches` with a single-character pattern.
pub open spec fn strip_trailing_spec(s: Seq<char>, c: char) -> Seq<char>
    decreases s.len(),
{
    if s.len() > 0 && s.last() == c {
        strip_trailing_spec(s.drop_last(), c)
    } else {
        s
    }
}

proof fn lemma_strip_trailing_take(s: Seq<char>, c: char, i: int)
    requires
        0 <= i <= s.len(),
        forall|j: int| i <= j < s.len() ==> s[j] == c,
    ensures
        strip_trailing_spec(s, c) == strip_trailing_spec(s.take(i), c),
    decreases s.len() - i,
{
    if i == s.len() {
        assert(s.take(i) =~= s);
    } else {
        assert(s.drop_last() =~= s.take(s.len() - 1));
        lemma_strip_trailing_take(s.take(s.len() - 1), c, i);
        assert(s.take(s.len() - 1).take(i) =~= s.take(i));
    }
}

pub fn strip_trailing<'a>(s: &'a str, c: char) -> (r: &'a str)
    ensures
        r@ == strip_trailing_spec(s@, c),
{
    let n = s.unicode_len();
    let mut end: usize = n;
    while end > 0 && s.get_char(end - 1) == c
        invariant
            0 <= end <= n,
            n == s@.len(),
            forall|j: int| end <= j < n ==> s@[j] == c,
        decreases end,
    {
        end = end - 1;
    }
    proof {
        lemma_strip_trailing_take(s@, c, end as int);
        if end > 0 {
            assert(s@.take(end as int).last() != c);
            assert(strip_trailing_spec(s@.take(end as int), c) == s@.take(
                end as int,
            ));
        } else {
            assert(s@.take(0) =~= Seq::<char>::empty());
        }
        assert(s@.subrange(0, end as int) =~= s@.take(end as int));
    }
    s.substring_char(0, end)
}


/// Spec-level first occurrence of the character `c`.
pub open spec fn find_char_spec(s: Seq<char>, c: char) -> Option<int>
    decreases s.len(),
{
    if s.len() == 0 {
        None
    } else if s[0] == c {
        Some(0)
    } else {
        match find_char_spec(s.drop_first(), c) {
            Some(i) => Some(i + 1),
            None => None,
        }
    }
}

pub proof fn lemma_find_char_spec_at(s: Seq<char>, c: char, i: int)
    requires
        0 <= i < s.len(),
        s[i] == c,
        forall|j: int| 0 <= j < i ==> s[j] != c,
    ensures
        find_char_spec(s, c) == Some(i),
    decreases i,
{
    if i > 0 {
        lemma_find_char_spec_at(s.drop_first(), c, i - 1);
    }
}

pub proof fn lemma_find_char_spec_none(s: Seq<char>, c: char)
    requires
        forall|j: int| 0 <= j < s.len() ==> s[j] != c,
    ensures
        find_char_spec(s, c) is None,
    decreases s.len(),
{
    if s.len() > 0 {
        lemma_find_char_spec_none(s.drop_first(), c);
    }
}

/// First occurrence of `c`, tied to `find_char_spec`.
pub fn find_char(s: &str, c: char) -> (r: Option<usize>)
    ensures
        match r {
            Some(i) => find_char_spec(s@, c) == Some(i as int) && i < s@.len(),
            None => find_char_spec(s@, c) is None,
        },
{
    match find_char_at(s, 0, c) {
        Some(i) => {
            proof {
                lemma_find_char_spec_at(s@, c, i as int);
            }
            Some(i)
        },
        None => {
            proof {
                lemma_find_char_spec_none(s@, c);
            }
            None
        },
    }
}


/// `str::trim_start_matches` with a multi-character pattern: strips
/// every repetition of `p` off the front.
pub open spec fn strip_prefix_rep_spec(s: Seq<char>, p: Seq<char>) -> Seq<char>
    decreases s.len(),
    via strip_prefix_rep_decreases
{
    if p.len() > 0 && has_prefix(s, p) {
        strip_prefix_rep_spec(s.skip(p.len() as int), p)
    } else {
        s
    }
}

#[via_fn]
proof fn strip_prefix_rep_decreases(s: Seq<char>, p: Seq<char>) {
    if p.len() > 0 && has_prefix(s, p) {
        assert(s.skip(p.len() as int).len() < s.len());
    }
}

/// Does `p` occur at position `i` of `s`?
pub fn has_prefix_at(s: &str, i: usize, p: &str) -> (r: bool)
    requires
        i <= s@.len(),
    ensures
        r == has_prefix(s@.skip(i as int), p@),
{
    let n = s.unicode_len();
    let m = p.unicode_len();
    if m > n - i {
        return false;
    }
    let mut k: usize = 0;
    while k < m
        invariant
            0 <= k <= m,
            i + m <= n,
            n == s@.len(),
            m == p@.len(),
            forall|j: int| 0 <= j < k ==> s@[i + j] == p@[j],
        decreases m - k,
    {
        if s.get_char(i + k) != p.get_char(k) {
            proof {
                assert(s@.skip(i as int).take(m as int)[k as int] != p@[k as int]);
            }
            return false;
        }
        k = k + 1;
    }
    proof {
        assert(s@.skip(i as int).take(m as int) =~= p@);
    }
    true
}

pub fn strip_prefix_rep<'a>(s: &'a str, p: &'a str) -> (r: &'a str)
    ensures
        r@ == strip_prefix_rep_spec(s@, p@),
{
    let n = s.unicode_len();
    let m = p.unicode_len();
    if m == 0 {
        return s;
    }
    let mut i: usize = 0;
    proof {
        assert(s@.skip(0) =~= s@);
    }
    while i < n && has_prefix_at(s, i, p)
        invariant
            0 <= i <= n,
            n == s@.len(),
            m == p@.len(),
            m >= 1,
            strip_prefix_rep_spec(s@, p@) == strip_prefix_rep_spec(
                s@.skip(i as int),
                p@,
            ),
        decreases n - i,
    {
        proof {
            assert(has_prefix(s@.skip(i as int), p@));
            assert(s@.skip(i as int).skip(m as int) =~= s@.skip(i + m));
            assert(strip_prefix_rep_spec(s@.skip(i as int), p@)
                == strip_prefix_rep_spec(s@.skip(i + m), p@));
        }
        i = i + m;
    }
    proof {
        if i < n {
            assert(!has_prefix(s@.skip(i as int), p@));
        } else {
            assert(s@.skip(i as int) =~= Seq::<char>::empty());
            if has_prefix(Seq::<char>::empty(), p@) {
                assert(false);
            }
        }
        assert(strip_prefix_rep_spec(s@.skip(i as int), p@) == s@.skip(i as int));
        assert(s@.subrange(i as int, n as int) =~= s@.skip(i as int));
    }
    s.substring_char(i, n)
}


pub open spec fn has_suffix(s: Seq<char>, suf: Seq<char>) -> bool {
    suf.len() <= s.len() && s.skip(s.len() - suf.len()) == suf
}

pub fn ends_with(s: &str, suf: &str) -> (r: bool)
    ensures
        r == has_suffix(s@, suf@),
{
    let n = s.unicode_len();
    let m = suf.unicode_len();
    if m > n {
        return false;
    }
    let mut i: usize = 0;
    while i < m
        invariant
            0 <= i <= m <= n,
            n == s@.len(),
            m == suf@.len(),
            forall|j: int| 0 <= j < i ==> s@[n - m + j] == suf@[j],
        decreases m - i,
    {
        if s.get_char(n - m + i) != suf.get_char(i) {
            proof {
                assert(s@.skip(n - m)[i as int] != suf@[i as int]);
            }
            return false;
        }
        i = i + 1;
    }
    proof {
        assert(s@.skip(n - m) =~= suf@);
    }
    true
}

/// The last position holding either path separator.
pub open spec fn last_sep_spec(s: Seq<char>) -> Option<int>
    decreases s.len(),
{
    if s.len() == 0 {
        None
    } else if s.last() == '/' || s.last() == '\\' {
        Some(s.len() - 1)
    } else {
        last_sep_spec(s.drop_last())
    }
}

proof fn lemma_last_sep_at(s: Seq<char>, i: int)
    requires
        0 <= i < s.len(),
        s[i] == '/' || s[i] == '\\',
        forall|j: int| i < j < s.len() ==> s[j] != '/' && s[j] != '\\',
    ensures
        last_sep_spec(s) == Some(i),
    decreases s.len(),
{
    if i < s.len() - 1 {
        assert(s.drop_last()[i] == s[i]);
        lemma_last_sep_at(s.drop_last(), i);
    }
}

proof fn lemma_last_sep_none(s: Seq<char>)
    requires
        forall|j: int| 0 <= j < s.len() ==> s[j] != '/' && s[j] != '\\',
    ensures
        last_sep_spec(s) is None,
    decreases s.len(),
{
    if s.len() > 0 {
        lemma_last_sep_none(s.drop_last());
    }
}

/// Everything before the last path separator, as a path's parent.
pub open spec fn parent_dir_spec(s: Seq<char>) -> Option<Seq<char>> {
    match last_sep_spec(s) {
        Some(i) => Some(s.take(i)),
        None => None,
    }
}

pub fn parent_dir(s: &str) -> (r: Option<String>)
    ensures
        r.deep_view() == parent_dir_spec(s@),
{
    let n = s.unicode_len();
    let mut i: usize = n;
    while i > 0
        invariant
            0 <= i <= n,
            n == s@.len(),
            forall|j: int| i <= j < n ==> s@[j] != '/' && s@[j] != '\\',
        decreases i,
    {
        let c = s.get_char(i - 1);
        if c == '/' || c == '\\' {
            let p = s.substring_char(0, i - 1);
            proof {
                lemma_last_sep_at(s@, i - 1);
                assert(p@ =~= s@.take(i - 1));
            }
            return Some(p.to_owned());
        }
        i = i - 1;
    }
    proof {
        lemma_last_sep_none(s@);
    }
    None
}

/// Concatenation with single spaces between the parts.
pub open spec fn join_space_spec(parts: Seq<Seq<char>>) -> Seq<char>
    decreases parts.len(),
{
    if parts.len() == 0 {
        Seq::empty()
    } else if parts.len() == 1 {
        parts[0]
    } else {
        parts[0] + seq![' '] + join_space_spec(parts.drop_first())
    }
}

proof fn lemma_join_space_push(parts: Seq<Seq<char>>, last: Seq<char>)
    requires
        parts.len() > 0,
    ensures
        join_space_spec(parts.push(last)) == join_space_spec(parts) + seq![' ']
            + last,
    decreases parts.len(),
{
    let p2 = parts.push(last);
    if parts.len() == 1 {
        assert(p2.drop_first() =~= seq![last]);
        assert(p2.len() == 2);
        assert(p2[0] == parts[0]);
        assert(join_space_spec(seq![last]) == seq![last][0]);
        assert(seq![last][0] == last);
        assert(join_space_spec(p2) == p2[0] + seq![' '] + join_space_spec(
            p2.drop_first(),
        ));
    } else {
        assert(p2.drop_first() =~= parts.drop_first().push(last));
        lemma_join_space_push(parts.drop_first(), last);
        assert(parts[0] + seq![' '] + (join_space_spec(parts.drop_first())
            + seq![' '] + last) =~= (parts[0] + seq![' '] + join_space_spec(
            parts.drop_first(),
        )) + seq![' '] + last);
    }
}

pub fn join_space(parts: &Vec<String>) -> (r: String)
    ensures
        r@ == join_space_spec(parts.deep_view()),
{
    let n = parts.len();
    let mut out = String::new();
    if n == 0 {
        return out;
    }
    out.append(parts[0].as_str());
    proof {
        assert(Seq::<char>::empty() + parts.deep_view()[0] =~= parts.deep_view()[
            0
        ]);
        assert(parts.deep_view().take(1) =~= seq![parts.deep_view()[0]]);
    }
    let mut i: usize = 1;
    while i < n
        invariant
            1 <= i <= n,
            n == parts@.len(),
            out@ == join_space_spec(parts.deep_view().take(i as int)),
        decreases n - i,
    {
        out.append(" ");
        out.append(parts[i].as_str());
        proof {
            reveal_strlit(" ");
            let pv = parts.deep_view();
            assert(pv.take(i as int).len() > 0);
            lemma_join_space_push(pv.take(i as int), pv[i as int]);
            assert(pv.take(i + 1) =~= pv.take(i as int).push(pv[i as int]));
            assert(out@ =~= join_space_spec(pv.take(i as int)) + seq![' '] + pv[
                i as int
            ]);
        }
        i = i + 1;
    }
    proof {
        assert(parts.deep_view().take(n as int) =~= parts.deep_view());
    }
    out
}


} // verus!
