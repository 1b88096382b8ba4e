//! Discovery of bridged Linux environments: decoding the bridge tool's
//! console output, which may arrive as UTF-16LE with embedded NULs, and
//! parsing its tabular distribution listing.  Running the tool itself,
//! and shelling into a distribution, happen outside.

use vstd::prelude::*;

use crate::text::{chars_to_string, parse_u32_spec, parse_u32, split_lines,
    split_ws, split_ws_spec, str_eq, strip_leading, strip_leading_spec,
    lines_spec, trim_spec, trim_str};

verus! {

/// One bridged Linux distribution, as the bridge tool lists it.
#[derive(Debug, Clone)]
pub struct WslDistro {
    pub name: String,
    pub is_default: bool,
    pub version: u8,
    pub backend_path: Option<String>,
    pub is_running: bool,
}

pub ghost struct WslDistroView {
    pub name: Seq<char>,
    pub is_default: bool,
    pub version: u8,
    pub backend_path: Option<Seq<char>>,
    pub is_running: bool,
}

impl View for WslDistro {
    type V = WslDistroView;

    open spec fn view(&self) -> WslDistroView {
        WslDistroView {
            name: self.name@,
            is_default: self.is_default,
            version: self.version,
            backend_path: self.backend_path.deep_view(),
            is_running: self.is_running,
        }
    }
}

impl DeepView for WslDistro {
    type V = WslDistroView;

    open spec fn deep_view(&self) -> WslDistroView {
        self.view()
    }
}

/// Failure of a bridged invocation.
#[derive(Debug, Clone)]
pub enum WslError {
    NotAvailable,
    CommandFailed { stderr: String },
    IoError(String),
}

// ---------------------------------------------------------------------------
// output decoding
// ---------------------------------------------------------------------------

/// The characters `String::from_utf16_lossy` reads out of these code
/// units; it depends on the units alone.
pub uninterp spec fn utf16_lossy_of(units: Seq<u16>) -> Seq<char>;

/// The characters `String::from_utf8_lossy` reads out of these bytes;
/// it depends on the bytes alone.
pub uninterp spec fn utf8_lossy_of(bytes: Seq<u8>) -> Seq<char>;

/// Relies on `String::from_utf16_lossy`: the result is a function of
/// the code units alone, and no units decode to no characters.
#[verifier::external_body]
fn utf16_lossy(units: &Vec<u16>) -> (r: String)
    ensures
        r@ == utf16_lossy_of(units@),
        units@.len() == 0 ==> r@.len() == 0,
{
    String::from_utf16_lossy(units)
}

/// Relies on `String::from_utf8_lossy`: the result is a function of the
/// bytes alone, and no bytes decode to no characters.
#[verifier::external_body]
fn utf8_lossy(bytes: &[u8]) -> (r: String)
    ensures
        r@ == utf8_lossy_of(bytes@),
        bytes@.len() == 0 ==> r@.len() == 0,
{
    String::from_utf8_lossy(bytes).to_string()
}

/// The bridge tool emits UTF-16LE on some hosts: even length and a zero
/// in some high byte make that likely.
pub open spec fn looks_utf16le(b: Seq<u8>) -> bool {
    b.len() >= 2 && b.len() % 2 == 0 && exists|i: int|
        0 <= i && 2 * i + 1 < b.len() && #[trigger] b[2 * i + 1] == 0
}

/// The code units of a little-endian byte stream.
pub open spec fn u16s_of(b: Seq<u8>) -> Seq<u16> {
    Seq::new((b.len() / 2) as nat, |i: int| (b[2 * i] + 256 * b[2 * i + 1]) as u16)
}

pub open spec fn decode_wsl_spec(b: Seq<u8>) -> Seq<char> {
    if looks_utf16le(b) && utf16_lossy_of(u16s_of(b)).len() > 0 {
        utf16_lossy_of(u16s_of(b))
    } else {
        utf8_lossy_of(b)
    }
}

/// Decodes raw bridge-tool output: tries UTF-16LE when the bytes look
/// like it and the decode yields anything, else falls back to UTF-8.
pub fn decode_wsl_output(bytes: &[u8]) -> (r: String)
    ensures
        r@ == decode_wsl_spec(bytes@),
{
    let n = bytes.len();
    let mut high_zero: bool = false;
    let mut i: usize = 0;
    while i + 1 < n
        invariant
            0 <= i,
            i % 2 == 0,
            n == bytes@.len(),
            high_zero ==> looks_utf16le(bytes@) || !(n >= 2 && n % 2 == 0),
            high_zero ==> exists|k: int|
                0 <= k && 2 * k + 1 < n && #[trigger] bytes@[2 * k + 1] == 0,
            !high_zero ==> forall|k: int|
                0 <= k && 2 * k + 1 < i ==> #[trigger] bytes@[2 * k + 1] != 0,
        decreases n - i,
    {
        if bytes[i + 1] == 0 {
            proof {
                let k = i as int / 2;
                assert(2 * k + 1 < n && bytes@[2 * k + 1] == 0);
            }
            high_zero = true;
        }
        i = i + 2;
    }
    let utf16_likely = n >= 2 && n % 2 == 0 && high_zero;
    proof {
        if !utf16_likely && n >= 2 && n % 2 == 0 {
            if looks_utf16le(bytes@) {
                let k = choose|k: int|
                    0 <= k && 2 * k + 1 < n && #[trigger] bytes@[2 * k + 1] == 0;
                assert(2 * k + 1 < i);
                assert(false);
            }
        }
        assert(utf16_likely == looks_utf16le(bytes@));
    }
    if utf16_likely {
        let half = n / 2;
        let mut units: Vec<u16> = Vec::new();
        let mut j: usize = 0;
        while j < half
            invariant
                0 <= j <= half,
                half == n / 2,
                n == bytes@.len(),
                2 * half <= n,
                units@.len() == j,
                forall|k: int|
                    0 <= k < j ==> units@[k] == (bytes@[2 * k] + 256 * bytes@[2 * k
                        + 1]) as u16,
            decreases half - j,
        {
            let lo = bytes[2 * j];
            let hi = bytes[2 * j + 1];
            let unit: u16 = (lo as u16) + 256 * (hi as u16);
            units.push(unit);
            j = j + 1;
        }
        proof {
            assert(units@ =~= u16s_of(bytes@));
        }
        let decoded = utf16_lossy(&units);
        if decoded.as_str().unicode_len() > 0 {
            return decoded;
        }
    }
    utf8_lossy(bytes)
}

// ---------------------------------------------------------------------------
// distribution listing
// ---------------------------------------------------------------------------

/// Every NUL that UTF-16 mis-decoding leaves behind is dropped.
pub open spec fn remove_nul(s: Seq<char>) -> Seq<char> {
    s.filter(|c: char| c != '\u{0}')
}

fn remove_nul_exec(s: &str) -> (r: String)
    ensures
        r@ == remove_nul(s@),
{
    let ghost pred = |c: char| c != '\u{0}';
    let n = s.unicode_len();
    let mut out: Vec<char> = Vec::new();
    let mut i: usize = 0;
    proof {
        broadcast use Seq::lemma_filter_push;

        reveal(Seq::filter);
        assert(s@.take(0) =~= Seq::<char>::empty());
        assert(out@ =~= Seq::<char>::empty().filter(pred));
    }
    while i < n
        invariant
            0 <= i <= n,
            n == s@.len(),
            pred == (|c: char| c != '\u{0}'),
            out@ == s@.take(i as int).filter(pred),
        decreases n - i,
    {
        let c = s.get_char(i);
        proof {
            broadcast use Seq::lemma_filter_push;

            assert(s@.take(i + 1) =~= s@.take(i as int).push(s@[i as int]));
        }
        if c != '\u{0}' {
            let ghost before = out@;
            out.push(c);
            proof {
                assert(out@ =~= before.push(c));
            }
        }
        i = i + 1;
    }
    proof {
        assert(s@.take(n as int) =~= s@);
    }
    chars_to_string(&out)
}

pub open spec fn parse_u8_or_two(s: Seq<char>) -> u8 {
    match parse_u32_spec(s) {
        Some(v) => if v <= 255 {
            v as u8
        } else {
            2
        },
        None => 2,
    }
}

/// What one listing row contributes: a `*` marks the default, the first
/// column names the distribution, the third is its version where
/// present, and the name decides whether it is running.
pub open spec fn wsl_line_spec(line: Seq<char>, running: Seq<Seq<char>>) -> Option<
    WslDistroView,
> {
    let l = remove_nul(trim_spec(line));
    if l.len() == 0 {
        None
    } else {
        let rest = trim_spec(strip_leading_spec(l, '*'));
        let parts = split_ws_spec(rest);
        if parts.len() == 0 {
            None
        } else {
            Some(
                WslDistroView {
                    name: parts[0],
                    is_default: l[0] == '*',
                    version: if parts.len() >= 3 {
                        parse_u8_or_two(parts[2])
                    } else {
                        2
                    },
                    backend_path: None,
                    is_running: running.contains(parts[0]),
                },
            )
        }
    }
}

pub open spec fn wsl_list_body_spec(
    lines: Seq<Seq<char>>,
    running: Seq<Seq<char>>,
) -> Seq<WslDistroView>
    decreases lines.len(),
{
    if lines.len() == 0 {
        Seq::empty()
    } else {
        match wsl_line_spec(lines[0], running) {
            Some(d) => seq![d] + wsl_list_body_spec(lines.drop_first(), running),
            None => wsl_list_body_spec(lines.drop_first(), running),
        }
    }
}

/// The first line is the column header and never a distribution.
pub open spec fn wsl_list_spec(
    lines: Seq<Seq<char>>,
    running: Seq<Seq<char>>,
) -> Seq<WslDistroView> {
    if lines.len() == 0 {
        Seq::empty()
    } else {
        wsl_list_body_spec(lines.drop_first(), running)
    }
}

fn contains_str_slice(v: &[String], s: &str) -> (r: bool)
    ensures
        r == v.deep_view().contains(s@),
{
    let n = v.len();
    let mut i: usize = 0;
    while i < n
        invariant
            0 <= i <= n,
            n == v@.len(),
            forall|j: int| 0 <= j < i ==> v.deep_view()[j] != s@,
        decreases n - i,
    {
        if str_eq(v[i].as_str(), s) {
            proof {
                assert(v.deep_view()[i as int] == s@);
            }
            return true;
        }
        i = i + 1;
    }
    proof {
        if v.deep_view().contains(s@) {
            let j = choose|j: int|
                0 <= j < v.deep_view().len() && v.deep_view()[j] == s@;
            assert(false);
        }
    }
    false
}

fn wsl_line(line: &String, running: &[String]) -> (r: Option<WslDistro>)
    ensures
        r.deep_view() == wsl_line_spec(line@, running.deep_view()),
{
    let cleaned = remove_nul_exec(trim_str(line.as_str()));
    let l = cleaned.as_str();
    if l.unicode_len() == 0 {
        return None;
    }
    let is_default = l.get_char(0) == '*';
    let rest = trim_str(strip_leading(l, '*'));
    let parts = split_ws(rest);
    if parts.len() == 0 {
        return None;
    }
    let name = parts[0].clone();
    let version: u8 = if parts.len() >= 3 {
        match parse_u32(parts[2].as_str()) {
            Some(v) => if v <= 255 {
                v as u8
            } else {
                2
            },
            None => 2,
        }
    } else {
        2
    };
    let is_running = contains_str_slice(running, name.as_str());
    Some(WslDistro { name, is_default, version, backend_path: None, is_running })
}

/// Parses the bridge tool's verbose listing: the header row is skipped,
/// every remaining row that names a distribution yields one entry.
pub fn parse_wsl_list(output: &str, running_distros: &[String]) -> (r: Vec<
    WslDistro,
>)
    ensures
        r.deep_view() == wsl_list_spec(
            lines_spec(output@),
            running_distros.deep_view(),
        ),
{
    let ghost running = running_distros.deep_view();
    let lines = split_lines(output);
    let n = lines.len();
    let ghost all = lines.deep_view();
    let mut out: Vec<WslDistro> = Vec::new();
    if n == 0 {
        proof {
            assert(out.deep_view() =~= Seq::<WslDistroView>::empty());
        }
        return out;
    }
    let ghost body = all.drop_first();
    let mut i: usize = 1;
    proof {
        assert(out.deep_view() + wsl_list_body_spec(body, running)
            =~= wsl_list_body_spec(body, running));
        assert(body.skip(0) =~= body);
    }
    while i < n
        invariant
            1 <= i <= n,
            n == lines@.len(),
            all == lines.deep_view(),
            n >= 1,
            body == all.drop_first(),
            running == running_distros.deep_view(),
            wsl_list_body_spec(body, running) == out.deep_view()
                + wsl_list_body_spec(body.skip(i - 1), running),
        decreases n - i,
    {
        let ghost rem = body.skip(i - 1);
        let entry = wsl_line(&lines[i], running_distros);
        proof {
            assert(rem[0] == body[i - 1]);
            assert(body[i - 1] == all[i as int]);
            assert(rem.drop_first() =~= body.skip(i as int));
        }
        match entry {
            Some(d) => {
                let ghost before = out.deep_view();
                let ghost dv = d@;
                out.push(d);
                proof {
                    assert(out.deep_view() =~= before.push(dv));
                    assert(before.push(dv) + wsl_list_body_spec(
                        body.skip(i as int),
                        running,
                    ) =~= before + (seq![dv] + wsl_list_body_spec(
                        body.skip(i as int),
                        running,
                    )));
                }
            },
            None => {},
        }
        i = i + 1;
    }
    proof {
        assert(body.skip(n - 1) =~= Seq::<Seq<char>>::empty());
        assert(out.deep_view() + Seq::<WslDistroView>::empty() =~= out
            .deep_view());
    }
    out
}

} // verus!
