//! The execution service's reply: a JSON object with `success`, `stdout`
//! and `stderr`, read in any key order with JSON whitespace and string
//! escapes, and formatted into the user-facing report.
//!
//! The report always opens with the standard-error section; standard output
//! is appended only when the run succeeded.

use vstd::prelude::*;
use vstd::string::StrSliceExecFns;
use vstd::string::StringExecFns;

use crate::json::sp_bool;
use crate::json::parse_bool;
use crate::text::push_char;
use crate::text::str_eq;

verus! {

/// What the service reports for one run.
#[derive(Debug, PartialEq, Eq)]
pub struct PlaygroundResponse {
    pub success: bool,
    pub stdout: String,
    pub stderr: String,
}

/// The mathematical image of a [`PlaygroundResponse`].
#[verifier::ext_equal]
pub struct PlaygroundResponseV {
    pub success: bool,
    pub stdout: Seq<char>,
    pub stderr: Seq<char>,
}

impl View for PlaygroundResponse {
    type V = PlaygroundResponseV;

    open spec fn view(&self) -> PlaygroundResponseV {
        PlaygroundResponseV {
            success: self.success,
            stdout: self.stdout@,
            stderr: self.stderr@,
        }
    }
}

// ---------------------------------------------------------------------------
// Whitespace, hex digits, strings
// ---------------------------------------------------------------------------
/// JSON whitespace.
pub open spec fn is_ws(c: char) -> bool {
    c == ' ' || c == '\t' || c == '\n' || c == '\r'
}

/// The first position at or after `i` that holds no whitespace.
pub open spec fn sp_ws(s: Seq<char>, i: int) -> int
    decreases s.len() - i,
{
    if 0 <= i < s.len() && is_ws(s[i]) {
        sp_ws(s, i + 1)
    } else {
        i
    }
}

/// A hex digit, in either case.
pub open spec fn is_hex(c: char) -> bool {
    (48 <= c as int <= 57) || (97 <= c as int <= 102) || (65 <= c as int <= 70)
}

/// The value of a hex digit.
pub open spec fn hex_val(c: char) -> int {
    if 48 <= c as int <= 57 {
        c as int - 48
    } else if 97 <= c as int <= 102 {
        c as int - 87
    } else {
        c as int - 55
    }
}

/// The inside of a JSON string starting at `i` (just after the opening
/// quote): every plain character as itself, the short escapes, and
/// `\uXXXX` escapes up to the ASCII range; ends at the closing quote.
pub open spec fn sp_string_body(s: Seq<char>, i: int) -> Option<(Seq<char>, int)>
    decreases s.len() - i,
{
    if !(0 <= i < s.len()) {
        None
    } else if s[i] == '"' {
        Some((Seq::<char>::empty(), i + 1))
    } else if s[i] == '\\' {
        if i + 1 < s.len() {
            let e = s[i + 1];
            if e == '"' || e == '\\' || e == '/' {
                match sp_string_body(s, i + 2) {
                    None => None,
                    Some((rest, k)) => Some((seq![e] + rest, k)),
                }
            } else if e == 'n' {
                match sp_string_body(s, i + 2) {
                    None => None,
                    Some((rest, k)) => Some((seq!['\n'] + rest, k)),
                }
            } else if e == 'r' {
                match sp_string_body(s, i + 2) {
                    None => None,
                    Some((rest, k)) => Some((seq!['\r'] + rest, k)),
                }
            } else if e == 't' {
                match sp_string_body(s, i + 2) {
                    None => None,
                    Some((rest, k)) => Some((seq!['\t'] + rest, k)),
                }
            } else if e == 'b' {
                match sp_string_body(s, i + 2) {
                    None => None,
                    Some((rest, k)) => Some((seq!['\u{8}'] + rest, k)),
                }
            } else if e == 'f' {
                match sp_string_body(s, i + 2) {
                    None => None,
                    Some((rest, k)) => Some((seq!['\u{c}'] + rest, k)),
                }
            } else if e == 'u' {
                if i + 6 <= s.len() && is_hex(s[i + 2]) && is_hex(s[i + 3]) && is_hex(s[i + 4])
                    && is_hex(s[i + 5]) {
                    let v = hex_val(s[i + 2]) * 4096 + hex_val(s[i + 3]) * 256 + hex_val(s[i + 4])
                        * 16 + hex_val(s[i + 5]);
                    if v < 128 {
                        match sp_string_body(s, i + 6) {
                            None => None,
                            Some((rest, k)) => Some((seq![v as char] + rest, k)),
                        }
                    } else {
                        None
                    }
                } else {
                    None
                }
            } else {
                None
            }
        } else {
            None
        }
    } else {
        match sp_string_body(s, i + 1) {
            None => None,
            Some((rest, k)) => Some((seq![s[i]] + rest, k)),
        }
    }
}

/// A JSON string at `i`: an opening quote, then its body.
pub open spec fn sp_string(s: Seq<char>, i: int) -> Option<(Seq<char>, int)> {
    if 0 <= i < s.len() && s[i] == '"' {
        sp_string_body(s, i + 1)
    } else {
        None
    }
}

/// Skips whitespace as [`sp_ws`] says.
fn skip_ws(s: &str, i: usize) -> (r: usize)
    requires
        i <= s@.len(),
    ensures
        r as int == sp_ws(s@, i as int),
        i <= r <= s@.len(),
{
    let n = s.unicode_len();
    let mut j: usize = i;
    loop
        invariant
            i <= j <= n,
            n as nat == s@.len(),
            sp_ws(s@, i as int) == sp_ws(s@, j as int),
        ensures
            i <= j <= n,
            sp_ws(s@, i as int) == sp_ws(s@, j as int),
            j as int == s@.len() || !is_ws(s@[j as int]),
        decreases n - j,
    {
        if j >= n {
            break ;
        }
        let c = s.get_char(j);
        if !(c == ' ' || c == '\t' || c == '\n' || c == '\r') {
            break ;
        }
        j += 1;
    }
    proof {
        assert(sp_ws(s@, j as int) == j as int);
    }
    j
}

/// The value of a hex digit character, or 16 for any other character.
fn hex_val_x(c: char) -> (r: u32)
    ensures
        is_hex(c) ==> r == hex_val(c),
        !is_hex(c) ==> r == 16,
{
    let u = c as u32;
    if 48 <= u && u <= 57 {
        u - 48
    } else if 97 <= u && u <= 102 {
        u - 87
    } else if 65 <= u && u <= 70 {
        u - 55
    } else {
        16
    }
}

/// Reads a JSON string at `i` as [`sp_string`] says.
#[verifier::rlimit(100)]
fn parse_string(s: &str, i: usize) -> (r: Option<(String, usize)>)
    requires
        i <= s@.len(),
    ensures
        match r {
            Some((t, j)) => sp_string(s@, i as int) == Some((t@, j as int)) && i < j <= s@.len(),
            None => sp_string(s@, i as int) is None,
        },
{
    let n = s.unicode_len();
    if i >= n {
        return None;
    }
    if s.get_char(i) != '"' {
        return None;
    }
    let mut out = String::new();
    let mut cur: usize = i + 1;
    proof {
        if sp_string_body(s@, i as int + 1) is Some {
            let pair = sp_string_body(s@, i as int + 1)->Some_0;
            assert(out@ + pair.0 =~= pair.0);
        }
    }
    loop
        invariant
            i + 1 <= cur <= n,
            n as nat == s@.len(),
            s@[i as int] == '"',
            match sp_string_body(s@, cur as int) {
                None => sp_string_body(s@, i as int + 1) is None,
                Some((rest, k)) => sp_string_body(s@, i as int + 1) == Some((out@ + rest, k)),
            },
        decreases n - cur,
    {
        if cur >= n {
            return None;
        }
        let c = s.get_char(cur);
        if c == '"' {
            proof {
                assert(sp_string_body(s@, cur as int) == Some(
                    (Seq::<char>::empty(), cur as int + 1),
                ));
                assert(out@ + Seq::<char>::empty() =~= out@);
            }
            return Some((out, cur + 1));
        }
        if c == '\\' {
            if cur + 1 >= n {
                return None;
            }
            let e = s.get_char(cur + 1);
            let decoded: char = if e == '"' || e == '\\' || e == '/' {
                e
            } else if e == 'n' {
                '\n'
            } else if e == 'r' {
                '\r'
            } else if e == 't' {
                '\t'
            } else if e == 'b' {
                '\u{8}'
            } else if e == 'f' {
                '\u{c}'
            } else if e == 'u' {
                if n - cur < 6 {
                    return None;
                }
                let h2 = hex_val_x(s.get_char(cur + 2));
                let h3 = hex_val_x(s.get_char(cur + 3));
                let h4 = hex_val_x(s.get_char(cur + 4));
                let h5 = hex_val_x(s.get_char(cur + 5));
                if h2 > 15 || h3 > 15 || h4 > 15 || h5 > 15 {
                    return None;
                }
                let v = h2 * 4096 + h3 * 256 + h4 * 16 + h5;
                if v >= 128 {
                    return None;
                }
                let ghost out0 = out@;
                push_char(&mut out, (v as u8) as char);
                proof {
                    if sp_string_body(s@, cur + 6) is Some {
                        let pair = sp_string_body(s@, cur + 6)->Some_0;
                        assert(sp_string_body(s@, cur as int) == Some(
                            (seq![(v as int) as char] + pair.0, pair.1),
                        ));
                        assert(out0 + (seq![(v as int) as char] + pair.0) =~= out@ + pair.0);
                    }
                }
                cur = cur + 6;
                continue ;
            } else {
                return None;
            };
            let ghost out0 = out@;
            push_char(&mut out, decoded);
            proof {
                if sp_string_body(s@, cur + 2) is Some {
                    let pair = sp_string_body(s@, cur + 2)->Some_0;
                    assert(sp_string_body(s@, cur as int) == Some(
                        (seq![decoded] + pair.0, pair.1),
                    ));
                    assert(out0 + (seq![decoded] + pair.0) =~= out@ + pair.0);
                }
            }
            cur = cur + 2;
        } else {
            let ghost out0 = out@;
            push_char(&mut out, c);
            proof {
                if sp_string_body(s@, cur + 1) is Some {
                    let pair = sp_string_body(s@, cur + 1)->Some_0;
                    assert(sp_string_body(s@, cur as int) == Some((seq![c] + pair.0, pair.1)));
                    assert(out0 + (seq![c] + pair.0) =~= out@ + pair.0);
                }
            }
            cur = cur + 1;
        }
    }
}

// ---------------------------------------------------------------------------
// The three members, in any order
// ---------------------------------------------------------------------------
/// One member of the reply object.
pub enum RespFieldV {
    Success(bool),
    Stdout(Seq<char>),
    Stderr(Seq<char>),
}

/// One member at `i`: a known key, a colon, the value of that key's type.
pub open spec fn sp_member(s: Seq<char>, i: int) -> Option<(RespFieldV, int)> {
    match sp_string(s, i) {
        None => None,
        Some((key, j)) => {
            let j2 = sp_ws(s, j);
            if 0 <= j2 < s.len() && s[j2] == ':' {
                let j3 = sp_ws(s, j2 + 1);
                if key == "success"@ {
                    match sp_bool(s, j3) {
                        None => None,
                        Some((b, j4)) => Some((RespFieldV::Success(b), j4)),
                    }
                } else if key == "stdout"@ {
                    match sp_string(s, j3) {
                        None => None,
                        Some((t, j4)) => Some((RespFieldV::Stdout(t), j4)),
                    }
                } else if key == "stderr"@ {
                    match sp_string(s, j3) {
                        None => None,
                        Some((t, j4)) => Some((RespFieldV::Stderr(t), j4)),
                    }
                } else {
                    None
                }
            } else {
                None
            }
        },
    }
}

/// The members from `i` on, given which fields were already seen: members
/// separated by commas until the closing brace, each field exactly once.
pub open spec fn sp_members(
    s: Seq<char>,
    i: int,
    su: Option<bool>,
    so: Option<Seq<char>>,
    se: Option<Seq<char>>,
) -> Option<(PlaygroundResponseV, int)>
    decreases s.len() - i,
{
    match sp_member(s, i) {
        None => None,
        Some((f, j)) => {
            let fresh = match f {
                RespFieldV::Success(_) => su is None,
                RespFieldV::Stdout(_) => so is None,
                RespFieldV::Stderr(_) => se is None,
            };
            if !fresh {
                None
            } else {
                let su2 = if f is Success {
                    Some(f->Success_0)
                } else {
                    su
                };
                let so2 = if f is Stdout {
                    Some(f->Stdout_0)
                } else {
                    so
                };
                let se2 = if f is Stderr {
                    Some(f->Stderr_0)
                } else {
                    se
                };
                let j2 = sp_ws(s, j);
                if 0 <= j2 < s.len() && s[j2] == ',' {
                    let j3 = sp_ws(s, j2 + 1);
                    if i < j3 <= s.len() {
                        sp_members(s, j3, su2, so2, se2)
                    } else {
                        None
                    }
                } else if 0 <= j2 < s.len() && s[j2] == '}' {
                    match (su2, so2, se2) {
                        (Some(success), Some(stdout), Some(stderr)) => Some(
                            (PlaygroundResponseV { success, stdout, stderr }, j2 + 1),
                        ),
                        _ => None,
                    }
                } else {
                    None
                }
            }
        },
    }
}

/// A whole reply: one JSON object holding exactly the three fields, with
/// nothing but whitespace around it.
pub open spec fn sp_response(s: Seq<char>) -> Option<PlaygroundResponseV> {
    let i0 = sp_ws(s, 0);
    if 0 <= i0 < s.len() && s[i0] == '{' {
        let i1 = sp_ws(s, i0 + 1);
        match sp_members(s, i1, None, None, None) {
            None => None,
            Some((r, j)) => {
                let j2 = sp_ws(s, j);
                if j2 == s.len() {
                    Some(r)
                } else {
                    None
                }
            },
        }
    } else {
        None
    }
}

/// One member of the reply object, as read.
pub enum RespField {
    Success(bool),
    Stdout(String),
    Stderr(String),
}

impl View for RespField {
    type V = RespFieldV;

    open spec fn view(&self) -> RespFieldV {
        match self {
            RespField::Success(b) => RespFieldV::Success(*b),
            RespField::Stdout(t) => RespFieldV::Stdout(t@),
            RespField::Stderr(t) => RespFieldV::Stderr(t@),
        }
    }
}

/// Reads one member at `i` as [`sp_member`] says.
fn parse_member(s: &str, i: usize) -> (r: Option<(RespField, usize)>)
    requires
        i <= s@.len(),
    ensures
        match r {
            Some((f, j)) => sp_member(s@, i as int) == Some((f@, j as int)) && i < j <= s@.len(),
            None => sp_member(s@, i as int) is None,
        },
{
    let n = s.unicode_len();
    let (key, j) = match parse_string(s, i) {
        None => {
            return None;
        },
        Some(x) => x,
    };
    let j2 = skip_ws(s, j);
    if j2 >= n {
        return None;
    }
    if s.get_char(j2) != ':' {
        return None;
    }
    let j3 = skip_ws(s, j2 + 1);
    if str_eq(key.as_str(), "success") {
        match parse_bool(s, j3) {
            None => None,
            Some((b, j4)) => Some((RespField::Success(b), j4)),
        }
    } else if str_eq(key.as_str(), "stdout") {
        match parse_string(s, j3) {
            None => None,
            Some((t, j4)) => Some((RespField::Stdout(t), j4)),
        }
    } else if str_eq(key.as_str(), "stderr") {
        match parse_string(s, j3) {
            None => None,
            Some((t, j4)) => Some((RespField::Stderr(t), j4)),
        }
    } else {
        None
    }
}

/// The view of an optional text.
pub open spec fn opt_str_view(o: Option<String>) -> Option<Seq<char>> {
    match o {
        None => None,
        Some(t) => Some(t@),
    }
}

/// Reads the members from `i` on as [`sp_members`] says, starting with no
/// field seen.
#[verifier::rlimit(100)]
fn parse_members(s: &str, i: usize) -> (r: Option<(PlaygroundResponse, usize)>)
    requires
        i <= s@.len(),
    ensures
        match r {
            Some((resp, j)) => sp_members(s@, i as int, None, None, None) == Some(
                (resp@, j as int),
            ) && j <= s@.len(),
            None => sp_members(s@, i as int, None, None, None) is None,
        },
{
    let n = s.unicode_len();
    let mut su: Option<bool> = None;
    let mut so: Option<String> = None;
    let mut se: Option<String> = None;
    let mut cur: usize = i;
    loop
        invariant
            i <= cur <= n,
            n as nat == s@.len(),
            match sp_members(s@, cur as int, su, opt_str_view(so), opt_str_view(se)) {
                None => sp_members(s@, i as int, None, None, None) is None,
                Some(x) => sp_members(s@, i as int, None, None, None) == Some(x),
            },
        decreases n - cur,
    {
        let (f, j) = match parse_member(s, cur) {
            None => {
                return None;
            },
            Some(x) => x,
        };
        match &f {
            RespField::Success(_) => {
                if su.is_some() {
                    return None;
                }
            },
            RespField::Stdout(_) => {
                if so.is_some() {
                    return None;
                }
            },
            RespField::Stderr(_) => {
                if se.is_some() {
                    return None;
                }
            },
        }
        let ghost su0 = su;
        let ghost so0 = opt_str_view(so);
        let ghost se0 = opt_str_view(se);
        match f {
            RespField::Success(b) => {
                su = Some(b);
            },
            RespField::Stdout(t) => {
                so = Some(t);
            },
            RespField::Stderr(t) => {
                se = Some(t);
            },
        }
        let j2 = skip_ws(s, j);
        if j2 < n {
            let c = s.get_char(j2);
            if c == ',' {
                let j3 = skip_ws(s, j2 + 1);
                proof {
                    assert(sp_members(s@, cur as int, su0, so0, se0) == sp_members(
                        s@,
                        j3 as int,
                        su,
                        opt_str_view(so),
                        opt_str_view(se),
                    ));
                }
                cur = j3;
            } else if c == '}' {
                match (su, so, se) {
                    (Some(success), Some(stdout), Some(stderr)) => {
                        let resp = PlaygroundResponse { success, stdout, stderr };
                        proof {
                            assert(resp@ =~= PlaygroundResponseV {
                                success: resp.success,
                                stdout: resp.stdout@,
                                stderr: resp.stderr@,
                            });
                        }
                        return Some((resp, j2 + 1));
                    },
                    _ => {
                        return None;
                    },
                }
            } else {
                return None;
            }
        } else {
            return None;
        }
    }
}

/// Reads a whole reply as [`sp_response`] says.
pub fn parse_playground_response(s: &str) -> (r: Option<PlaygroundResponse>)
    ensures
        match r {
            Some(resp) => sp_response(s@) == Some(resp@),
            None => sp_response(s@) is None,
        },
{
    let n = s.unicode_len();
    let i0 = skip_ws(s, 0);
    if i0 >= n {
        return None;
    }
    if s.get_char(i0) != '{' {
        return None;
    }
    let i1 = skip_ws(s, i0 + 1);
    let (resp, j) = match parse_members(s, i1) {
        None => {
            return None;
        },
        Some(x) => x,
    };
    let j2 = skip_ws(s, j);
    if j2 == n {
        Some(resp)
    } else {
        None
    }
}

// ---------------------------------------------------------------------------
// The report
// ---------------------------------------------------------------------------
/// The user-facing report for one reply: the standard-error section always,
/// the standard-output section only on success.
pub open spec fn report_text(v: PlaygroundResponseV) -> Seq<char> {
    "---- Standard Error ----\n\n"@ + v.stderr + (if v.success {
        "\n---- Standard Output ----\n\n"@ + v.stdout
    } else {
        Seq::<char>::empty()
    })
}

/// Formats one reply as [`report_text`] says.
pub fn create_response_report(resp: &PlaygroundResponse) -> (r: String)
    ensures
        r@ == report_text(resp@),
{
    let mut value = String::from_str("---- Standard Error ----\n\n");
    value.append(resp.stderr.as_str());
    if resp.success {
        value.append("\n---- Standard Output ----\n\n");
        value.append(resp.stdout.as_str());
    }
    proof {
        assert(value@ =~= report_text(resp@));
    }
    value
}

/// Why a reply could not be turned into a report.
#[derive(Clone, Copy, Debug, PartialEq, Eq, Structural)]
pub enum ExecutionError {
    InvalidResponse,
}

/// Decodes the service's reply body and formats the report; a body that is
/// not a well-formed reply object is an error.
pub fn decode_execute_response(body: &str) -> (r: Result<String, ExecutionError>)
    ensures
        sp_response(body@) is Some ==> r is Ok && r->Ok_0@ == report_text(
            sp_response(body@)->Some_0,
        ),
        sp_response(body@) is None ==> r == Result::<String, ExecutionError>::Err(
            ExecutionError::InvalidResponse,
        ),
{
    match parse_playground_response(body) {
        None => Err(ExecutionError::InvalidResponse),
        Some(resp) => Ok(create_response_report(&resp)),
    }
}

/// The apology sent when the execution round-trip failed.
pub fn execution_error_message() -> (r: String)
    ensures
        r@ == "Create response error, sorry for inconvenience"@,
{
    String::from_str("Create response error, sorry for inconvenience")
}

} // verus!
