//! The wire request sent to the remote execution service: one JSON object
//! holding the user's settings and the submitted source text.

use vstd::prelude::*;
use vstd::string::StrSliceExecFns;
use vstd::string::StringExecFns;

use crate::json::json_bool;
use crate::json::json_bool_text;
use crate::numbers::dec_digit_char;
use crate::prefs::PlaygroundRequest;
use crate::prefs::PlaygroundRequestV;
use crate::prefs::build_type_str;
use crate::prefs::build_type_text;
use crate::prefs::channel_str;
use crate::prefs::channel_text;
use crate::prefs::edition_str;
use crate::prefs::edition_text;
use crate::prefs::mode_str;
use crate::prefs::mode_text;
use crate::store::Users;
use crate::store::get_user_data;
use crate::store::stored_or_default;
use crate::text::push_char;

verus! {

/// The lowercase hex digit character for `d` (0 through 15).
pub open spec fn hex_digit_char(d: int) -> char {
    if d < 10 {
        dec_digit_char(d)
    } else if d == 10 {
        'a'
    } else if d == 11 {
        'b'
    } else if d == 12 {
        'c'
    } else if d == 13 {
        'd'
    } else if d == 14 {
        'e'
    } else {
        'f'
    }
}

/// Exec rendering of one hex digit.
fn hex_digit_text(d: u32) -> (r: &'static str)
    requires
        d < 16,
    ensures
        r@ == seq![hex_digit_char(d as int)],
{
    let r: &'static str = if d == 0 {
        "0"
    } else if d == 1 {
        "1"
    } else if d == 2 {
        "2"
    } else if d == 3 {
        "3"
    } else if d == 4 {
        "4"
    } else if d == 5 {
        "5"
    } else if d == 6 {
        "6"
    } else if d == 7 {
        "7"
    } else if d == 8 {
        "8"
    } else if d == 9 {
        "9"
    } else if d == 10 {
        "a"
    } else if d == 11 {
        "b"
    } else if d == 12 {
        "c"
    } else if d == 13 {
        "d"
    } else if d == 14 {
        "e"
    } else {
        "f"
    };
    proof {
        reveal_strlit("0");
        reveal_strlit("1");
        reveal_strlit("2");
        reveal_strlit("3");
        reveal_strlit("4");
        reveal_strlit("5");
        reveal_strlit("6");
        reveal_strlit("7");
        reveal_strlit("8");
        reveal_strlit("9");
        reveal_strlit("a");
        reveal_strlit("b");
        reveal_strlit("c");
        reveal_strlit("d");
        reveal_strlit("e");
        reveal_strlit("f");
        assert(r@ =~= seq![hex_digit_char(d as int)]);
    }
    r
}

/// How one character of embedded text is written inside a JSON string:
/// quote and backslash get a backslash, the common control characters their
/// short escapes, the remaining control characters a `\u00XX` escape, and
/// everything else stands as itself.
pub open spec fn esc_char(c: char) -> Seq<char> {
    if c == '"' {
        seq!['\\', '"']
    } else if c == '\\' {
        seq!['\\', '\\']
    } else if c == '\n' {
        seq!['\\', 'n']
    } else if c == '\r' {
        seq!['\\', 'r']
    } else if c == '\t' {
        seq!['\\', 't']
    } else if (c as int) < 32 {
        seq!['\\', 'u', '0', '0', hex_digit_char(c as int / 16), hex_digit_char(c as int % 16)]
    } else {
        seq![c]
    }
}

/// The JSON-escaped form of a text, character by character.
pub open spec fn esc_seq(s: Seq<char>) -> Seq<char>
    decreases s.len(),
{
    if s.len() == 0 {
        Seq::<char>::empty()
    } else {
        esc_char(s[0]) + esc_seq(s.drop_first())
    }
}

/// Escaping one more character appends its escape.
proof fn lemma_esc_snoc(s: Seq<char>, c: char)
    ensures
        esc_seq(s.push(c)) == esc_seq(s) + esc_char(c),
    decreases s.len(),
{
    if s.len() == 0 {
        assert(s.push(c).drop_first() =~= Seq::<char>::empty());
        assert(s.push(c)[0] == c);
        assert(esc_seq(Seq::<char>::empty()) =~= Seq::<char>::empty());
        assert(esc_seq(s.push(c)) =~= esc_seq(s) + esc_char(c));
    } else {
        assert(s.push(c).drop_first() =~= s.drop_first().push(c));
        assert(s.push(c)[0] == s[0]);
        lemma_esc_snoc(s.drop_first(), c);
        assert(esc_seq(s.push(c)) =~= esc_seq(s) + esc_char(c));
    }
}

/// Appends the JSON-escaped form of `s` to `out`.
fn append_escaped(out: &mut String, s: &str)
    ensures
        final(out)@ == old(out)@ + esc_seq(s@),
{
    let n = s.unicode_len();
    let mut i: usize = 0;
    proof {
        assert(s@.subrange(0, 0) =~= Seq::<char>::empty());
        assert(out@ =~= old(out)@ + esc_seq(s@.subrange(0, 0)));
    }
    while i < n
        invariant
            0 <= i <= n,
            n as nat == s@.len(),
            out@ == old(out)@ + esc_seq(s@.subrange(0, i as int)),
        decreases n - i,
    {
        let c = s.get_char(i);
        let u = c as u32;
        if c == '"' {
            out.append("\\\"");
            proof {
                reveal_strlit("\\\"");
                assert("\\\""@ =~= esc_char(c));
            }
        } else if c == '\\' {
            out.append("\\\\");
            proof {
                reveal_strlit("\\\\");
                assert("\\\\"@ =~= esc_char(c));
            }
        } else if c == '\n' {
            out.append("\\n");
            proof {
                reveal_strlit("\\n");
                assert("\\n"@ =~= esc_char(c));
            }
        } else if c == '\r' {
            out.append("\\r");
            proof {
                reveal_strlit("\\r");
                assert("\\r"@ =~= esc_char(c));
            }
        } else if c == '\t' {
            out.append("\\t");
            proof {
                reveal_strlit("\\t");
                assert("\\t"@ =~= esc_char(c));
            }
        } else if u < 32 {
            out.append("\\u00");
            out.append(hex_digit_text(u / 16));
            out.append(hex_digit_text(u % 16));
            proof {
                reveal_strlit("\\u00");
                assert("\\u00"@ + seq![hex_digit_char(u as int / 16)] + seq![
                    hex_digit_char(u as int % 16),
                ] =~= esc_char(c));
            }
        } else {
            push_char(out, c);
            proof {
                assert(out@ =~= old(out)@ + esc_seq(s@.subrange(0, i as int)) + esc_char(c));
            }
        }
        proof {
            assert(s@.subrange(0, i + 1) =~= s@.subrange(0, i as int).push(s@[i as int]));
            lemma_esc_snoc(s@.subrange(0, i as int), s@[i as int]);
            assert(out@ =~= old(out)@ + esc_seq(s@.subrange(0, i + 1)));
        }
        i += 1;
    }
    proof {
        assert(s@.subrange(0, n as int) =~= s@);
    }
}

/// The JSON object sent to the execution service for one record: its
/// `backtrace`, `channel`, `code`, `crateType`, `edition`, `mode` and
/// `tests` fields, in that order.
pub open spec fn request_json(r: PlaygroundRequestV) -> Seq<char> {
    "{\"backtrace\":"@ + json_bool(r.backtrace) + ",\"channel\":\""@ + channel_str(r.channel)
        + "\",\"code\":\""@ + esc_seq(r.code) + "\",\"crateType\":\""@ + build_type_str(
        r.crate_type,
    ) + "\",\"edition\":\""@ + edition_str(r.edition) + "\",\"mode\":\""@ + mode_str(r.mode)
        + "\",\"tests\":"@ + json_bool(r.tests) + "}"@
}

/// Appends the wire request for `r` to `out`.
fn append_request_json(out: &mut String, r: &PlaygroundRequest)
    ensures
        final(out)@ == old(out)@ + request_json(r@),
{
    out.append("{\"backtrace\":");
    out.append(json_bool_text(r.backtrace));
    out.append(",\"channel\":\"");
    out.append(channel_text(r.channel));
    out.append("\",\"code\":\"");
    append_escaped(out, r.code.as_str());
    out.append("\",\"crateType\":\"");
    out.append(build_type_text(r.crate_type));
    out.append("\",\"edition\":\"");
    out.append(edition_text(r.edition));
    out.append("\",\"mode\":\"");
    out.append(mode_text(r.mode));
    out.append("\",\"tests\":");
    out.append(json_bool_text(r.tests));
    out.append("}");
    proof {
        assert(out@ =~= old(out)@ + request_json(r@));
    }
}

/// The request body for running `code` with the settings stored for
/// `user_id`: the user's record, its `code` field overwritten with the
/// submitted text, rendered as the wire JSON object.
pub fn build_execute_request(user_id: u64, users: &Users, code: &str) -> (body: String)
    requires
        users.wf(),
    ensures
        body@ == request_json(stored_or_default(users@, user_id).with_code(code@)),
{
    let mut user_data = get_user_data(user_id, users);
    user_data.code = String::from_str(code);
    proof {
        assert(user_data@ =~= stored_or_default(users@, user_id).with_code(code@));
    }
    let mut body = String::new();
    append_request_json(&mut body, &user_data);
    proof {
        assert(body@ =~= request_json(stored_or_default(users@, user_id).with_code(code@)));
    }
    body
}

} // verus!
