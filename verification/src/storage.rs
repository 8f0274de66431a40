//! The durable form of the store: one JSON object mapping each user id to
//! its record (without the transient source text), written wholesale on
//! save and read back on load.
//!
//! Loading fails open: text that is not exactly a saved store yields the
//! empty store, never an error.

use vstd::prelude::*;
use vstd::string::StrSliceExecFns;
use vstd::string::StringExecFns;

use crate::numbers::append_u64;
use crate::numbers::dec_digits;
use crate::numbers::is_digit;
use crate::numbers::lemma_u64_round_trip;
use crate::numbers::sp_u64;
use crate::numbers::parse_u64;
use crate::prefs::BuildType;
use crate::prefs::Channel;
use crate::prefs::Edition;
use crate::prefs::Mode;
use crate::prefs::PlaygroundRequest;
use crate::prefs::PlaygroundRequestV;
use crate::prefs::build_type_str;
use crate::prefs::build_type_text;
use crate::prefs::channel_str;
use crate::prefs::channel_text;
use crate::prefs::edition_str;
use crate::prefs::edition_text;
use crate::prefs::mode_str;
use crate::prefs::mode_text;
use crate::store::Users;
use crate::store::entry_views;
use crate::store::unique_keys;
use crate::json::json_bool;
use crate::json::json_bool_text;
use crate::json::lemma_assoc;
use crate::json::lemma_parse_bool_chunk;
use crate::json::lemma_parse_lit_chunk;
use crate::json::parse_bool;
use crate::json::parse_lit;
use crate::json::sp_bool;
use crate::json::sp_lit;

verus! {

// ---------------------------------------------------------------------------
// What a saved store looks like
// ---------------------------------------------------------------------------
/// One record as it stands in the file: the wire object without its `code`
/// field.
pub open spec fn record_file_json(r: PlaygroundRequestV) -> Seq<char> {
    "{\"backtrace\":"@ + json_bool(r.backtrace) + ",\"channel\":\""@ + channel_str(r.channel)
        + "\",\"crateType\":\""@ + build_type_str(r.crate_type) + "\",\"edition\":\""@
        + edition_str(r.edition) + "\",\"mode\":\""@ + mode_str(r.mode) + "\",\"tests\":"@
        + json_bool(r.tests) + "}"@
}

/// One entry: the decimal user id as a JSON key, then its record.
pub open spec fn entry_json(e: (u64, PlaygroundRequestV)) -> Seq<char> {
    "\""@ + dec_digits(e.0 as nat) + "\":"@ + record_file_json(e.1)
}

/// Every entry after the first, each preceded by a comma.
pub open spec fn rest_entries_json(s: Seq<(u64, PlaygroundRequestV)>) -> Seq<char>
    decreases s.len(),
{
    if s.len() == 0 {
        Seq::<char>::empty()
    } else {
        ","@ + entry_json(s[0]) + rest_entries_json(s.drop_first())
    }
}

/// The whole file: the entries in store order inside one JSON object.
pub open spec fn users_json(s: Seq<(u64, PlaygroundRequestV)>) -> Seq<char> {
    if s.len() == 0 {
        "{}"@
    } else {
        "{"@ + entry_json(s[0]) + rest_entries_json(s.drop_first()) + "}"@
    }
}

// ---------------------------------------------------------------------------
// Saving
// ---------------------------------------------------------------------------
/// One more entry appends a comma and that entry.
proof fn lemma_rest_entries_snoc(s: Seq<(u64, PlaygroundRequestV)>, e: (u64, PlaygroundRequestV))
    ensures
        rest_entries_json(s.push(e)) == rest_entries_json(s) + ","@ + entry_json(e),
    decreases s.len(),
{
    if s.len() == 0 {
        assert(s.push(e).drop_first() =~= Seq::<(u64, PlaygroundRequestV)>::empty());
        assert(s.push(e)[0] == e);
        assert(rest_entries_json(Seq::<(u64, PlaygroundRequestV)>::empty())
            =~= Seq::<char>::empty());
        assert(rest_entries_json(s.push(e)) =~= rest_entries_json(s) + ","@ + entry_json(e));
    } else {
        assert(s.push(e).drop_first() =~= s.drop_first().push(e));
        assert(s.push(e)[0] == s[0]);
        lemma_rest_entries_snoc(s.drop_first(), e);
        assert(rest_entries_json(s.push(e)) =~= rest_entries_json(s) + ","@ + entry_json(e));
    }
}

/// Appends the file form of one record to `out`.
#[verifier::rlimit(50)]
fn append_record_file(out: &mut String, r: &PlaygroundRequest)
    ensures
        final(out)@ == old(out)@ + record_file_json(r@),
{
    out.append("{\"backtrace\":");
    out.append(json_bool_text(r.backtrace));
    out.append(",\"channel\":\"");
    out.append(channel_text(r.channel));
    out.append("\",\"crateType\":\"");
    out.append(build_type_text(r.crate_type));
    out.append("\",\"edition\":\"");
    out.append(edition_text(r.edition));
    out.append("\",\"mode\":\"");
    out.append(mode_text(r.mode));
    out.append("\",\"tests\":");
    out.append(json_bool_text(r.tests));
    out.append("}");
    proof {
        assert(out@ =~= old(out)@ + record_file_json(r@));
    }
}

/// Appends one entry to `out`.
fn append_entry(out: &mut String, id: u64, r: &PlaygroundRequest)
    ensures
        final(out)@ == old(out)@ + entry_json((id, r@)),
{
    out.append("\"");
    append_u64(out, id);
    out.append("\":");
    append_record_file(out, r);
    proof {
        assert(out@ =~= old(out)@ + entry_json((id, r@)));
    }
}

/// Renders the whole store as its file text.
pub fn save_users_data(users: &Users) -> (r: String)
    requires
        users.wf(),
    ensures
        r@ == users_json(users.entries_view()),
{
    let ghost ev = users.entries_view();
    let n = users.entries.len();
    if n == 0 {
        return String::from_str("{}");
    }
    let mut out = String::from_str("{");
    append_entry(&mut out, users.entries[0].0, &users.entries[0].1);
    proof {
        assert(ev[0] == (users.entries@[0].0, users.entries@[0].1@));
        assert(ev.subrange(1, 1) =~= Seq::<(u64, PlaygroundRequestV)>::empty());
        assert(rest_entries_json(ev.subrange(1, 1)) =~= Seq::<char>::empty());
        assert(out@ =~= "{"@ + entry_json(ev[0]) + rest_entries_json(ev.subrange(1, 1)));
    }
    let mut i: usize = 1;
    while i < n
        invariant
            1 <= i <= n,
            n == users.entries@.len(),
            ev == users.entries_view(),
            ev.len() == n as nat,
            out@ == "{"@ + entry_json(ev[0]) + rest_entries_json(ev.subrange(1, i as int)),
        decreases n - i,
    {
        out.append(",");
        append_entry(&mut out, users.entries[i].0, &users.entries[i].1);
        proof {
            assert(ev[i as int] == (users.entries@[i as int].0, users.entries@[i as int].1@));
            assert(ev.subrange(1, i + 1) =~= ev.subrange(1, i as int).push(ev[i as int]));
            lemma_rest_entries_snoc(ev.subrange(1, i as int), ev[i as int]);
            assert(out@ =~= "{"@ + entry_json(ev[0]) + rest_entries_json(ev.subrange(1, i + 1)));
        }
        i += 1;
    }
    out.append("}");
    proof {
        assert(ev.subrange(1, n as int) =~= ev.drop_first());
        assert(out@ =~= users_json(ev));
    }
    out
}

// ---------------------------------------------------------------------------
// What loading accepts: exactly a saved store
// ---------------------------------------------------------------------------
/// A channel token at `i`.
pub open spec fn sp_channel(s: Seq<char>, i: int) -> Option<(Channel, int)> {
    match sp_lit(s, i, "stable"@) {
        Some(j) => Some((Channel::Stable, j)),
        None => match sp_lit(s, i, "beta"@) {
            Some(j) => Some((Channel::Beta, j)),
            None => match sp_lit(s, i, "nightly"@) {
                Some(j) => Some((Channel::Nightly, j)),
                None => None,
            },
        },
    }
}

/// A mode token at `i`.
pub open spec fn sp_mode(s: Seq<char>, i: int) -> Option<(Mode, int)> {
    match sp_lit(s, i, "debug"@) {
        Some(j) => Some((Mode::Debug, j)),
        None => match sp_lit(s, i, "release"@) {
            Some(j) => Some((Mode::Release, j)),
            None => None,
        },
    }
}

/// An edition token at `i`.
pub open spec fn sp_edition(s: Seq<char>, i: int) -> Option<(Edition, int)> {
    match sp_lit(s, i, "2015"@) {
        Some(j) => Some((Edition::E2015, j)),
        None => match sp_lit(s, i, "2018"@) {
            Some(j) => Some((Edition::E2018, j)),
            None => None,
        },
    }
}

/// A build-type token at `i`.
pub open spec fn sp_build(s: Seq<char>, i: int) -> Option<(BuildType, int)> {
    match sp_lit(s, i, "bin"@) {
        Some(j) => Some((BuildType::Bin, j)),
        None => match sp_lit(s, i, "lib"@) {
            Some(j) => Some((BuildType::Lib, j)),
            None => None,
        },
    }
}

/// A record at `i`, exactly as [`record_file_json`] writes one; its source
/// text comes back empty. Kept opaque: the definition is large and is only
/// needed where a record is actually read.
#[verifier::opaque]
pub open spec fn sp_record(s: Seq<char>, i: int) -> Option<(PlaygroundRequestV, int)> {
    match sp_lit(s, i, "{\"backtrace\":"@) {
        None => None,
        Some(i1) => match sp_bool(s, i1) {
            None => None,
            Some((backtrace, i2)) => match sp_lit(s, i2, ",\"channel\":\""@) {
                None => None,
                Some(i3) => match sp_channel(s, i3) {
                    None => None,
                    Some((channel, i4)) => match sp_lit(s, i4, "\",\"crateType\":\""@) {
                        None => None,
                        Some(i5) => match sp_build(s, i5) {
                            None => None,
                            Some((crate_type, i6)) => match sp_lit(s, i6, "\",\"edition\":\""@) {
                                None => None,
                                Some(i7) => match sp_edition(s, i7) {
                                    None => None,
                                    Some((edition, i8)) => match sp_lit(s, i8, "\",\"mode\":\""@) {
                                        None => None,
                                        Some(i9) => match sp_mode(s, i9) {
                                            None => None,
                                            Some((mode, i10)) => match sp_lit(
                                                s,
                                                i10,
                                                "\",\"tests\":"@,
                                            ) {
                                                None => None,
                                                Some(i11) => match sp_bool(s, i11) {
                                                    None => None,
                                                    Some((tests, i12)) => match sp_lit(
                                                        s,
                                                        i12,
                                                        "}"@,
                                                    ) {
                                                        None => None,
                                                        Some(i13) => Some(
                                                            (
                                                                PlaygroundRequestV {
                                                                    backtrace,
                                                                    channel,
                                                                    code: Seq::<char>::empty(),
                                                                    crate_type,
                                                                    edition,
                                                                    mode,
                                                                    tests,
                                                                },
                                                                i13,
                                                            ),
                                                        ),
                                                    },
                                                },
                                            },
                                        },
                                    },
                                },
                            },
                        },
                    },
                },
            },
        },
    }
}

/// One entry at `i`: a quoted decimal id, a colon, a record.
pub open spec fn sp_entry(s: Seq<char>, i: int) -> Option<((u64, PlaygroundRequestV), int)> {
    match sp_lit(s, i, "\""@) {
        None => None,
        Some(i1) => match sp_u64(s, i1) {
            None => None,
            Some((id, i2)) => match sp_lit(s, i2, "\":"@) {
                None => None,
                Some(i3) => match sp_record(s, i3) {
                    None => None,
                    Some((r, i4)) => Some(((id, r), i4)),
                },
            },
        },
    }
}

/// The entries after the first: as long as a comma follows, one more entry.
pub open spec fn sp_rest_entries(s: Seq<char>, i: int) -> Option<
    (Seq<(u64, PlaygroundRequestV)>, int),
>
    decreases s.len() - i,
{
    if 0 <= i < s.len() && s[i] == ',' {
        match sp_entry(s, i + 1) {
            None => None,
            Some((e, j)) => if i + 1 < j <= s.len() {
                match sp_rest_entries(s, j) {
                    None => None,
                    Some((rest, k)) => Some((seq![e] + rest, k)),
                }
            } else {
                None
            },
        }
    } else {
        Some((Seq::<(u64, PlaygroundRequestV)>::empty(), i))
    }
}

/// A whole saved store: a JSON object of entries, nothing before or after.
pub open spec fn sp_users(s: Seq<char>) -> Option<Seq<(u64, PlaygroundRequestV)>> {
    match sp_lit(s, 0, "{"@) {
        None => None,
        Some(i1) => match sp_lit(s, i1, "}"@) {
            Some(i2) => if i2 == s.len() {
                Some(Seq::<(u64, PlaygroundRequestV)>::empty())
            } else {
                None
            },
            None => match sp_entry(s, i1) {
                None => None,
                Some((e0, j)) => match sp_rest_entries(s, j) {
                    None => None,
                    Some((rest, k)) => match sp_lit(s, k, "}"@) {
                        None => None,
                        Some(end) => if end == s.len() {
                            Some(seq![e0] + rest)
                        } else {
                            None
                        },
                    },
                },
            },
        },
    }
}

/// A saved store whose user ids are all distinct; anything else is treated
/// as corrupt.
pub open spec fn sp_users_checked(s: Seq<char>) -> Option<Seq<(u64, PlaygroundRequestV)>> {
    match sp_users(s) {
        None => None,
        Some(entries) => if unique_keys(entries) {
            Some(entries)
        } else {
            None
        },
    }
}

// ---------------------------------------------------------------------------
// Loading
// ---------------------------------------------------------------------------
/// Reads a channel token at `i` as [`sp_channel`] says.
fn parse_channel(s: &str, i: usize) -> (r: Option<(Channel, usize)>)
    requires
        i <= s@.len(),
    ensures
        match r {
            Some((c, j)) => sp_channel(s@, i as int) == Some((c, j as int)) && i < j <= s@.len(),
            None => sp_channel(s@, i as int) is None,
        },
{
    proof {
        reveal_strlit("stable");
        reveal_strlit("beta");
        reveal_strlit("nightly");
    }
    match parse_lit(s, i, "stable") {
        Some(j) => Some((Channel::Stable, j)),
        None => match parse_lit(s, i, "beta") {
            Some(j) => Some((Channel::Beta, j)),
            None => match parse_lit(s, i, "nightly") {
                Some(j) => Some((Channel::Nightly, j)),
                None => None,
            },
        },
    }
}

/// Reads a mode token at `i` as [`sp_mode`] says.
fn parse_mode(s: &str, i: usize) -> (r: Option<(Mode, usize)>)
    requires
        i <= s@.len(),
    ensures
        match r {
            Some((m, j)) => sp_mode(s@, i as int) == Some((m, j as int)) && i < j <= s@.len(),
            None => sp_mode(s@, i as int) is None,
        },
{
    proof {
        reveal_strlit("debug");
        reveal_strlit("release");
    }
    match parse_lit(s, i, "debug") {
        Some(j) => Some((Mode::Debug, j)),
        None => match parse_lit(s, i, "release") {
            Some(j) => Some((Mode::Release, j)),
            None => None,
        },
    }
}

/// Reads an edition token at `i` as [`sp_edition`] says.
fn parse_edition(s: &str, i: usize) -> (r: Option<(Edition, usize)>)
    requires
        i <= s@.len(),
    ensures
        match r {
            Some((e, j)) => sp_edition(s@, i as int) == Some((e, j as int)) && i < j <= s@.len(),
            None => sp_edition(s@, i as int) is None,
        },
{
    proof {
        reveal_strlit("2015");
        reveal_strlit("2018");
    }
    match parse_lit(s, i, "2015") {
        Some(j) => Some((Edition::E2015, j)),
        None => match parse_lit(s, i, "2018") {
            Some(j) => Some((Edition::E2018, j)),
            None => None,
        },
    }
}

/// Reads a build-type token at `i` as [`sp_build`] says.
fn parse_build(s: &str, i: usize) -> (r: Option<(BuildType, usize)>)
    requires
        i <= s@.len(),
    ensures
        match r {
            Some((b, j)) => sp_build(s@, i as int) == Some((b, j as int)) && i < j <= s@.len(),
            None => sp_build(s@, i as int) is None,
        },
{
    proof {
        reveal_strlit("bin");
        reveal_strlit("lib");
    }
    match parse_lit(s, i, "bin") {
        Some(j) => Some((BuildType::Bin, j)),
        None => match parse_lit(s, i, "lib") {
            Some(j) => Some((BuildType::Lib, j)),
            None => None,
        },
    }
}

/// Reads a record at `i` as [`sp_record`] says.
fn parse_record(s: &str, i: usize) -> (r: Option<(PlaygroundRequest, usize)>)
    requires
        i <= s@.len(),
    ensures
        match r {
            Some((rec, j)) => sp_record(s@, i as int) == Some((rec@, j as int)) && i < j
                <= s@.len(),
            None => sp_record(s@, i as int) is None,
        },
{
    proof {
        reveal(sp_record);
        reveal_strlit("{\"backtrace\":");
    }
    let i1 = match parse_lit(s, i, "{\"backtrace\":") {
        None => {
            return None;
        },
        Some(x) => x,
    };
    let (backtrace, i2) = match parse_bool(s, i1) {
        None => {
            return None;
        },
        Some(x) => x,
    };
    let i3 = match parse_lit(s, i2, ",\"channel\":\"") {
        None => {
            return None;
        },
        Some(x) => x,
    };
    let (channel, i4) = match parse_channel(s, i3) {
        None => {
            return None;
        },
        Some(x) => x,
    };
    let i5 = match parse_lit(s, i4, "\",\"crateType\":\"") {
        None => {
            return None;
        },
        Some(x) => x,
    };
    let (crate_type, i6) = match parse_build(s, i5) {
        None => {
            return None;
        },
        Some(x) => x,
    };
    let i7 = match parse_lit(s, i6, "\",\"edition\":\"") {
        None => {
            return None;
        },
        Some(x) => x,
    };
    let (edition, i8) = match parse_edition(s, i7) {
        None => {
            return None;
        },
        Some(x) => x,
    };
    let i9 = match parse_lit(s, i8, "\",\"mode\":\"") {
        None => {
            return None;
        },
        Some(x) => x,
    };
    let (mode, i10) = match parse_mode(s, i9) {
        None => {
            return None;
        },
        Some(x) => x,
    };
    let i11 = match parse_lit(s, i10, "\",\"tests\":") {
        None => {
            return None;
        },
        Some(x) => x,
    };
    let (tests, i12) = match parse_bool(s, i11) {
        None => {
            return None;
        },
        Some(x) => x,
    };
    let i13 = match parse_lit(s, i12, "}") {
        None => {
            return None;
        },
        Some(x) => x,
    };
    let rec = PlaygroundRequest {
        backtrace,
        channel,
        code: String::new(),
        crate_type,
        edition,
        mode,
        tests,
    };
    proof {
        assert(rec@ =~= PlaygroundRequestV {
            backtrace,
            channel,
            code: Seq::<char>::empty(),
            crate_type,
            edition,
            mode,
            tests,
        });
    }
    Some((rec, i13))
}

/// Reads one entry at `i` as [`sp_entry`] says.
fn parse_entry(s: &str, i: usize) -> (r: Option<((u64, PlaygroundRequest), usize)>)
    requires
        i <= s@.len(),
    ensures
        match r {
            Some(((id, rec), j)) => sp_entry(s@, i as int) == Some(((id, rec@), j as int)) && i < j
                <= s@.len(),
            None => sp_entry(s@, i as int) is None,
        },
{
    let i1 = match parse_lit(s, i, "\"") {
        None => {
            return None;
        },
        Some(x) => x,
    };
    let (id, i2) = match parse_u64(s, i1) {
        None => {
            return None;
        },
        Some(x) => x,
    };
    let i3 = match parse_lit(s, i2, "\":") {
        None => {
            return None;
        },
        Some(x) => x,
    };
    let (rec, i4) = match parse_record(s, i3) {
        None => {
            return None;
        },
        Some(x) => x,
    };
    proof {
        reveal_strlit("\"");
    }
    Some(((id, rec), i4))
}

/// Reads a whole saved store as [`sp_users`] says.
#[verifier::rlimit(100)]
fn parse_users_str(s: &str) -> (r: Option<Vec<(u64, PlaygroundRequest)>>)
    ensures
        match r {
            Some(v) => sp_users(s@) == Some(entry_views(v@)),
            None => sp_users(s@) is None,
        },
{
    let n = s.unicode_len();
    let i1 = match parse_lit(s, 0, "{") {
        None => {
            return None;
        },
        Some(x) => x,
    };
    match parse_lit(s, i1, "}") {
        Some(i2) => {
            if i2 == n {
                let v: Vec<(u64, PlaygroundRequest)> = Vec::new();
                proof {
                    assert(entry_views(v@) =~= Seq::<(u64, PlaygroundRequestV)>::empty());
                }
                return Some(v);
            } else {
                return None;
            }
        },
        None => {},
    }
    let (e0, j0) = match parse_entry(s, i1) {
        None => {
            return None;
        },
        Some(x) => x,
    };
    let ghost start: int = j0 as int;
    let mut v: Vec<(u64, PlaygroundRequest)> = Vec::new();
    let mut cur: usize = j0;
    proof {
        assert(entry_views(v@) =~= Seq::<(u64, PlaygroundRequestV)>::empty());
        if sp_rest_entries(s@, start) is Some {
            let pair = sp_rest_entries(s@, start)->Some_0;
            assert(entry_views(v@) + pair.0 =~= pair.0);
        }
    }
    loop
        invariant
            j0 <= cur <= s@.len(),
            n as nat == s@.len(),
            i1 <= s@.len(),
            start == j0 as int,
            sp_lit(s@, 0, "{"@) == Some(i1 as int),
            sp_lit(s@, i1 as int, "}"@) is None,
            sp_entry(s@, i1 as int) == Some(((e0.0, e0.1@), start)),
            match sp_rest_entries(s@, cur as int) {
                None => sp_rest_entries(s@, start) is None,
                Some((rest, k)) => sp_rest_entries(s@, start) == Some(
                    (entry_views(v@) + rest, k),
                ),
            },
        ensures
            cur <= s@.len(),
            cur as int == s@.len() || s@[cur as int] != ',',
            match sp_rest_entries(s@, cur as int) {
                None => sp_rest_entries(s@, start) is None,
                Some((rest, k)) => sp_rest_entries(s@, start) == Some(
                    (entry_views(v@) + rest, k),
                ),
            },
        decreases s@.len() - cur,
    {
        if cur >= n {
            break ;
        }
        let c = s.get_char(cur);
        if c != ',' {
            break ;
        }
        let (e, j) = match parse_entry(s, cur + 1) {
            None => {
                proof {
                    assert(sp_rest_entries(s@, cur as int) is None);
                    assert(sp_rest_entries(s@, start) is None);
                    assert(sp_users(s@) is None);
                }
                return None;
            },
            Some(x) => x,
        };
        let ghost old_v = v@;
        v.push(e);
        proof {
            assert(entry_views(v@) =~= entry_views(old_v).push((e.0, e.1@)));
            if sp_rest_entries(s@, j as int) is Some {
                let (rest, k) = sp_rest_entries(s@, j as int)->Some_0;
                assert(sp_rest_entries(s@, cur as int) == Some(
                    (seq![(e.0, e.1@)] + rest, k),
                ));
                assert(entry_views(old_v) + (seq![(e.0, e.1@)] + rest) =~= entry_views(v@)
                    + rest);
            }
        }
        cur = j;
    }
    // Here no further comma follows, so the rest list ends at `cur`.
    proof {
        assert(sp_rest_entries(s@, cur as int) == Some(
            (Seq::<(u64, PlaygroundRequestV)>::empty(), cur as int),
        ));
        assert(entry_views(v@) + Seq::<(u64, PlaygroundRequestV)>::empty() =~= entry_views(v@));
    }
    let end = match parse_lit(s, cur, "}") {
        None => {
            return None;
        },
        Some(x) => x,
    };
    if end != n {
        return None;
    }
    let ghost old_v = v@;
    v.insert(0, e0);
    proof {
        assert(entry_views(v@) =~= seq![(e0.0, e0.1@)] + entry_views(old_v));
    }
    Some(v)
}

/// Exec check of [`unique_keys`].
fn entries_unique(v: &Vec<(u64, PlaygroundRequest)>) -> (r: bool)
    ensures
        r == unique_keys(entry_views(v@)),
{
    let n = v.len();
    let mut i: usize = 0;
    while i < n
        invariant
            0 <= i <= n,
            n == v@.len(),
            forall|a: int, b: int| 0 <= a < b < v@.len() && a < i ==> (#[trigger] v@[a]).0 != (
            #[trigger] v@[b]).0,
        decreases n - i,
    {
        let mut j: usize = i + 1;
        while j < n
            invariant
                i < j <= n,
                i < n,
                n == v@.len(),
                forall|b: int| i < b < j ==> (#[trigger] v@[b]).0 != v@[i as int].0,
            decreases n - j,
        {
            if v[j].0 == v[i].0 {
                proof {
                    assert(entry_views(v@)[i as int].0 == entry_views(v@)[j as int].0);
                }
                return false;
            }
            j += 1;
        }
        i += 1;
    }
    proof {
        assert(forall|a: int, b: int|
            0 <= a < b < entry_views(v@).len() ==> (#[trigger] entry_views(v@)[a]).0 == v@[a].0
                && (#[trigger] entry_views(v@)[b]).0 == v@[b].0);
    }
    true
}

// ---------------------------------------------------------------------------
// Loading undoes saving
// ---------------------------------------------------------------------------
/// The same entries with every record's transient source text dropped, as
/// the file drops it.
pub open spec fn strip_codes(es: Seq<(u64, PlaygroundRequestV)>) -> Seq<(u64, PlaygroundRequestV)> {
    Seq::new(es.len(), |i: int| (es[i].0, es[i].1.with_code(Seq::<char>::empty())))
}

/// A rendered channel token standing right after `pre` reads back as
/// itself.
proof fn lemma_parse_channel_chunk(pre: Seq<char>, c: Channel, tail: Seq<char>)
    ensures
        sp_channel(pre + channel_str(c) + tail, pre.len() as int) == Some(
            (c, pre.len() as int + channel_str(c).len() as int),
        ),
{
    reveal_strlit("stable");
    reveal_strlit("beta");
    reveal_strlit("nightly");
    let s = pre + channel_str(c) + tail;
    let i = pre.len() as int;
    match c {
        Channel::Stable => {
            lemma_parse_lit_chunk(pre, "stable"@, tail);
        },
        Channel::Beta => {
            assert(s[i] == 'b');
            if sp_lit(s, i, "stable"@) is Some {
                assert(s.subrange(i, i + 6)[0] == s[i]);
                assert(false);
            }
            lemma_parse_lit_chunk(pre, "beta"@, tail);
        },
        Channel::Nightly => {
            assert(s[i] == 'n');
            if sp_lit(s, i, "stable"@) is Some {
                assert(s.subrange(i, i + 6)[0] == s[i]);
                assert(false);
            }
            if sp_lit(s, i, "beta"@) is Some {
                assert(s.subrange(i, i + 4)[0] == s[i]);
                assert(false);
            }
            lemma_parse_lit_chunk(pre, "nightly"@, tail);
        },
    }
}

/// A rendered mode token standing right after `pre` reads back as itself.
proof fn lemma_parse_mode_chunk(pre: Seq<char>, m: Mode, tail: Seq<char>)
    ensures
        sp_mode(pre + mode_str(m) + tail, pre.len() as int) == Some(
            (m, pre.len() as int + mode_str(m).len() as int),
        ),
{
    reveal_strlit("debug");
    reveal_strlit("release");
    let s = pre + mode_str(m) + tail;
    let i = pre.len() as int;
    match m {
        Mode::Debug => {
            lemma_parse_lit_chunk(pre, "debug"@, tail);
        },
        Mode::Release => {
            assert(s[i] == 'r');
            if sp_lit(s, i, "debug"@) is Some {
                assert(s.subrange(i, i + 5)[0] == s[i]);
                assert(false);
            }
            lemma_parse_lit_chunk(pre, "release"@, tail);
        },
    }
}

/// A rendered edition token standing right after `pre` reads back as
/// itself.
proof fn lemma_parse_edition_chunk(pre: Seq<char>, e: Edition, tail: Seq<char>)
    ensures
        sp_edition(pre + edition_str(e) + tail, pre.len() as int) == Some(
            (e, pre.len() as int + edition_str(e).len() as int),
        ),
{
    reveal_strlit("2015");
    reveal_strlit("2018");
    let s = pre + edition_str(e) + tail;
    let i = pre.len() as int;
    match e {
        Edition::E2015 => {
            lemma_parse_lit_chunk(pre, "2015"@, tail);
        },
        Edition::E2018 => {
            assert(s[i + 3] == '8');
            if sp_lit(s, i, "2015"@) is Some {
                assert(s.subrange(i, i + 4)[3] == s[i + 3]);
                assert(false);
            }
            lemma_parse_lit_chunk(pre, "2018"@, tail);
        },
    }
}

/// A rendered build-type token standing right after `pre` reads back as
/// itself.
proof fn lemma_parse_build_chunk(pre: Seq<char>, b: BuildType, tail: Seq<char>)
    ensures
        sp_build(pre + build_type_str(b) + tail, pre.len() as int) == Some(
            (b, pre.len() as int + build_type_str(b).len() as int),
        ),
{
    reveal_strlit("bin");
    reveal_strlit("lib");
    let s = pre + build_type_str(b) + tail;
    let i = pre.len() as int;
    match b {
        BuildType::Bin => {
            lemma_parse_lit_chunk(pre, "bin"@, tail);
        },
        BuildType::Lib => {
            assert(s[i] == 'l');
            if sp_lit(s, i, "bin"@) is Some {
                assert(s.subrange(i, i + 3)[0] == s[i]);
                assert(false);
            }
            lemma_parse_lit_chunk(pre, "lib"@, tail);
        },
    }
}

/// A saved record, wherever it stands, reads back as the record with empty
/// source text.
#[verifier::rlimit(100)]
proof fn lemma_record_round_trip(pre: Seq<char>, r: PlaygroundRequestV, tail: Seq<char>)
    ensures
        sp_record(pre + record_file_json(r) + tail, pre.len() as int) == Some(
            (
                r.with_code(Seq::<char>::empty()),
                pre.len() as int + record_file_json(r).len() as int,
            ),
        ),
{
    reveal(sp_record);
    let s = pre + record_file_json(r) + tail;
    let l1 = "{\"backtrace\":"@;
    let l2 = ",\"channel\":\""@;
    let l3 = "\",\"crateType\":\""@;
    let l4 = "\",\"edition\":\""@;
    let l5 = "\",\"mode\":\""@;
    let l6 = "\",\"tests\":"@;
    let l7 = "}"@;
    let b1 = json_bool(r.backtrace);
    let ch = channel_str(r.channel);
    let bt = build_type_str(r.crate_type);
    let ed = edition_str(r.edition);
    let mo = mode_str(r.mode);
    let b2 = json_bool(r.tests);
    // Prefixes of the record text, chunk by chunk.
    let q1 = l1;
    let q2 = q1 + b1;
    let q3 = q2 + l2;
    let q4 = q3 + ch;
    let q5 = q4 + l3;
    let q6 = q5 + bt;
    let q7 = q6 + l4;
    let q8 = q7 + ed;
    let q9 = q8 + l5;
    let q10 = q9 + mo;
    let q11 = q10 + l6;
    let q12 = q11 + b2;
    let q13 = q12 + l7;
    // Suffixes of the whole text, chunk by chunk.
    let u13 = tail;
    let u12 = l7 + u13;
    let u11 = b2 + u12;
    let u10 = l6 + u11;
    let u9 = mo + u10;
    let u8 = l5 + u9;
    let u7 = ed + u8;
    let u6 = l4 + u7;
    let u5 = bt + u6;
    let u4 = l3 + u5;
    let u3 = ch + u4;
    let u2 = l2 + u3;
    let u1 = b1 + u2;
    assert(record_file_json(r) == q13);
    assert(s == (pre + q13) + u13);
    // Slide the split point left, one chunk at a time.
    lemma_assoc(pre, q12, l7);
    lemma_assoc(pre + q12, l7, u13);
    assert(s == ((pre + q12) + l7) + u13);
    assert(s == (pre + q12) + u12);
    lemma_assoc(pre, q11, b2);
    lemma_assoc(pre + q11, b2, u12);
    assert(s == ((pre + q11) + b2) + u12);
    assert(s == (pre + q11) + u11);
    lemma_assoc(pre, q10, l6);
    lemma_assoc(pre + q10, l6, u11);
    assert(s == ((pre + q10) + l6) + u11);
    assert(s == (pre + q10) + u10);
    lemma_assoc(pre, q9, mo);
    lemma_assoc(pre + q9, mo, u10);
    assert(s == ((pre + q9) + mo) + u10);
    assert(s == (pre + q9) + u9);
    lemma_assoc(pre, q8, l5);
    lemma_assoc(pre + q8, l5, u9);
    assert(s == ((pre + q8) + l5) + u9);
    assert(s == (pre + q8) + u8);
    lemma_assoc(pre, q7, ed);
    lemma_assoc(pre + q7, ed, u8);
    assert(s == ((pre + q7) + ed) + u8);
    assert(s == (pre + q7) + u7);
    lemma_assoc(pre, q6, l4);
    lemma_assoc(pre + q6, l4, u7);
    assert(s == ((pre + q6) + l4) + u7);
    assert(s == (pre + q6) + u6);
    lemma_assoc(pre, q5, bt);
    lemma_assoc(pre + q5, bt, u6);
    assert(s == ((pre + q5) + bt) + u6);
    assert(s == (pre + q5) + u5);
    lemma_assoc(pre, q4, l3);
    lemma_assoc(pre + q4, l3, u5);
    assert(s == ((pre + q4) + l3) + u5);
    assert(s == (pre + q4) + u4);
    lemma_assoc(pre, q3, ch);
    lemma_assoc(pre + q3, ch, u4);
    assert(s == ((pre + q3) + ch) + u4);
    assert(s == (pre + q3) + u3);
    lemma_assoc(pre, q2, l2);
    lemma_assoc(pre + q2, l2, u3);
    assert(s == ((pre + q2) + l2) + u3);
    assert(s == (pre + q2) + u2);
    lemma_assoc(pre, q1, b1);
    lemma_assoc(pre + q1, b1, u2);
    assert(s == ((pre + q1) + b1) + u2);
    assert(s == (pre + q1) + u1);
    // Each chunk parses at its own split point.
    lemma_parse_lit_chunk(pre, l1, u1);
    lemma_parse_bool_chunk(pre + q1, r.backtrace, u2);
    lemma_parse_lit_chunk(pre + q2, l2, u3);
    lemma_parse_channel_chunk(pre + q3, r.channel, u4);
    lemma_parse_lit_chunk(pre + q4, l3, u5);
    lemma_parse_build_chunk(pre + q5, r.crate_type, u6);
    lemma_parse_lit_chunk(pre + q6, l4, u7);
    lemma_parse_edition_chunk(pre + q7, r.edition, u8);
    lemma_parse_lit_chunk(pre + q8, l5, u9);
    lemma_parse_mode_chunk(pre + q9, r.mode, u10);
    lemma_parse_lit_chunk(pre + q10, l6, u11);
    lemma_parse_bool_chunk(pre + q11, r.tests, u12);
    lemma_parse_lit_chunk(pre + q12, l7, u13);
    assert(PlaygroundRequestV {
        backtrace: r.backtrace,
        channel: r.channel,
        code: Seq::<char>::empty(),
        crate_type: r.crate_type,
        edition: r.edition,
        mode: r.mode,
        tests: r.tests,
    } =~= r.with_code(Seq::<char>::empty()));
}

/// A saved entry, wherever it stands, reads back as the entry with empty
/// source text.
proof fn lemma_entry_round_trip(pre: Seq<char>, e: (u64, PlaygroundRequestV), tail: Seq<char>)
    ensures
        sp_entry(pre + entry_json(e) + tail, pre.len() as int) == Some(
            (
                (e.0, e.1.with_code(Seq::<char>::empty())),
                pre.len() as int + entry_json(e).len() as int,
            ),
        ),
{
    reveal_strlit("\"");
    reveal_strlit("\":");
    let q = "\""@;
    let colon = "\":"@;
    let d = dec_digits(e.0 as nat);
    let rec = record_file_json(e.1);
    let s = pre + entry_json(e) + tail;
    assert(s =~= pre + q + (d + (colon + (rec + tail))));
    lemma_parse_lit_chunk(pre, q, d + (colon + (rec + tail)));
    let p1 = pre + q;
    assert(s =~= p1 + d + (colon + (rec + tail)));
    assert(s.subrange(p1.len() as int, p1.len() as int + d.len() as int) =~= d);
    assert(s[p1.len() as int + d.len() as int] == '"');
    assert(!is_digit('"'));
    lemma_u64_round_trip(s, p1.len() as int, e.0);
    let p2 = p1 + d;
    assert(s =~= p2 + colon + (rec + tail));
    lemma_parse_lit_chunk(p2, colon, rec + tail);
    let p3 = p2 + colon;
    assert(s =~= p3 + rec + tail);
    lemma_record_round_trip(p3, e.1, tail);
}

/// The saved entries after the first, followed by the closing brace, read
/// back as themselves with empty source texts.
proof fn lemma_rest_round_trip(pre: Seq<char>, es: Seq<(u64, PlaygroundRequestV)>, tail: Seq<char>)
    requires
        tail.len() > 0,
        tail[0] == '}',
    ensures
        sp_rest_entries(pre + rest_entries_json(es) + tail, pre.len() as int) == Some(
            (strip_codes(es), pre.len() as int + rest_entries_json(es).len() as int),
        ),
    decreases es.len(),
{
    reveal_strlit(",");
    reveal_strlit("\"");
    let s = pre + rest_entries_json(es) + tail;
    let i = pre.len() as int;
    if es.len() == 0 {
        assert(rest_entries_json(es) == Seq::<char>::empty());
        assert(s =~= pre + tail);
        assert(s[i] == '}');
        assert(strip_codes(es) =~= Seq::<(u64, PlaygroundRequestV)>::empty());
    } else {
        let comma = ","@;
        let ej = entry_json(es[0]);
        let rest = rest_entries_json(es.drop_first());
        assert(rest_entries_json(es) == comma + ej + rest);
        assert(s =~= pre + comma + (ej + (rest + tail)));
        assert(s[i] == ',');
        let p1 = pre + comma;
        assert(s =~= p1 + ej + (rest + tail));
        lemma_entry_round_trip(p1, es[0], rest + tail);
        let p2 = p1 + ej;
        assert(ej[0] == '"');
        assert(ej.len() >= 1);
        assert(s =~= p2 + rest + tail);
        lemma_rest_round_trip(p2, es.drop_first(), tail);
        assert(seq![(es[0].0, es[0].1.with_code(Seq::<char>::empty()))] + strip_codes(
            es.drop_first(),
        ) =~= strip_codes(es));
    }
}

/// Law: reading a saved store back yields the same entries with their
/// transient source texts dropped.
#[verifier::rlimit(100)]
pub proof fn lemma_users_round_trip(es: Seq<(u64, PlaygroundRequestV)>)
    ensures
        sp_users(users_json(es)) == Some(strip_codes(es)),
{
    reveal_strlit("{");
    reveal_strlit("}");
    reveal_strlit("{}");
    reveal_strlit("\"");
    let s = users_json(es);
    if es.len() == 0 {
        assert(s == "{}"@);
        assert(s.subrange(0, 1) =~= "{"@);
        assert(sp_lit(s, 0, "{"@) == Some(1int));
        assert(s.subrange(1, 2) =~= "}"@);
        assert(sp_lit(s, 1, "}"@) == Some(2int));
        assert(strip_codes(es) =~= Seq::<(u64, PlaygroundRequestV)>::empty());
    } else {
        let ej = entry_json(es[0]);
        let rest = rest_entries_json(es.drop_first());
        assert(s == "{"@ + ej + rest + "}"@);
        assert(s =~= Seq::<char>::empty() + "{"@ + (ej + (rest + "}"@)));
        lemma_parse_lit_chunk(Seq::<char>::empty(), "{"@, ej + (rest + "}"@));
        assert(ej[0] == '"');
        assert(s[1] == '"');
        if sp_lit(s, 1, "}"@) is Some {
            assert(s.subrange(1, 2)[0] == s[1]);
            assert(false);
        }
        let p1 = "{"@;
        assert(s =~= p1 + ej + (rest + "}"@));
        lemma_entry_round_trip(p1, es[0], rest + "}"@);
        let p2 = p1 + ej;
        assert(s =~= p2 + rest + "}"@);
        lemma_rest_round_trip(p2, es.drop_first(), "}"@);
        let p3 = p2 + rest;
        assert(s =~= p3 + "}"@ + Seq::<char>::empty());
        lemma_parse_lit_chunk(p3, "}"@, Seq::<char>::empty());
        assert(seq![(es[0].0, es[0].1.with_code(Seq::<char>::empty()))] + strip_codes(
            es.drop_first(),
        ) =~= strip_codes(es));
    }
}

/// Law: saving a store and loading the text back reproduces the entries,
/// and with them the mapping, for every store whose records carry no
/// source text — as in every store the commands build, where the `code`
/// field is transient and never stored.
pub proof fn lemma_save_load_round_trip(es: Seq<(u64, PlaygroundRequestV)>)
    requires
        unique_keys(es),
        forall|i: int| 0 <= i < es.len() ==> (#[trigger] es[i]).1.code == Seq::<char>::empty(),
    ensures
        sp_users_checked(users_json(es)) == Some(es),
{
    lemma_users_round_trip(es);
    assert forall|i: int| 0 <= i < es.len() implies strip_codes(es)[i] == es[i] by {
        assert(es[i].1.with_code(Seq::<char>::empty()) =~= es[i].1);
    }
    assert(strip_codes(es) =~= es);
}

/// Builds the store from saved text: `None` (no file) or anything but an
/// exactly saved store with distinct ids yields the empty store.
pub fn load_users_data(content: Option<&str>) -> (r: Users)
    ensures
        r.wf(),
        match content {
            Some(s) => match sp_users_checked(s@) {
                Some(entries) => r.entries_view() == entries,
                None => r.entries_view() == Seq::<(u64, PlaygroundRequestV)>::empty(),
            },
            None => r.entries_view() == Seq::<(u64, PlaygroundRequestV)>::empty(),
        },
{
    match content {
        None => Users::new(),
        Some(s) => {
            match parse_users_str(s) {
                None => Users::new(),
                Some(v) => {
                    if entries_unique(&v) {
                        Users::from_entries(v)
                    } else {
                        Users::new()
                    }
                },
            }
        },
    }
}

} // verus!
