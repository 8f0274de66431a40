//! The command interpreter: parsing an incoming text into a command, the
//! static replies, and the preference-mutation commands.
//!
//! A mutation command whose value lies outside the documented set leaves the
//! store untouched and yields a fixed error text.

use vstd::prelude::*;
use vstd::string::StrSliceExecFns;
use vstd::string::StringExecFns;

use crate::prefs::BuildType;
use crate::prefs::Channel;
use crate::prefs::Edition;
use crate::prefs::Mode;
use crate::prefs::PlaygroundRequestV;
use crate::prefs::build_type_text;
use crate::prefs::channel_text;
use crate::prefs::edition_text;
use crate::prefs::build_type_str;
use crate::prefs::channel_str;
use crate::prefs::edition_str;
use crate::prefs::mode_str;
use crate::prefs::mode_text;
use crate::store::Users;
use crate::store::get_user_data;
use crate::store::stored_or_default;
use crate::text::eq_lowered;
use crate::text::has_prefix;
use crate::text::lower_seq;
use crate::text::starts_with_seq;
use crate::text::str_eq;

verus! {

// ---------------------------------------------------------------------------
// Static replies
// ---------------------------------------------------------------------------
/// The welcome text sent for `/start`.
pub open spec fn start_message_text() -> Seq<char> {
    "Welcome! Let's go deeper to Rust.\n\nIt's Rust Playground Bot.\nYou can check some pieces of your Rust code, sending it to me.\nI will check it using Rust playground: https://play.rust-lang.org/\n\nThis Bot is an open-source project.\nhttps://github.com/vyavdoshenko/rust_playground_bot"@
}

/// The playground's address, sent for `/playground`.
pub open spec fn playground_url_text() -> Seq<char> {
    "https://play.rust-lang.org/"@
}

/// The project's address, sent for `/github`.
pub open spec fn github_url_text() -> Seq<char> {
    "https://github.com/vyavdoshenko/rust_playground_bot"@
}

/// The welcome text.
pub fn get_start_message() -> (r: String)
    ensures
        r@ == start_message_text(),
{
    String::from_str(
        "Welcome! Let's go deeper to Rust.\n\nIt's Rust Playground Bot.\nYou can check some pieces of your Rust code, sending it to me.\nI will check it using Rust playground: https://play.rust-lang.org/\n\nThis Bot is an open-source project.\nhttps://github.com/vyavdoshenko/rust_playground_bot",
    )
}

/// The playground's address.
pub fn get_playground_url() -> (r: String)
    ensures
        r@ == playground_url_text(),
{
    String::from_str("https://play.rust-lang.org/")
}

/// The project's address.
pub fn get_github_url() -> (r: String)
    ensures
        r@ == github_url_text(),
{
    String::from_str("https://github.com/vyavdoshenko/rust_playground_bot")
}

// ---------------------------------------------------------------------------
// The settings summary
// ---------------------------------------------------------------------------
/// The `/info` summary of one record: backtrace, channel, edition, mode,
/// build type and tests, in that order.
pub open spec fn info_text(r: PlaygroundRequestV) -> Seq<char> {
    "Backtrace: "@ + (if r.backtrace {
        "enabled\n"@
    } else {
        "disabled\n"@
    }) + "Channel: "@ + channel_str(r.channel) + "\nEdition: "@ + edition_str(r.edition)
        + "\nMode: "@ + mode_str(r.mode) + "\nCrate type: "@ + build_type_str(r.crate_type)
        + "\nTests: "@ + (if r.tests {
        "enabled"@
    } else {
        "disabled"@
    })
}

/// Formats the stored settings of `user_id` (or the defaults) for `/info`.
pub fn get_info(user_id: u64, users: &Users) -> (r: String)
    requires
        users.wf(),
    ensures
        r@ == info_text(stored_or_default(users@, user_id)),
{
    let data = get_user_data(user_id, users);

    let mut value = String::from_str("Backtrace: ");
    if data.backtrace {
        value.append("enabled\n");
    } else {
        value.append("disabled\n");
    }
    value.append("Channel: ");
    value.append(channel_text(data.channel));
    value.append("\nEdition: ");
    value.append(edition_text(data.edition));
    value.append("\nMode: ");
    value.append(mode_text(data.mode));
    value.append("\nCrate type: ");
    value.append(build_type_text(data.crate_type));
    value.append("\nTests: ");
    if data.tests {
        value.append("enabled");
    } else {
        value.append("disabled");
    }
    proof {
        assert(value@ =~= info_text(stored_or_default(users@, user_id)));
    }
    value
}

// ---------------------------------------------------------------------------
// Value enumerations
// ---------------------------------------------------------------------------
/// The channel values accepted by `/set_channel`, up to ASCII case.
pub open spec fn valid_channel_value(s: Seq<char>) -> bool {
    lower_seq(s) == "stable"@ || lower_seq(s) == "beta"@ || lower_seq(s) == "nightly"@
}

/// The channel a valid `/set_channel` value names.
pub open spec fn channel_of_value(s: Seq<char>) -> Channel {
    if lower_seq(s) == "stable"@ {
        Channel::Stable
    } else if lower_seq(s) == "beta"@ {
        Channel::Beta
    } else {
        Channel::Nightly
    }
}

/// The mode values accepted by `/set_mode`, up to ASCII case.
pub open spec fn valid_mode_value(s: Seq<char>) -> bool {
    lower_seq(s) == "debug"@ || lower_seq(s) == "release"@
}

/// The mode a valid `/set_mode` value names.
pub open spec fn mode_of_value(s: Seq<char>) -> Mode {
    if lower_seq(s) == "debug"@ {
        Mode::Debug
    } else {
        Mode::Release
    }
}

/// The edition values accepted by `/set_edition`; the comparison is
/// case-sensitive (digits only).
pub open spec fn valid_edition_value(s: Seq<char>) -> bool {
    s == "2015"@ || s == "2018"@
}

/// The edition a valid `/set_edition` value names.
pub open spec fn edition_of_value(s: Seq<char>) -> Edition {
    if s == "2015"@ {
        Edition::E2015
    } else {
        Edition::E2018
    }
}

/// The backtrace values accepted by `/set_backtrace`, up to ASCII case.
pub open spec fn valid_backtrace_value(s: Seq<char>) -> bool {
    lower_seq(s) == "enabled"@ || lower_seq(s) == "disabled"@
}

/// The flag a valid `/set_backtrace` value names.
pub open spec fn backtrace_of_value(s: Seq<char>) -> bool {
    lower_seq(s) == "enabled"@
}

/// The build-type values accepted by `/set_build_type`, up to ASCII case.
pub open spec fn valid_build_type_value(s: Seq<char>) -> bool {
    lower_seq(s) == "run"@ || lower_seq(s) == "build"@ || lower_seq(s) == "test"@
}

/// Whether a valid `/set_build_type` value turns tests on: only `test` does.
pub open spec fn tests_of_value(s: Seq<char>) -> bool {
    lower_seq(s) == "test"@
}

/// The crate shape a valid `/set_build_type` value selects: `run` builds a
/// binary, `build` and `test` a library.
pub open spec fn build_of_value(s: Seq<char>) -> BuildType {
    if lower_seq(s) == "run"@ {
        BuildType::Bin
    } else {
        BuildType::Lib
    }
}

/// The accepted command values are all lowercase already, and no two of one
/// command agree.
proof fn lemma_value_literals()
    ensures
        lower_seq("stable"@) == "stable"@,
        lower_seq("beta"@) == "beta"@,
        lower_seq("nightly"@) == "nightly"@,
        lower_seq("debug"@) == "debug"@,
        lower_seq("release"@) == "release"@,
        lower_seq("enabled"@) == "enabled"@,
        lower_seq("disabled"@) == "disabled"@,
        lower_seq("run"@) == "run"@,
        lower_seq("build"@) == "build"@,
        lower_seq("test"@) == "test"@,
        "stable"@ != "beta"@,
        "stable"@ != "nightly"@,
        "beta"@ != "nightly"@,
        "debug"@ != "release"@,
        "enabled"@ != "disabled"@,
        "run"@ != "build"@,
        "run"@ != "test"@,
        "build"@ != "test"@,
{
    reveal_strlit("stable");
    reveal_strlit("beta");
    reveal_strlit("nightly");
    reveal_strlit("debug");
    reveal_strlit("release");
    reveal_strlit("enabled");
    reveal_strlit("disabled");
    reveal_strlit("run");
    reveal_strlit("build");
    reveal_strlit("test");
    assert(lower_seq("stable"@) =~= "stable"@);
    assert(lower_seq("beta"@) =~= "beta"@);
    assert(lower_seq("nightly"@) =~= "nightly"@);
    assert(lower_seq("debug"@) =~= "debug"@);
    assert(lower_seq("release"@) =~= "release"@);
    assert(lower_seq("enabled"@) =~= "enabled"@);
    assert(lower_seq("disabled"@) =~= "disabled"@);
    assert(lower_seq("run"@) =~= "run"@);
    assert(lower_seq("build"@) =~= "build"@);
    assert(lower_seq("test"@) =~= "test"@);
}

// ---------------------------------------------------------------------------
// Preference-mutation commands
// ---------------------------------------------------------------------------
/// What `/set_channel` does to the store and replies.
pub open spec fn apply_set_channel(
    m: Map<u64, PlaygroundRequestV>,
    u: u64,
    data: Seq<char>,
) -> (Map<u64, PlaygroundRequestV>, Seq<char>) {
    if valid_channel_value(data) {
        (
            m.insert(u, stored_or_default(m, u).with_channel(channel_of_value(data))),
            "Channel is "@ + data,
        )
    } else {
        (m, "Error. Wrong channel."@)
    }
}

/// What `/set_mode` does to the store and replies.
pub open spec fn apply_set_mode(
    m: Map<u64, PlaygroundRequestV>,
    u: u64,
    data: Seq<char>,
) -> (Map<u64, PlaygroundRequestV>, Seq<char>) {
    if valid_mode_value(data) {
        (m.insert(u, stored_or_default(m, u).with_mode(mode_of_value(data))), "Mode is "@ + data)
    } else {
        (m, "Error. Wrong mode."@)
    }
}

/// What `/set_edition` does to the store and replies.
pub open spec fn apply_set_edition(
    m: Map<u64, PlaygroundRequestV>,
    u: u64,
    data: Seq<char>,
) -> (Map<u64, PlaygroundRequestV>, Seq<char>) {
    if valid_edition_value(data) {
        (
            m.insert(u, stored_or_default(m, u).with_edition(edition_of_value(data))),
            "Edition is "@ + data,
        )
    } else {
        (m, "Error. Wrong edition."@)
    }
}

/// What `/set_backtrace` does to the store and replies.
pub open spec fn apply_set_backtrace(
    m: Map<u64, PlaygroundRequestV>,
    u: u64,
    data: Seq<char>,
) -> (Map<u64, PlaygroundRequestV>, Seq<char>) {
    if valid_backtrace_value(data) {
        (
            m.insert(u, stored_or_default(m, u).with_backtrace(backtrace_of_value(data))),
            "Backtrace "@ + data,
        )
    } else {
        (m, "Error. Wrong backtrace."@)
    }
}

/// What `/set_build_type` does to the store and replies.
pub open spec fn apply_set_build_type(
    m: Map<u64, PlaygroundRequestV>,
    u: u64,
    data: Seq<char>,
) -> (Map<u64, PlaygroundRequestV>, Seq<char>) {
    if valid_build_type_value(data) {
        (
            m.insert(u, stored_or_default(m, u).with_build(tests_of_value(data), build_of_value(data))),
            data + " build type set."@,
        )
    } else {
        (m, "Error. Wrong build type."@)
    }
}

/// Sets the channel for `user_id` when `data` names one, else replies with
/// the fixed error text and stores nothing.
pub fn set_channel(user_id: u64, users: &mut Users, data: &str) -> (reply: String)
    requires
        old(users).wf(),
    ensures
        final(users).wf(),
        (final(users)@, reply@) == apply_set_channel(old(users)@, user_id, data@),
{
    proof {
        lemma_value_literals();
    }
    let stable = eq_lowered(data, "stable");
    let beta = eq_lowered(data, "beta");
    let nightly = eq_lowered(data, "nightly");
    if stable || beta || nightly {
        let mut user_data = get_user_data(user_id, users);
        let mut value = String::from_str("Channel is ");
        value.append(data);
        user_data.channel = if stable {
            Channel::Stable
        } else if beta {
            Channel::Beta
        } else {
            Channel::Nightly
        };
        proof {
            assert(user_data@ =~= stored_or_default(users@, user_id).with_channel(
                channel_of_value(data@),
            ));
        }
        users.set_record(user_id, user_data);
        value
    } else {
        String::from_str("Error. Wrong channel.")
    }
}

/// Sets the mode for `user_id` when `data` names one, else replies with the
/// fixed error text and stores nothing.
pub fn set_mode(user_id: u64, users: &mut Users, data: &str) -> (reply: String)
    requires
        old(users).wf(),
    ensures
        final(users).wf(),
        (final(users)@, reply@) == apply_set_mode(old(users)@, user_id, data@),
{
    proof {
        lemma_value_literals();
    }
    let debug = eq_lowered(data, "debug");
    let release = eq_lowered(data, "release");
    if debug || release {
        let mut user_data = get_user_data(user_id, users);
        let mut value = String::from_str("Mode is ");
        value.append(data);
        user_data.mode = if debug {
            Mode::Debug
        } else {
            Mode::Release
        };
        proof {
            assert(user_data@ =~= stored_or_default(users@, user_id).with_mode(
                mode_of_value(data@),
            ));
        }
        users.set_record(user_id, user_data);
        value
    } else {
        String::from_str("Error. Wrong mode.")
    }
}

/// Sets the edition for `user_id` when `data` names one (case-sensitively),
/// else replies with the fixed error text and stores nothing.
pub fn set_edition(user_id: u64, users: &mut Users, data: &str) -> (reply: String)
    requires
        old(users).wf(),
    ensures
        final(users).wf(),
        (final(users)@, reply@) == apply_set_edition(old(users)@, user_id, data@),
{
    let e2015 = str_eq(data, "2015");
    let e2018 = str_eq(data, "2018");
    if e2015 || e2018 {
        let mut user_data = get_user_data(user_id, users);
        let mut value = String::from_str("Edition is ");
        value.append(data);
        user_data.edition = if e2015 {
            Edition::E2015
        } else {
            Edition::E2018
        };
        proof {
            assert(user_data@ =~= stored_or_default(users@, user_id).with_edition(
                edition_of_value(data@),
            ));
        }
        users.set_record(user_id, user_data);
        value
    } else {
        String::from_str("Error. Wrong edition.")
    }
}

/// Turns the backtrace flag on or off for `user_id` when `data` says
/// `enabled` or `disabled`, else replies with the fixed error text and
/// stores nothing.
pub fn set_backtrace(user_id: u64, users: &mut Users, data: &str) -> (reply: String)
    requires
        old(users).wf(),
    ensures
        final(users).wf(),
        (final(users)@, reply@) == apply_set_backtrace(old(users)@, user_id, data@),
{
    proof {
        lemma_value_literals();
    }
    let enabled = eq_lowered(data, "enabled");
    let disabled = eq_lowered(data, "disabled");
    if enabled || disabled {
        let mut user_data = get_user_data(user_id, users);
        user_data.backtrace = enabled;
        proof {
            assert(user_data@ =~= stored_or_default(users@, user_id).with_backtrace(
                backtrace_of_value(data@),
            ));
        }
        users.set_record(user_id, user_data);
        let mut value = String::from_str("Backtrace ");
        value.append(data);
        value
    } else {
        String::from_str("Error. Wrong backtrace.")
    }
}

/// Selects the build type for `user_id` when `data` says `run`, `build` or
/// `test`, else replies with the fixed error text and stores nothing.
/// `test` turns tests on; only `run` builds a binary.
pub fn set_build_type(user_id: u64, users: &mut Users, data: &str) -> (reply: String)
    requires
        old(users).wf(),
    ensures
        final(users).wf(),
        (final(users)@, reply@) == apply_set_build_type(old(users)@, user_id, data@),
{
    proof {
        lemma_value_literals();
    }
    let run = eq_lowered(data, "run");
    let build = eq_lowered(data, "build");
    let test = eq_lowered(data, "test");
    if run || build || test {
        let mut user_data = get_user_data(user_id, users);
        user_data.tests = test;
        user_data.crate_type = if run {
            BuildType::Bin
        } else {
            BuildType::Lib
        };
        proof {
            assert(user_data@ =~= stored_or_default(users@, user_id).with_build(
                tests_of_value(data@),
                build_of_value(data@),
            ));
        }
        users.set_record(user_id, user_data);
        let mut value = String::new();
        value.append(data);
        value.append(" build type set.");
        proof {
            assert(value@ =~= data@ + " build type set."@);
        }
        value
    } else {
        String::from_str("Error. Wrong build type.")
    }
}

// ---------------------------------------------------------------------------
// Parsing a message into a command
// ---------------------------------------------------------------------------
/// A parsed incoming message: one of the fixed commands, a preference
/// mutation carrying its value text, or source code to execute.
#[derive(Debug, PartialEq, Eq)]
pub enum Command {
    Start,
    Playground,
    Github,
    Info,
    SetChannel(String),
    SetMode(String),
    SetEdition(String),
    SetBacktrace(String),
    SetBuildType(String),
    Execute(String),
}

/// The mathematical image of a [`Command`].
pub enum CommandV {
    Start,
    Playground,
    Github,
    Info,
    SetChannel(Seq<char>),
    SetMode(Seq<char>),
    SetEdition(Seq<char>),
    SetBacktrace(Seq<char>),
    SetBuildType(Seq<char>),
    Execute(Seq<char>),
}

impl View for Command {
    type V = CommandV;

    open spec fn view(&self) -> CommandV {
        match self {
            Command::Start => CommandV::Start,
            Command::Playground => CommandV::Playground,
            Command::Github => CommandV::Github,
            Command::Info => CommandV::Info,
            Command::SetChannel(s) => CommandV::SetChannel(s@),
            Command::SetMode(s) => CommandV::SetMode(s@),
            Command::SetEdition(s) => CommandV::SetEdition(s@),
            Command::SetBacktrace(s) => CommandV::SetBacktrace(s@),
            Command::SetBuildType(s) => CommandV::SetBuildType(s@),
            Command::Execute(s) => CommandV::Execute(s@),
        }
    }
}

/// The rest of `t` after the prefix `p`.
pub open spec fn after_prefix(t: Seq<char>, p: Seq<char>) -> Seq<char> {
    t.subrange(p.len() as int, t.len() as int)
}

/// How an incoming text is read: the four exact commands first, then the
/// five mutation prefixes (whose value is everything after the space), and
/// anything else is source code.
pub open spec fn parse_command_spec(t: Seq<char>) -> CommandV {
    if t == "/start"@ {
        CommandV::Start
    } else if t == "/playground"@ {
        CommandV::Playground
    } else if t == "/github"@ {
        CommandV::Github
    } else if t == "/info"@ {
        CommandV::Info
    } else if starts_with_seq(t, "/set_channel "@) {
        CommandV::SetChannel(after_prefix(t, "/set_channel "@))
    } else if starts_with_seq(t, "/set_mode "@) {
        CommandV::SetMode(after_prefix(t, "/set_mode "@))
    } else if starts_with_seq(t, "/set_edition "@) {
        CommandV::SetEdition(after_prefix(t, "/set_edition "@))
    } else if starts_with_seq(t, "/set_backtrace "@) {
        CommandV::SetBacktrace(after_prefix(t, "/set_backtrace "@))
    } else if starts_with_seq(t, "/set_build_type "@) {
        CommandV::SetBuildType(after_prefix(t, "/set_build_type "@))
    } else {
        CommandV::Execute(t)
    }
}

/// Reads an incoming text as [`parse_command_spec`] says.
pub fn parse_command(text: &str) -> (c: Command)
    ensures
        c@ == parse_command_spec(text@),
{
    if str_eq(text, "/start") {
        Command::Start
    } else if str_eq(text, "/playground") {
        Command::Playground
    } else if str_eq(text, "/github") {
        Command::Github
    } else if str_eq(text, "/info") {
        Command::Info
    } else if has_prefix(text, "/set_channel ") {
        let p = "/set_channel ";
        let v = text.substring_char(p.unicode_len(), text.unicode_len());
        Command::SetChannel(String::from_str(v))
    } else if has_prefix(text, "/set_mode ") {
        let p = "/set_mode ";
        let v = text.substring_char(p.unicode_len(), text.unicode_len());
        Command::SetMode(String::from_str(v))
    } else if has_prefix(text, "/set_edition ") {
        let p = "/set_edition ";
        let v = text.substring_char(p.unicode_len(), text.unicode_len());
        Command::SetEdition(String::from_str(v))
    } else if has_prefix(text, "/set_backtrace ") {
        let p = "/set_backtrace ";
        let v = text.substring_char(p.unicode_len(), text.unicode_len());
        Command::SetBacktrace(String::from_str(v))
    } else if has_prefix(text, "/set_build_type ") {
        let p = "/set_build_type ";
        let v = text.substring_char(p.unicode_len(), text.unicode_len());
        Command::SetBuildType(String::from_str(v))
    } else {
        Command::Execute(String::from_str(text))
    }
}

} // verus!
