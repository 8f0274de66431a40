//! A playground bot core: a per-user preference store, a command
//! interpreter over the bot's text commands, and the encoder/decoder for
//! the remote execution service's JSON wire format, all verified.
//!
//! Transport concerns (long polling, HTTP, signals, the backing file) live
//! in the surrounding application; this crate works on plain values.

use vstd::prelude::*;

pub mod commands;
pub mod json;
pub mod numbers;
pub mod prefs;
pub mod response;
pub mod storage;
pub mod store;
pub mod text;
pub mod wire;

verus! {

use crate::commands::Command;
use crate::commands::CommandV;
use crate::commands::apply_set_backtrace;
use crate::commands::apply_set_build_type;
use crate::commands::apply_set_channel;
use crate::commands::apply_set_edition;
use crate::commands::apply_set_mode;
use crate::commands::get_github_url;
use crate::commands::get_info;
use crate::commands::get_playground_url;
use crate::commands::get_start_message;
use crate::commands::github_url_text;
use crate::commands::info_text;
use crate::commands::parse_command;
use crate::commands::parse_command_spec;
use crate::commands::playground_url_text;
use crate::commands::set_backtrace;
use crate::commands::set_build_type;
use crate::commands::set_channel;
use crate::commands::set_edition;
use crate::commands::set_mode;
use crate::commands::start_message_text;
use crate::prefs::PlaygroundRequestV;
use crate::store::Users;
use crate::store::stored_or_default;
use crate::wire::build_execute_request;
use crate::wire::request_json;

/// What the dispatcher asks the surrounding application to do with one
/// incoming message: send a reply as it stands, or post the given body to
/// the execution service and relay what comes back.
#[derive(Debug, PartialEq, Eq)]
pub enum Outcome {
    Reply(String),
    Execute(String),
}

/// The mathematical image of an [`Outcome`].
pub enum OutcomeV {
    Reply(Seq<char>),
    Execute(Seq<char>),
}

impl View for Outcome {
    type V = OutcomeV;

    open spec fn view(&self) -> OutcomeV {
        match self {
            Outcome::Reply(t) => OutcomeV::Reply(t@),
            Outcome::Execute(t) => OutcomeV::Execute(t@),
        }
    }
}

/// What handling one message does to the store, and what it asks the
/// application to do next.
pub open spec fn spec_handle_message(
    m: Map<u64, PlaygroundRequestV>,
    user_id: u64,
    text: Seq<char>,
) -> (Map<u64, PlaygroundRequestV>, OutcomeV) {
    match parse_command_spec(text) {
        CommandV::Start => (m, OutcomeV::Reply(start_message_text())),
        CommandV::Playground => (m, OutcomeV::Reply(playground_url_text())),
        CommandV::Github => (m, OutcomeV::Reply(github_url_text())),
        CommandV::Info => (m, OutcomeV::Reply(info_text(stored_or_default(m, user_id)))),
        CommandV::SetChannel(v) => {
            let (m2, reply) = apply_set_channel(m, user_id, v);
            (m2, OutcomeV::Reply(reply))
        },
        CommandV::SetMode(v) => {
            let (m2, reply) = apply_set_mode(m, user_id, v);
            (m2, OutcomeV::Reply(reply))
        },
        CommandV::SetEdition(v) => {
            let (m2, reply) = apply_set_edition(m, user_id, v);
            (m2, OutcomeV::Reply(reply))
        },
        CommandV::SetBacktrace(v) => {
            let (m2, reply) = apply_set_backtrace(m, user_id, v);
            (m2, OutcomeV::Reply(reply))
        },
        CommandV::SetBuildType(v) => {
            let (m2, reply) = apply_set_build_type(m, user_id, v);
            (m2, OutcomeV::Reply(reply))
        },
        CommandV::Execute(code) => (
            m,
            OutcomeV::Execute(request_json(stored_or_default(m, user_id).with_code(code))),
        ),
    }
}

/// Routes one incoming text: answers the fixed commands and the preference
/// mutations itself, and hands back the wire request body for anything
/// else, which the application posts to the execution service.
pub fn handle_message(user_id: u64, users: &mut Users, text: &str) -> (out: Outcome)
    requires
        old(users).wf(),
    ensures
        final(users).wf(),
        (final(users)@, out@) == spec_handle_message(old(users)@, user_id, text@),
{
    let cmd = parse_command(text);
    match cmd {
        Command::Start => Outcome::Reply(get_start_message()),
        Command::Playground => Outcome::Reply(get_playground_url()),
        Command::Github => Outcome::Reply(get_github_url()),
        Command::Info => Outcome::Reply(get_info(user_id, users)),
        Command::SetChannel(v) => Outcome::Reply(set_channel(user_id, users, v.as_str())),
        Command::SetMode(v) => Outcome::Reply(set_mode(user_id, users, v.as_str())),
        Command::SetEdition(v) => Outcome::Reply(set_edition(user_id, users, v.as_str())),
        Command::SetBacktrace(v) => Outcome::Reply(set_backtrace(user_id, users, v.as_str())),
        Command::SetBuildType(v) => Outcome::Reply(set_build_type(user_id, users, v.as_str())),
        Command::Execute(code) => Outcome::Execute(
            build_execute_request(user_id, users, code.as_str()),
        ),
    }
}

} // verus!
