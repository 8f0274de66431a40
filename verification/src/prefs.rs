//! The preference record remembered for each user: compiler channel,
//! optimization mode, language edition, backtrace flag, build/test selection,
//! and the last submitted source text.

use vstd::prelude::*;

verus! {

/// Compiler release channel offered by the execution service.
#[derive(Clone, Copy, Debug, PartialEq, Eq, Structural)]
pub enum Channel {
    Stable,
    Beta,
    Nightly,
}

/// Optimization mode for the submitted build.
#[derive(Clone, Copy, Debug, PartialEq, Eq, Structural)]
pub enum Mode {
    Debug,
    Release,
}

/// Language edition for the submitted build.
#[derive(Clone, Copy, Debug, PartialEq, Eq, Structural)]
pub enum Edition {
    E2015,
    E2018,
}

/// Crate shape sent to the execution service: a binary to run or a library.
#[derive(Clone, Copy, Debug, PartialEq, Eq, Structural)]
pub enum BuildType {
    Bin,
    Lib,
}

/// One user's remembered settings, plus the transient `code` field that is
/// overwritten with the submitted source right before each execution request.
#[derive(Debug, PartialEq, Eq)]
pub struct PlaygroundRequest {
    pub backtrace: bool,
    pub channel: Channel,
    pub code: String,
    pub crate_type: BuildType,
    pub edition: Edition,
    pub mode: Mode,
    pub tests: bool,
}

/// The mathematical image of a [`PlaygroundRequest`]: the same fields, with
/// the source text as a sequence of characters.
#[verifier::ext_equal]
pub struct PlaygroundRequestV {
    pub backtrace: bool,
    pub channel: Channel,
    pub code: Seq<char>,
    pub crate_type: BuildType,
    pub edition: Edition,
    pub mode: Mode,
    pub tests: bool,
}

impl View for PlaygroundRequest {
    type V = PlaygroundRequestV;

    open spec fn view(&self) -> PlaygroundRequestV {
        PlaygroundRequestV {
            backtrace: self.backtrace,
            channel: self.channel,
            code: self.code@,
            crate_type: self.crate_type,
            edition: self.edition,
            mode: self.mode,
            tests: self.tests,
        }
    }
}

/// The record every user starts with: stable channel, debug mode, edition
/// 2018, backtrace disabled, binary build, tests off, empty source text.
pub open spec fn default_record() -> PlaygroundRequestV {
    PlaygroundRequestV {
        backtrace: false,
        channel: Channel::Stable,
        code: Seq::<char>::empty(),
        crate_type: BuildType::Bin,
        edition: Edition::E2018,
        mode: Mode::Debug,
        tests: false,
    }
}

impl PlaygroundRequest {
    /// Builds the default record.
    pub fn new() -> (r: PlaygroundRequest)
        ensures
            r@ == default_record(),
    {
        let r = PlaygroundRequest {
            backtrace: false,
            channel: Channel::Stable,
            code: String::new(),
            crate_type: BuildType::Bin,
            edition: Edition::E2018,
            mode: Mode::Debug,
            tests: false,
        };
        proof {
            assert(r@ =~= default_record());
        }
        r
    }
}

/// The wire token of a channel.
pub open spec fn channel_str(c: Channel) -> Seq<char> {
    match c {
        Channel::Stable => "stable"@,
        Channel::Beta => "beta"@,
        Channel::Nightly => "nightly"@,
    }
}

/// The wire token of a mode.
pub open spec fn mode_str(m: Mode) -> Seq<char> {
    match m {
        Mode::Debug => "debug"@,
        Mode::Release => "release"@,
    }
}

/// The wire token of an edition.
pub open spec fn edition_str(e: Edition) -> Seq<char> {
    match e {
        Edition::E2015 => "2015"@,
        Edition::E2018 => "2018"@,
    }
}

/// The wire token of a build type.
pub open spec fn build_type_str(b: BuildType) -> Seq<char> {
    match b {
        BuildType::Bin => "bin"@,
        BuildType::Lib => "lib"@,
    }
}

/// Exec twin of [`channel_str`].
pub fn channel_text(c: Channel) -> (r: &'static str)
    ensures
        r@ == channel_str(c),
{
    match c {
        Channel::Stable => "stable",
        Channel::Beta => "beta",
        Channel::Nightly => "nightly",
    }
}

/// Exec twin of [`mode_str`].
pub fn mode_text(m: Mode) -> (r: &'static str)
    ensures
        r@ == mode_str(m),
{
    match m {
        Mode::Debug => "debug",
        Mode::Release => "release",
    }
}

/// Exec twin of [`edition_str`].
pub fn edition_text(e: Edition) -> (r: &'static str)
    ensures
        r@ == edition_str(e),
{
    match e {
        Edition::E2015 => "2015",
        Edition::E2018 => "2018",
    }
}

/// Exec twin of [`build_type_str`].
pub fn build_type_text(b: BuildType) -> (r: &'static str)
    ensures
        r@ == build_type_str(b),
{
    match b {
        BuildType::Bin => "bin",
        BuildType::Lib => "lib",
    }
}

impl PlaygroundRequestV {
    /// The same record with another channel.
    pub open spec fn with_channel(self, c: Channel) -> Self {
        PlaygroundRequestV { channel: c, ..self }
    }

    /// The same record with another mode.
    pub open spec fn with_mode(self, m: Mode) -> Self {
        PlaygroundRequestV { mode: m, ..self }
    }

    /// The same record with another edition.
    pub open spec fn with_edition(self, e: Edition) -> Self {
        PlaygroundRequestV { edition: e, ..self }
    }

    /// The same record with the backtrace flag set as given.
    pub open spec fn with_backtrace(self, b: bool) -> Self {
        PlaygroundRequestV { backtrace: b, ..self }
    }

    /// The same record with the build selection set as given.
    pub open spec fn with_build(self, tests: bool, crate_type: BuildType) -> Self {
        PlaygroundRequestV { tests: tests, crate_type: crate_type, ..self }
    }

    /// The same record with other source text.
    pub open spec fn with_code(self, code: Seq<char>) -> Self {
        PlaygroundRequestV { code: code, ..self }
    }
}

impl Clone for PlaygroundRequest {
    fn clone(&self) -> (r: Self)
        ensures
            r == *self,
    {
        PlaygroundRequest {
            backtrace: self.backtrace,
            channel: self.channel,
            code: self.code.clone(),
            crate_type: self.crate_type,
            edition: self.edition,
            mode: self.mode,
            tests: self.tests,
        }
    }
}

} // verus!
