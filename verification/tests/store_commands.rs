use playground_bot::commands::get_github_url;
use playground_bot::commands::get_info;
use playground_bot::commands::get_playground_url;
use playground_bot::commands::get_start_message;
use playground_bot::commands::set_backtrace;
use playground_bot::commands::set_build_type;
use playground_bot::commands::set_channel;
use playground_bot::commands::set_edition;
use playground_bot::commands::set_mode;
use playground_bot::prefs::BuildType;
use playground_bot::prefs::Channel;
use playground_bot::prefs::Edition;
use playground_bot::prefs::Mode;
use playground_bot::prefs::PlaygroundRequest;
use playground_bot::store::get_user_data;
use playground_bot::store::Users;

#[test]
fn unknown_user_gets_default_record() {
    let users = Users::new();
    let r = get_user_data(42, &users);
    assert_eq!(r, PlaygroundRequest::new());
    assert_eq!(r.backtrace, false);
    assert_eq!(r.channel, Channel::Stable);
    assert_eq!(r.code, "");
    assert_eq!(r.crate_type, BuildType::Bin);
    assert_eq!(r.edition, Edition::E2018);
    assert_eq!(r.mode, Mode::Debug);
    assert_eq!(r.tests, false);
}

#[test]
fn set_channel_stable_stores_and_replies() {
    let mut users = Users::new();
    let reply = set_channel(7, &mut users, "stable");
    assert_eq!(reply, "Channel is stable");
    assert_eq!(get_user_data(7, &users).channel, Channel::Stable);
}

#[test]
fn set_channel_keeps_typed_case_in_reply() {
    let mut users = Users::new();
    let reply = set_channel(7, &mut users, "NiGhTlY");
    assert_eq!(reply, "Channel is NiGhTlY");
    assert_eq!(get_user_data(7, &users).channel, Channel::Nightly);
}

#[test]
fn set_channel_wrong_value_changes_nothing() {
    let mut users = Users::new();
    set_channel(7, &mut users, "beta");
    let before = get_user_data(7, &users);
    let reply = set_channel(7, &mut users, "fast");
    assert_eq!(reply, "Error. Wrong channel.");
    assert_eq!(get_user_data(7, &users), before);
}

#[test]
fn set_mode_updates_record() {
    let mut users = Users::new();
    let reply = set_mode(3, &mut users, "Release");
    assert_eq!(reply, "Mode is Release");
    assert_eq!(get_user_data(3, &users).mode, Mode::Release);
}

#[test]
fn set_mode_wrong_value_changes_nothing() {
    let mut users = Users::new();
    let before = get_user_data(3, &users);
    let reply = set_mode(3, &mut users, "fast");
    assert_eq!(reply, "Error. Wrong mode.");
    assert_eq!(get_user_data(3, &users), before);
}

#[test]
fn set_edition_is_case_sensitive_on_digits() {
    let mut users = Users::new();
    let reply = set_edition(3, &mut users, "2015");
    assert_eq!(reply, "Edition is 2015");
    assert_eq!(get_user_data(3, &users).edition, Edition::E2015);
}

#[test]
fn set_edition_wrong_value_changes_nothing() {
    let mut users = Users::new();
    let before = get_user_data(3, &users);
    let reply = set_edition(3, &mut users, "2021");
    assert_eq!(reply, "Error. Wrong edition.");
    assert_eq!(get_user_data(3, &users), before);
}

#[test]
fn set_backtrace_enabled_and_disabled() {
    let mut users = Users::new();
    let reply = set_backtrace(9, &mut users, "Enabled");
    assert_eq!(reply, "Backtrace Enabled");
    assert!(get_user_data(9, &users).backtrace);
    let reply = set_backtrace(9, &mut users, "disabled");
    assert_eq!(reply, "Backtrace disabled");
    assert!(!get_user_data(9, &users).backtrace);
}

#[test]
fn set_backtrace_wrong_value_changes_nothing() {
    let mut users = Users::new();
    set_backtrace(9, &mut users, "enabled");
    let before = get_user_data(9, &users);
    let reply = set_backtrace(9, &mut users, "on");
    assert_eq!(reply, "Error. Wrong backtrace.");
    assert_eq!(get_user_data(9, &users), before);
}

#[test]
fn set_build_type_test_turns_tests_on_lib() {
    let mut users = Users::new();
    let reply = set_build_type(4, &mut users, "test");
    assert_eq!(reply, "test build type set.");
    let r = get_user_data(4, &users);
    assert_eq!(r.tests, true);
    assert_eq!(r.crate_type, BuildType::Lib);
}

#[test]
fn set_build_type_run_turns_tests_off_bin() {
    let mut users = Users::new();
    set_build_type(4, &mut users, "test");
    let reply = set_build_type(4, &mut users, "run");
    assert_eq!(reply, "run build type set.");
    let r = get_user_data(4, &users);
    assert_eq!(r.tests, false);
    assert_eq!(r.crate_type, BuildType::Bin);
}

#[test]
fn set_build_type_build_selects_lib_without_tests() {
    let mut users = Users::new();
    let reply = set_build_type(4, &mut users, "build");
    assert_eq!(reply, "build build type set.");
    let r = get_user_data(4, &users);
    assert_eq!(r.tests, false);
    assert_eq!(r.crate_type, BuildType::Lib);
}

#[test]
fn set_build_type_wrong_value_changes_nothing() {
    let mut users = Users::new();
    let before = get_user_data(4, &users);
    let reply = set_build_type(4, &mut users, "check");
    assert_eq!(reply, "Error. Wrong build type.");
    assert_eq!(get_user_data(4, &users), before);
}

#[test]
fn two_writes_for_different_users_both_kept() {
    let mut users = Users::new();
    set_channel(1, &mut users, "beta");
    set_mode(2, &mut users, "release");
    assert_eq!(get_user_data(1, &users).channel, Channel::Beta);
    assert_eq!(get_user_data(2, &users).mode, Mode::Release);
}

#[test]
fn second_write_for_same_user_overwrites() {
    let mut users = Users::new();
    set_channel(1, &mut users, "beta");
    set_channel(1, &mut users, "nightly");
    assert_eq!(get_user_data(1, &users).channel, Channel::Nightly);
}

#[test]
fn start_message_names_the_playground() {
    let msg = get_start_message();
    assert!(msg.starts_with("Welcome! Let's go deeper to Rust.\n\n"));
    assert!(msg.contains("https://play.rust-lang.org/"));
    assert!(msg.ends_with("https://github.com/vyavdoshenko/rust_playground_bot"));
}

#[test]
fn fixed_urls() {
    assert_eq!(get_playground_url(), "https://play.rust-lang.org/");
    assert_eq!(
        get_github_url(),
        "https://github.com/vyavdoshenko/rust_playground_bot"
    );
}

#[test]
fn info_reports_all_settings_in_order() {
    let mut users = Users::new();
    set_channel(5, &mut users, "beta");
    set_backtrace(5, &mut users, "enabled");
    set_build_type(5, &mut users, "test");
    let info = get_info(5, &users);
    assert_eq!(
        info,
        "Backtrace: enabled\nChannel: beta\nEdition: 2018\nMode: debug\nCrate type: lib\nTests: enabled"
    );
}

#[test]
fn info_for_unknown_user_shows_defaults() {
    let users = Users::new();
    assert_eq!(
        get_info(123, &users),
        "Backtrace: disabled\nChannel: stable\nEdition: 2018\nMode: debug\nCrate type: bin\nTests: disabled"
    );
}
