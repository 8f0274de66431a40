use playground_bot::commands::set_backtrace;
use playground_bot::commands::set_channel;
use playground_bot::handle_message;
use playground_bot::response::create_response_report;
use playground_bot::response::decode_execute_response;
use playground_bot::response::execution_error_message;
use playground_bot::response::parse_playground_response;
use playground_bot::response::ExecutionError;
use playground_bot::response::PlaygroundResponse;
use playground_bot::store::get_user_data;
use playground_bot::store::Users;
use playground_bot::wire::build_execute_request;
use playground_bot::Outcome;

#[test]
fn request_body_for_default_settings() {
    let users = Users::new();
    let body = build_execute_request(1, &users, "fn main() {}");
    assert_eq!(
        body,
        "{\"backtrace\":false,\"channel\":\"stable\",\"code\":\"fn main() {}\",\"crateType\":\"bin\",\"edition\":\"2018\",\"mode\":\"debug\",\"tests\":false}"
    );
}

#[test]
fn request_body_reflects_stored_settings() {
    let mut users = Users::new();
    set_channel(1, &mut users, "nightly");
    set_backtrace(1, &mut users, "enabled");
    let body = build_execute_request(1, &users, "x");
    assert_eq!(
        body,
        "{\"backtrace\":true,\"channel\":\"nightly\",\"code\":\"x\",\"crateType\":\"bin\",\"edition\":\"2018\",\"mode\":\"debug\",\"tests\":false}"
    );
}

#[test]
fn request_body_escapes_the_code() {
    let users = Users::new();
    let code = "a\"b\\c\nd\te\rf\u{1}g";
    let body = build_execute_request(1, &users, code);
    assert_eq!(
        body,
        "{\"backtrace\":false,\"channel\":\"stable\",\"code\":\"a\\\"b\\\\c\\nd\\te\\rf\\u0001g\",\"crateType\":\"bin\",\"edition\":\"2018\",\"mode\":\"debug\",\"tests\":false}"
    );
}

#[test]
fn successful_response_report_has_both_sections() {
    let resp = PlaygroundResponse {
        success: true,
        stdout: String::from("OK"),
        stderr: String::from(""),
    };
    let report = create_response_report(&resp);
    assert!(report.contains("---- Standard Error ----"));
    assert!(report.contains("---- Standard Output ----"));
    assert!(report.ends_with("OK"));
    assert_eq!(
        report,
        "---- Standard Error ----\n\n\n---- Standard Output ----\n\nOK"
    );
}

#[test]
fn failed_response_report_withholds_stdout() {
    let resp = PlaygroundResponse {
        success: false,
        stdout: String::from("X"),
        stderr: String::from("boom"),
    };
    let report = create_response_report(&resp);
    assert!(report.contains("boom"));
    assert!(!report.contains("X"));
    assert_eq!(report, "---- Standard Error ----\n\nboom");
}

#[test]
fn decode_wire_response_success() {
    let body = "{\"success\":true,\"stdout\":\"OK\",\"stderr\":\"\"}";
    let report = decode_execute_response(body).unwrap();
    assert!(report.contains("---- Standard Error ----"));
    assert!(report.contains("---- Standard Output ----"));
    assert!(report.ends_with("OK"));
}

#[test]
fn decode_wire_response_failure_hides_stdout() {
    let body = "{\"success\":false,\"stdout\":\"X\",\"stderr\":\"boom\"}";
    let report = decode_execute_response(body).unwrap();
    assert!(report.contains("boom"));
    assert!(!report.contains("X"));
}

#[test]
fn response_keys_may_come_in_any_order_with_whitespace() {
    let body = " {\n  \"stderr\": \"e\",\t\"success\": true , \"stdout\": \"o\"\n} ";
    let resp = parse_playground_response(body).unwrap();
    assert!(resp.success);
    assert_eq!(resp.stdout, "o");
    assert_eq!(resp.stderr, "e");
}

#[test]
fn response_string_escapes_are_decoded() {
    let body = "{\"success\":true,\"stdout\":\"a\\nb\\t\\\"q\\\"\\\\s\\/\\u0041\\u001b\",\"stderr\":\"\"}";
    let resp = parse_playground_response(body).unwrap();
    assert_eq!(resp.stdout, "a\nb\t\"q\"\\s/A\u{1b}");
}

#[test]
fn malformed_responses_are_rejected() {
    for bad in [
        "",
        "null",
        "{}",
        "{\"success\":true}",
        "{\"success\":true,\"stdout\":\"o\"}",
        "{\"success\":true,\"stdout\":\"o\",\"stderr\":\"e\",\"extra\":1}",
        "{\"success\":true,\"stdout\":\"o\",\"stderr\":\"e\"} trailing",
        "{\"success\":true,\"success\":false,\"stdout\":\"o\",\"stderr\":\"e\"}",
        "{\"success\":\"yes\",\"stdout\":\"o\",\"stderr\":\"e\"}",
        "{\"success\":true,\"stdout\":\"o\",\"stderr\":\"unterminated}",
    ] {
        assert!(parse_playground_response(bad).is_none(), "text: {}", bad);
        assert_eq!(
            decode_execute_response(bad),
            Err(ExecutionError::InvalidResponse),
            "text: {}",
            bad
        );
    }
}

#[test]
fn apology_message_text() {
    assert_eq!(
        execution_error_message(),
        "Create response error, sorry for inconvenience"
    );
}

#[test]
fn dispatch_fixed_commands() {
    let mut users = Users::new();
    match handle_message(1, &mut users, "/start") {
        Outcome::Reply(t) => assert!(t.starts_with("Welcome!")),
        _ => panic!("expected a reply"),
    }
    match handle_message(1, &mut users, "/playground") {
        Outcome::Reply(t) => assert_eq!(t, "https://play.rust-lang.org/"),
        _ => panic!("expected a reply"),
    }
    match handle_message(1, &mut users, "/github") {
        Outcome::Reply(t) => assert_eq!(t, "https://github.com/vyavdoshenko/rust_playground_bot"),
        _ => panic!("expected a reply"),
    }
    match handle_message(1, &mut users, "/info") {
        Outcome::Reply(t) => assert!(t.starts_with("Backtrace: ")),
        _ => panic!("expected a reply"),
    }
}

#[test]
fn dispatch_mutation_command_updates_store() {
    let mut users = Users::new();
    match handle_message(8, &mut users, "/set_channel beta") {
        Outcome::Reply(t) => assert_eq!(t, "Channel is beta"),
        _ => panic!("expected a reply"),
    }
    assert_eq!(
        get_user_data(8, &users).channel,
        playground_bot::prefs::Channel::Beta
    );
}

#[test]
fn dispatch_other_text_becomes_execution_request() {
    let mut users = Users::new();
    match handle_message(1, &mut users, "hello") {
        Outcome::Execute(body) => assert_eq!(
            body,
            "{\"backtrace\":false,\"channel\":\"stable\",\"code\":\"hello\",\"crateType\":\"bin\",\"edition\":\"2018\",\"mode\":\"debug\",\"tests\":false}"
        ),
        _ => panic!("expected an execution request"),
    }
    // The submitted source is transient: it is not stored.
    assert_eq!(get_user_data(1, &users).code, "");
}

#[test]
fn dispatch_command_without_space_is_treated_as_code() {
    let mut users = Users::new();
    match handle_message(1, &mut users, "/set_channel") {
        Outcome::Execute(_) => {}
        _ => panic!("expected an execution request"),
    }
}
