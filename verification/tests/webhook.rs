use ciallo::executor::ExecutionResult;
use ciallo::webhook::FeishuMessage;

fn result(success: bool, duration_ms: u64, stdout: &str, stderr: &str) -> ExecutionResult {
    ExecutionResult {
        success,
        duration_ms,
        exit_code: if success { Some(0) } else { Some(1) },
        stdout: stdout.to_string(),
        stderr: stderr.to_string(),
    }
}

#[test]
fn message_renders_success() {
    let m = FeishuMessage::from_result(&result(true, 105, "out line", "err line"));
    assert_eq!(m.msg, "success(105ms)\nout line\nerr line");
}

#[test]
fn message_renders_failure() {
    let m = FeishuMessage::from_result(&result(false, 7, "", ""));
    assert_eq!(m.msg, "failure(7ms)\n\n");
}

#[test]
fn message_renders_zero_duration() {
    let m = FeishuMessage::from_result(&result(true, 0, "x", ""));
    assert_eq!(m.msg, "success(0ms)\nx\n");
}

#[test]
fn json_body_wraps_msg_field() {
    let m = FeishuMessage { msg: "plain".to_string() };
    assert_eq!(m.to_json_body(), "{\"msg\":\"plain\"}");
}

#[test]
fn json_body_escapes_specials() {
    let m = FeishuMessage { msg: "a\"b\\c\nd\re\tf".to_string() };
    assert_eq!(m.to_json_body(), "{\"msg\":\"a\\\"b\\\\c\\nd\\re\\tf\"}");
}

#[test]
fn json_body_escapes_control_chars() {
    let m = FeishuMessage { msg: "x\u{1}y\u{1f}z".to_string() };
    assert_eq!(m.to_json_body(), "{\"msg\":\"x\\u0001y\\u001fz\"}");
}

#[test]
fn json_body_of_rendered_message_parses_back() {
    let m = FeishuMessage::from_result(&result(true, 12, "line \"quoted\"", "tab\there"));
    let body = m.to_json_body();
    // the body is a valid JSON object with the single field `msg`
    let value: serde_json::Value = serde_json::from_str(&body).unwrap();
    assert_eq!(value["msg"].as_str().unwrap(), "success(12ms)\nline \"quoted\"\ntab\there");
}

#[test]
fn json_body_of_control_chars_parses_back() {
    let m = FeishuMessage { msg: "a\u{0}b\u{1f}c\\d\"e".to_string() };
    let value: serde_json::Value = serde_json::from_str(&m.to_json_body()).unwrap();
    assert_eq!(value["msg"].as_str().unwrap(), "a\u{0}b\u{1f}c\\d\"e");
}
