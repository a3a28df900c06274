use color_service::lambda::create_filename;
use color_service::lambda::finish;
use color_service::lambda::handler;
use color_service::lambda::LambdaDecision;
use color_service::lambda::Request;

#[test]
fn main_test01() {
    let decision = handler(r#"{"content": "hello"}"#);
    let content = match decision {
        LambdaDecision::Upload { content } => content,
        LambdaDecision::Reject(_) => panic!("an event with content must upload"),
    };
    assert_eq!("hello", content);

    let res = finish(create_filename(1700000000000), true);
    println!("{:?}", res);
    assert_eq!("success", res.status);
    assert_eq!(Some("1700000000000.txt".to_string()), res.filename);
}

#[test]
fn lambda_empty_event_is_rejected_without_upload() {
    match handler("{}") {
        LambdaDecision::Reject(resp) => {
            assert_eq!("error", resp.status);
            assert_eq!(None, resp.filename);
        }
        LambdaDecision::Upload { .. } => panic!("an event without content must be rejected"),
    }
}

#[test]
fn lambda_non_string_content_is_rejected() {
    match handler(r#"{"content": 5}"#) {
        LambdaDecision::Reject(resp) => assert_eq!("error", resp.status),
        LambdaDecision::Upload { .. } => panic!("numeric content must be rejected"),
    }
}

#[test]
fn lambda_request_reads_escapes() {
    let req = Request::new(r#"{"content": "a\"b\\c\nd\te"}"#);
    assert_eq!(Some("a\"b\\c\nd\te".to_string()), req.content);
    let req = Request::new(r#"{"content": "aA\b\f"}"#);
    assert_eq!(Some("aA\u{0008}\u{000C}".to_string()), req.content);
    let req = Request::new(r#"{"content": "𝄞"}"#);
    assert_eq!(Some("\u{1D11E}".to_string()), req.content);
}

#[test]
fn lambda_upload_plan_is_exact() {
    let plan = color_service::lambda::upload("1700000000000.txt", "hello");
    assert_eq!("bucket-test-001-a", plan.bucket);
    assert_eq!("1700000000000.txt", plan.key);
    assert_eq!("text/plain", plan.content_type);
    assert_eq!(b"hello".to_vec(), plan.body);
}

#[test]
fn lambda_failed_upload_is_error() {
    let res = finish(create_filename(7), false);
    assert_eq!("error", res.status);
    assert_eq!(None, res.filename);
}
