use color_service::color::Color;
use color_service::finish;
use color_service::handle;
use color_service::DependencyError;
use color_service::HandlerDecision;
use color_service::Request;
use color_service::Response;

#[test]
fn lib_test01() {
    let res = handle("");
    match res {
        HandlerDecision::Reject(rep) => {
            assert_eq!(400, rep.status_code);
            assert_eq!("application/json", rep.content_type);
            assert_eq!("{\n  \"status\": \"error\",\n  \"url\": null\n}", rep.body);
        }
        HandlerDecision::Proceed(_) => panic!("an empty body must be rejected"),
    }
}

#[test]
fn test02() {
    let color = Color::new(100, 50, 25);
    let body = format!(
        r#"{{"r": {}, "g": {}, "b": {}}}"#,
        color.r, color.g, color.b
    );

    let res = handle(&body);
    match res {
        HandlerDecision::Proceed(c) => {
            assert_eq!(color, c);
        }
        HandlerDecision::Reject(_) => panic!("a well-formed body must proceed"),
    }

    let reply = finish(Ok("https://bucket-test-001-a.s3.amazonaws.com/1.png".to_string()));
    assert_eq!(200, reply.status_code);
    assert!(reply
        .body
        .starts_with("{\n  \"status\": \"success\",\n  \"url\": \"https://"));
}

#[test]
fn handler_rejects_missing_channel() {
    for body in [
        r#"{"r": 1, "g": 2}"#,
        r#"{"g": 2, "b": 3}"#,
        r#"{"r": 1, "b": 3}"#,
        "not json",
        "[1, 2, 3]",
    ] {
        match handle(body) {
            HandlerDecision::Reject(rep) => {
                assert_eq!(400, rep.status_code);
                assert_eq!("{\n  \"status\": \"error\",\n  \"url\": null\n}", rep.body);
            }
            HandlerDecision::Proceed(_) => panic!("body {:?} must be rejected", body),
        }
    }
}

#[test]
fn handler_rejects_out_of_range_channel() {
    assert!(Request::new(r#"{"r": 256, "g": 0, "b": 0}"#).is_err());
    assert!(Request::new(r#"{"r": -1, "g": 0, "b": 0}"#).is_err());
    assert!(Request::new(r#"{"r": 1.5, "g": 0, "b": 0}"#).is_err());
}

#[test]
fn handler_accepts_whitespace_and_extra_members() {
    let req = Request::new(" { \"extra\": \"x\", \"b\": 3, \"g\": 2, \"r\": 1 } ").unwrap();
    assert_eq!(1, req.r);
    assert_eq!(2, req.g);
    assert_eq!(3, req.b);
}

#[test]
fn handler_tolerates_unread_members_of_any_shape() {
    let req = Request::new(r#"{"x": [], "r": 1, "g": 2, "b": 3}"#).unwrap();
    assert_eq!((1, 2, 3), (req.r, req.g, req.b));
    let req = Request::new(
        r#"{"meta": {"nested": {"deep": [1.5, -2, "sA"]}}, "r": 4, "g": 5, "b": 6}"#,
    )
    .unwrap();
    assert_eq!((4, 5, 6), (req.r, req.g, req.b));
}

#[test]
fn finish_failure_is_generic_500() {
    for e in [
        DependencyError::Storage,
        DependencyError::Database,
        DependencyError::DocumentStore,
    ] {
        let reply = finish(Err(e));
        assert_eq!(500, reply.status_code);
        assert_eq!("{\n  \"status\": \"error\",\n  \"url\": null\n}", reply.body);
    }
}

#[test]
fn response_body_is_exact() {
    let ok = Response::new(
        "success".to_string(),
        Some("https://h/1.png".to_string()),
    );
    assert_eq!(
        "{\n  \"status\": \"success\",\n  \"url\": \"https://h/1.png\"\n}",
        ok.to_json_pretty()
    );
    let err = Response::new("error".to_string(), None);
    assert_eq!(
        "{\n  \"status\": \"error\",\n  \"url\": null\n}",
        err.to_json_pretty()
    );
}

#[test]
fn response_body_escapes_the_url() {
    let odd = Response::new("success".to_string(), Some("a\"b\\c\nd".to_string()));
    assert_eq!(
        "{\n  \"status\": \"success\",\n  \"url\": \"a\\\"b\\\\c\\nd\"\n}",
        odd.to_json_pretty()
    );
}

#[test]
fn create_filename_is_timestamp_png() {
    assert_eq!("1234.png", color_service::create_filename(1234));
    assert_eq!("0.png", color_service::create_filename(0));
    assert_eq!(
        "18446744073709551615.png",
        color_service::create_filename(u64::MAX)
    );
}
