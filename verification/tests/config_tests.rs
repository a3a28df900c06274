use color_service::config::Config;
use color_service::json::parse_document;
use color_service::json::Scalar;
use color_service::json::Value;

#[test]
fn config_decodes_every_field() {
    let text = r#"{
        "port": 8080,
        "img_width": 200,
        "img_height": 100,
        "s3": {"bucket_name": "bucket-test-001-a", "expiration_sec": 30},
        "rds": {
            "host": "localhost",
            "port": 3306,
            "user": "user",
            "password": "pw",
            "database_name": "test",
            "table_name": "colors"
        },
        "dynamodb": {"table_name": "colors"}
    }"#;
    let config = Config::new(text).unwrap();
    assert_eq!(8080, config.port);
    assert_eq!(200, config.img_width);
    assert_eq!(100, config.img_height);
    assert_eq!("bucket-test-001-a", config.s3.bucket_name);
    assert_eq!(30, config.s3.expiration_sec);
    assert_eq!("localhost", config.rds.host);
    assert_eq!(3306, config.rds.port);
    assert_eq!("user", config.rds.user);
    assert_eq!("pw", config.rds.password);
    assert_eq!("test", config.rds.database_name);
    assert_eq!("colors", config.rds.table_name);
    assert_eq!("colors", config.dynamodb.table_name);
}

#[test]
fn config_rejects_missing_or_out_of_range_fields() {
    assert!(Config::new("{}").is_err());
    assert!(Config::new("").is_err());
    assert!(Config::new(r#"{"port": 8080}"#).is_err());
    assert!(Config::new(
        r#"{
            "port": 8080,
            "img_width": 200,
            "img_height": 100,
            "s3": {"bucket_name": "b", "bucket_name": "c", "expiration_sec": 30},
            "rds": {"host": "h", "port": 1, "user": "u", "password": "p",
                    "database_name": "d", "table_name": "t"},
            "dynamodb": {"table_name": "t"}
        }"#
    )
    .is_err());
    assert!(Config::new(
        r#"{
            "port": 99999,
            "img_width": 200,
            "img_height": 100,
            "s3": {"bucket_name": "b", "expiration_sec": 30},
            "rds": {"host": "h", "port": 1, "user": "u", "password": "p",
                    "database_name": "d", "table_name": "t"},
            "dynamodb": {"table_name": "t"}
        }"#
    )
    .is_err());
}

#[test]
fn parser_accepts_the_grammar() {
    let doc = parse_document(r#"{"a": null, "b": true, "c": false, "d": 12, "e": "x"}"#).unwrap();
    assert!(matches!(
        doc.get("a"),
        Some(Value::Scalar(Scalar::Null))
    ));
    assert!(matches!(
        doc.get("b"),
        Some(Value::Scalar(Scalar::Bool(true)))
    ));
    assert!(matches!(
        doc.get("c"),
        Some(Value::Scalar(Scalar::Bool(false)))
    ));
    assert!(matches!(
        doc.get("d"),
        Some(Value::Scalar(Scalar::Int(12)))
    ));
    match doc.get("e") {
        Some(Value::Scalar(Scalar::Str(s))) => assert_eq!("x", s),
        _ => panic!("e must be a string"),
    }
    assert!(doc.get("f").is_none());
}

#[test]
fn parser_rejects_malformed_documents() {
    for text in [
        "",
        "{",
        "}",
        "{\"a\"}",
        "{\"a\": }",
        "{\"a\": 1,}",
        "{\"a\": 01}",
        "{\"a\": -01}",
        "{\"a\": 1.}",
        "{\"a\": 1e}",
        "{\"a\": 1} trailing",
        "{\"a\": \"unterminated}",
        "{'a': 1}",
        "{\"a\": +1}",
        "{\"a\": \"\\x\"}",
        "{\"a\": \"\\u00G1\"}",
        "{\"a\": \"\\uD834\"}",
        "{\"a\": \"\\uDD1E\"}",
        "{\"a\": [1, 2}",
    ] {
        assert!(parse_document(text).is_err(), "{:?} must be rejected", text);
    }
}

#[test]
fn parser_reads_the_largest_integer() {
    let doc = parse_document(r#"{"a": 18446744073709551615}"#).unwrap();
    assert!(matches!(
        doc.get("a"),
        Some(Value::Scalar(Scalar::Int(u64::MAX)))
    ));
}

#[test]
fn parser_skips_values_the_service_does_not_read() {
    let doc = parse_document(
        r#"{
            "arr": [1, [2, {"x": "y"}], "z"],
            "neg": -5,
            "float": 1.5e-3,
            "big": 18446744073709551616,
            "deep": {"o": {"p": [true, null]}},
            "kept": 7
        }"#,
    )
    .unwrap();
    for k in ["arr", "neg", "float", "big"] {
        assert!(
            matches!(doc.get(k), Some(Value::Scalar(Scalar::Other))),
            "{:?} must be carried as an unread value",
            k
        );
    }
    assert!(matches!(doc.get("deep"), Some(Value::Obj(_))));
    assert!(matches!(
        doc.get("kept"),
        Some(Value::Scalar(Scalar::Int(7)))
    ));
}

#[test]
fn parser_reads_unicode_escapes() {
    let doc = parse_document(r#"{"a": "a\u0041", "pair": "\uD834\uDD1E", "ctl": "\b\f"}"#).unwrap();
    match doc.get("a") {
        Some(Value::Scalar(Scalar::Str(s))) => assert_eq!("aA", s),
        _ => panic!("a must be a string"),
    }
    match doc.get("pair") {
        Some(Value::Scalar(Scalar::Str(s))) => assert_eq!("\u{1D11E}", s),
        _ => panic!("pair must be a string"),
    }
    match doc.get("ctl") {
        Some(Value::Scalar(Scalar::Str(s))) => assert_eq!("\u{0008}\u{000C}", s),
        _ => panic!("ctl must be a string"),
    }
}

#[test]
fn duplicate_read_fields_are_rejected() {
    assert!(color_service::Request::new(r#"{"r": 1, "r": 2, "g": 3, "b": 4}"#).is_err());
    let req =
        color_service::Request::new(r#"{"x": 1, "x": 2, "r": 1, "g": 2, "b": 3}"#).unwrap();
    assert_eq!((1, 2, 3), (req.r, req.g, req.b));
}

#[test]
fn empty_objects_parse() {
    let doc = parse_document("{}").unwrap();
    assert!(doc.get("a").is_none());
    let doc = parse_document(r#"{ "o": {} }"#).unwrap();
    match doc.get("o") {
        Some(Value::Obj(m)) => assert!(m.is_empty()),
        _ => panic!("o must be an object"),
    }
}
