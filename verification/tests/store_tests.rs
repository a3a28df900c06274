use color_service::color::Color;
use color_service::config::Config;
use color_service::dynamodb::AttrValue;
use color_service::dynamodb::DynamoDB;
use color_service::mysql::MySQL;

fn config_text() -> &'static str {
    r#"{
        "port": 8080,
        "img_width": 200,
        "img_height": 100,
        "s3": {"bucket_name": "bucket-test-001-a", "expiration_sec": 30},
        "rds": {
            "host": "localhost",
            "port": 3306,
            "user": "user",
            "password": "pw",
            "database_name": "test",
            "table_name": "colors"
        },
        "dynamodb": {"table_name": "colors"}
    }"#
}

fn n(v: &str) -> AttrValue {
    AttrValue::N(v.to_string())
}

#[test]
fn mysql_test01() {
    let config = Config::new(config_text()).unwrap();

    let db = MySQL::new(&config.rds);
    assert_eq!("colors", db.table_name);

    let color = Color {
        r: 100,
        g: 50,
        b: 25,
    };

    let init = db.init();
    assert_eq!(
        "CREATE TABLE IF NOT EXISTS colors (r int not null, g int not null, b int not null, \
         inserted_at timestamp not null default current_timestamp)",
        init
    );

    let select = db.select_by_color(&color);
    assert_eq!(
        "SELECT * from colors where r = :r and g = :g and b = :b",
        select.text
    );
    assert_eq!(
        vec![
            ("r".to_string(), 100u8),
            ("g".to_string(), 50u8),
            ("b".to_string(), 25u8),
        ],
        select.params
    );

    let insert = db.insert(&color);
    println!("{:?}", insert);
    assert_eq!("INSERT INTO colors (r, g, b) VALUES (:r, :g, :b)", insert.text);
    assert_eq!(
        vec![
            ("r".to_string(), 100u8),
            ("g".to_string(), 50u8),
            ("b".to_string(), 25u8),
        ],
        insert.params
    );

    let all = db.select();
    println!("{:?}", all);
    assert_eq!("SELECT * from colors", all);
}

#[test]
fn dynamodb_test01() {
    let config = Config::new(config_text()).unwrap();
    let dynamodb = DynamoDB::new(&config.dynamodb);
    let color = Color::new(100, 50, 20);

    let now_millis: u64 = 1700000000000;
    let put = dynamodb.insert(&color, now_millis);
    println!("{:?}", put);
    assert_eq!("colors", put.table_name);
    let expected = vec![
        (
            "timestamp".to_string(),
            AttrValue::S("1700000000000".to_string()),
        ),
        ("r".to_string(), n("100")),
        ("g".to_string(), n("50")),
        ("b".to_string(), n("20")),
    ];
    assert_eq!(format!("{:?}", expected), format!("{:?}", put.item));

    let scan = dynamodb.select_by_color(&color);
    println!("{:?}", scan);
    assert_eq!("colors", scan.table_name);
    assert_eq!("r = :r and g = :g and b = :b", scan.filter_expression);
    let expected_values = vec![
        (":r".to_string(), n("100")),
        (":g".to_string(), n("50")),
        (":b".to_string(), n("20")),
    ];
    assert_eq!(
        format!("{:?}", expected_values),
        format!("{:?}", scan.values)
    );
}

#[test]
fn distinct_colors_give_distinct_records() {
    let config = Config::new(config_text()).unwrap();
    let db = MySQL::new(&config.rds);
    let dynamodb = DynamoDB::new(&config.dynamodb);

    let a = Color::new(1, 2, 3);
    let b = Color::new(1, 2, 4);
    assert_ne!(db.insert(&a).params, db.insert(&b).params);
    assert_ne!(
        format!("{:?}", dynamodb.insert(&a, 7).item),
        format!("{:?}", dynamodb.insert(&b, 7).item)
    );
    assert_ne!(
        format!("{:?}", dynamodb.insert(&a, 7).item),
        format!("{:?}", dynamodb.insert(&a, 8).item)
    );
}

#[test]
fn upload_plan_carries_bytes_and_key() {
    let config = Config::new(config_text()).unwrap();
    let s3 = color_service::s3::S3::new(&config.s3);
    assert_eq!("bucket-test-001-a", s3.bucket_name);

    let bytes = vec![1u8, 2, 3];
    let up = s3.upload("1.png", bytes.clone());
    assert_eq!("bucket-test-001-a", up.bucket);
    assert_eq!("1.png", up.key);
    assert_eq!("image/png", up.content_type);
    assert_eq!(bytes, up.body);

    let pre = s3.get_presigned_url("1.png", config.s3.expiration_sec);
    assert_eq!("bucket-test-001-a", pre.bucket);
    assert_eq!("1.png", pre.key);
    assert_eq!(30, pre.expiration_secs);
}
