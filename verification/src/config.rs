//! Service configuration, decoded from its JSON text.
//!
//! Reading the configuration file is the runtime's job; this module turns
//! the file's text into the typed configuration, and rejects text that
//! does not carry every required field.

use vstd::prelude::*;

use crate::json::{
    doc_of, lookup_scalar_unique, lookup_unique, parse_document, Doc, JsonError, Scalar, ScalarV,
    Value, ValueV,
};

verus! {

/// Object-storage settings: the bucket and how long retrieval links live.
#[derive(Debug)]
pub struct S3Config {
    pub bucket_name: String,
    pub expiration_sec: u32,
}

pub struct S3ConfigV {
    pub bucket_name: Seq<char>,
    pub expiration_sec: u32,
}

impl View for S3Config {
    type V = S3ConfigV;

    open spec fn view(&self) -> S3ConfigV {
        S3ConfigV { bucket_name: self.bucket_name@, expiration_sec: self.expiration_sec }
    }
}

/// Relational-store settings.
#[derive(Debug)]
pub struct RDSConfig {
    pub host: String,
    pub port: u16,
    pub user: String,
    pub password: String,
    pub database_name: String,
    pub table_name: String,
}

pub struct RDSConfigV {
    pub host: Seq<char>,
    pub port: u16,
    pub user: Seq<char>,
    pub password: Seq<char>,
    pub database_name: Seq<char>,
    pub table_name: Seq<char>,
}

impl View for RDSConfig {
    type V = RDSConfigV;

    open spec fn view(&self) -> RDSConfigV {
        RDSConfigV {
            host: self.host@,
            port: self.port,
            user: self.user@,
            password: self.password@,
            database_name: self.database_name@,
            table_name: self.table_name@,
        }
    }
}

/// Document-store settings.
#[derive(Debug)]
pub struct DynamoDBConfig {
    pub table_name: String,
}

pub struct DynamoDBConfigV {
    pub table_name: Seq<char>,
}

impl View for DynamoDBConfig {
    type V = DynamoDBConfigV;

    open spec fn view(&self) -> DynamoDBConfigV {
        DynamoDBConfigV { table_name: self.table_name@ }
    }
}

/// The whole service configuration.
#[derive(Debug)]
pub struct Config {
    pub port: u16,
    pub img_width: u32,
    pub img_height: u32,
    pub s3: S3Config,
    pub rds: RDSConfig,
    pub dynamodb: DynamoDBConfig,
}

pub struct ConfigV {
    pub port: u16,
    pub img_width: u32,
    pub img_height: u32,
    pub s3: S3ConfigV,
    pub rds: RDSConfigV,
    pub dynamodb: DynamoDBConfigV,
}

impl View for Config {
    type V = ConfigV;

    open spec fn view(&self) -> ConfigV {
        ConfigV {
            port: self.port,
            img_width: self.img_width,
            img_height: self.img_height,
            s3: self.s3@,
            rds: self.rds@,
            dynamodb: self.dynamodb@,
        }
    }
}

// ------------------------------------------------------------------
// What each field means in the document
// ------------------------------------------------------------------

pub open spec fn top_int(d: Seq<(Seq<char>, ValueV)>, k: Seq<char>) -> Option<u64> {
    match lookup_unique(d, k) {
        Some(ValueV::Scalar(ScalarV::Int(n))) => Some(n),
        _ => None,
    }
}

pub open spec fn top_obj(d: Seq<(Seq<char>, ValueV)>, k: Seq<char>) -> Option<
    Seq<(Seq<char>, ScalarV)>,
> {
    match lookup_unique(d, k) {
        Some(ValueV::Obj(m)) => Some(m),
        _ => None,
    }
}

pub open spec fn str_field(m: Seq<(Seq<char>, ScalarV)>, k: Seq<char>) -> Option<Seq<char>> {
    match lookup_scalar_unique(m, k) {
        Some(ScalarV::Str(s)) => Some(s),
        _ => None,
    }
}

pub open spec fn int_field(m: Seq<(Seq<char>, ScalarV)>, k: Seq<char>) -> Option<u64> {
    match lookup_scalar_unique(m, k) {
        Some(ScalarV::Int(n)) => Some(n),
        _ => None,
    }
}

pub open spec fn s3_config_of(d: Seq<(Seq<char>, ValueV)>) -> Option<S3ConfigV> {
    match top_obj(d, "s3"@) {
        Some(m) => match (str_field(m, "bucket_name"@), int_field(m, "expiration_sec"@)) {
            (Some(bucket), Some(exp)) => if exp <= u32::MAX {
                Some(S3ConfigV { bucket_name: bucket, expiration_sec: exp as u32 })
            } else {
                None
            },
            _ => None,
        },
        None => None,
    }
}

pub open spec fn rds_config_of(d: Seq<(Seq<char>, ValueV)>) -> Option<RDSConfigV> {
    match top_obj(d, "rds"@) {
        Some(m) => match (
            str_field(m, "host"@),
            int_field(m, "port"@),
            str_field(m, "user"@),
            str_field(m, "password"@),
            str_field(m, "database_name"@),
            str_field(m, "table_name"@),
        ) {
            (Some(host), Some(port), Some(user), Some(password), Some(database), Some(table)) => if port
                <= u16::MAX {
                Some(RDSConfigV {
                    host: host,
                    port: port as u16,
                    user: user,
                    password: password,
                    database_name: database,
                    table_name: table,
                })
            } else {
                None
            },
            _ => None,
        },
        None => None,
    }
}

pub open spec fn dynamodb_config_of(d: Seq<(Seq<char>, ValueV)>) -> Option<DynamoDBConfigV> {
    match top_obj(d, "dynamodb"@) {
        Some(m) => match str_field(m, "table_name"@) {
            Some(table) => Some(DynamoDBConfigV { table_name: table }),
            None => None,
        },
        None => None,
    }
}

/// The configuration that a document carries, if it carries every field.
pub open spec fn config_of(s: Seq<char>) -> Option<ConfigV> {
    match doc_of(s) {
        Some(d) => match (
            top_int(d, "port"@),
            top_int(d, "img_width"@),
            top_int(d, "img_height"@),
            s3_config_of(d),
            rds_config_of(d),
            dynamodb_config_of(d),
        ) {
            (Some(port), Some(w), Some(h), Some(s3), Some(rds), Some(dy)) => if port <= u16::MAX
                && w <= u32::MAX && h <= u32::MAX {
                Some(ConfigV {
                    port: port as u16,
                    img_width: w as u32,
                    img_height: h as u32,
                    s3: s3,
                    rds: rds,
                    dynamodb: dy,
                })
            } else {
                None
            },
            _ => None,
        },
        None => None,
    }
}

// ------------------------------------------------------------------
// Decoding
// ------------------------------------------------------------------

fn get_top_int(doc: &Doc, k: &str) -> (r: Option<u64>)
    ensures
        r == top_int(doc@, k@),
{
    match doc.get_unique(k) {
        Some(v) => match v {
            Value::Scalar(Scalar::Int(n)) => Some(*n),
            _ => None,
        },
        None => None,
    }
}

fn get_str_field(v: &Value, k: &str) -> (r: Option<String>)
    ensures
        match r {
            Some(s) => v@ matches ValueV::Obj(m) && str_field(m, k@) == Some(s@),
            None => !(v@ matches ValueV::Obj(m) && str_field(m, k@) is Some),
        },
{
    match v.get_scalar_unique(k) {
        Some(sc) => match sc {
            Scalar::Str(s) => Some(s.clone()),
            _ => None,
        },
        None => None,
    }
}

fn get_int_field(v: &Value, k: &str) -> (r: Option<u64>)
    ensures
        match r {
            Some(n) => v@ matches ValueV::Obj(m) && int_field(m, k@) == Some(n),
            None => !(v@ matches ValueV::Obj(m) && int_field(m, k@) is Some),
        },
{
    match v.get_scalar_unique(k) {
        Some(sc) => match sc {
            Scalar::Int(n) => Some(*n),
            _ => None,
        },
        None => None,
    }
}

impl Config {
    /// Decodes a configuration from the text of its JSON file.
    pub fn new(config_text: &str) -> (r: Result<Config, JsonError>)
        ensures
            match r {
                Ok(c) => config_of(config_text@) == Some(c@),
                Err(_) => config_of(config_text@) is None,
            },
    {
        let doc = match parse_document(config_text) {
            Ok(d) => d,
            Err(e) => {
                return Err(e);
            }
        };
        let port = get_top_int(&doc, "port");
        let img_width = get_top_int(&doc, "img_width");
        let img_height = get_top_int(&doc, "img_height");
        let s3 = Self::s3_section(&doc);
        let rds = Self::rds_section(&doc);
        let dynamodb = Self::dynamodb_section(&doc);
        match (port, img_width, img_height, s3, rds, dynamodb) {
            (Some(port), Some(w), Some(h), Some(s3), Some(rds), Some(dynamodb)) => {
                if port <= u16::MAX as u64 && w <= u32::MAX as u64 && h <= u32::MAX as u64 {
                    Ok(Config {
                        port: port as u16,
                        img_width: w as u32,
                        img_height: h as u32,
                        s3,
                        rds,
                        dynamodb,
                    })
                } else {
                    Err(JsonError)
                }
            }
            _ => Err(JsonError),
        }
    }

    fn s3_section(doc: &Doc) -> (r: Option<S3Config>)
        ensures
            match r {
                Some(c) => s3_config_of(doc@) == Some(c@),
                None => s3_config_of(doc@) is None,
            },
    {
        let v = match doc.get_unique("s3") {
            Some(v) => v,
            None => {
                return None;
            }
        };
        if let Value::Scalar(_) = v {
            return None;
        }
        let bucket = get_str_field(v, "bucket_name");
        let exp = get_int_field(v, "expiration_sec");
        match (bucket, exp) {
            (Some(bucket), Some(exp)) => {
                if exp <= u32::MAX as u64 {
                    Some(S3Config { bucket_name: bucket, expiration_sec: exp as u32 })
                } else {
                    None
                }
            }
            _ => None,
        }
    }

    fn rds_section(doc: &Doc) -> (r: Option<RDSConfig>)
        ensures
            match r {
                Some(c) => rds_config_of(doc@) == Some(c@),
                None => rds_config_of(doc@) is None,
            },
    {
        let v = match doc.get_unique("rds") {
            Some(v) => v,
            None => {
                return None;
            }
        };
        if let Value::Scalar(_) = v {
            return None;
        }
        let host = get_str_field(v, "host");
        let port = get_int_field(v, "port");
        let user = get_str_field(v, "user");
        let password = get_str_field(v, "password");
        let database = get_str_field(v, "database_name");
        let table = get_str_field(v, "table_name");
        match (host, port, user, password, database, table) {
            (Some(host), Some(port), Some(user), Some(password), Some(database), Some(table)) => {
                if port <= u16::MAX as u64 {
                    Some(RDSConfig {
                        host,
                        port: port as u16,
                        user,
                        password,
                        database_name: database,
                        table_name: table,
                    })
                } else {
                    None
                }
            }
            _ => None,
        }
    }

    fn dynamodb_section(doc: &Doc) -> (r: Option<DynamoDBConfig>)
        ensures
            match r {
                Some(c) => dynamodb_config_of(doc@) == Some(c@),
                None => dynamodb_config_of(doc@) is None,
            },
    {
        let v = match doc.get_unique("dynamodb") {
            Some(v) => v,
            None => {
                return None;
            }
        };
        if let Value::Scalar(_) = v {
            return None;
        }
        match get_str_field(v, "table_name") {
            Some(table) => Some(DynamoDBConfig { table_name: table }),
            None => None,
        }
    }
}

} // verus!
