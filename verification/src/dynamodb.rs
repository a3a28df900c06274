//! The document-store adapter.
//!
//! The adapter plans the item writes and scans that the service runs
//! against its document table. Sending a plan over the network is the
//! runtime's job; the contracts pin down every attribute of every plan.

use vstd::prelude::*;

use crate::color::Color;
use crate::config::DynamoDBConfig;
use crate::json::dec_str;

verus! {

/// An attribute value: a string or a decimal number.
#[derive(Clone, Debug)]
pub enum AttrValue {
    S(String),
    N(String),
}

pub enum AttrValueV {
    S(Seq<char>),
    N(Seq<char>),
}

impl View for AttrValue {
    type V = AttrValueV;

    open spec fn view(&self) -> AttrValueV {
        match self {
            AttrValue::S(s) => AttrValueV::S(s@),
            AttrValue::N(s) => AttrValueV::N(s@),
        }
    }
}

pub open spec fn attrs_view(a: Seq<(String, AttrValue)>) -> Seq<(Seq<char>, AttrValueV)> {
    a.map_values(|p: (String, AttrValue)| (p.0@, p.1@))
}

/// The item that records `c` at time `now_millis`.
pub open spec fn color_item(now_millis: u64, c: Color) -> Seq<(Seq<char>, AttrValueV)> {
    seq![
        ("timestamp"@, AttrValueV::S(dec_str(now_millis as nat))),
        ("r"@, AttrValueV::N(dec_str(c.r as nat))),
        ("g"@, AttrValueV::N(dec_str(c.g as nat))),
        ("b"@, AttrValueV::N(dec_str(c.b as nat))),
    ]
}

/// The filter that matches exactly one color.
pub open spec fn color_filter() -> Seq<char> {
    "r = :r and g = :g and b = :b"@
}

/// The filter's values for `c`.
pub open spec fn color_filter_values(c: Color) -> Seq<(Seq<char>, AttrValueV)> {
    seq![
        (":r"@, AttrValueV::N(dec_str(c.r as nat))),
        (":g"@, AttrValueV::N(dec_str(c.g as nat))),
        (":b"@, AttrValueV::N(dec_str(c.b as nat))),
    ]
}

/// A planned one-item write.
#[derive(Debug)]
pub struct PutItem {
    pub table_name: String,
    pub item: Vec<(String, AttrValue)>,
}

/// A planned filtered scan.
#[derive(Debug)]
pub struct ScanRequest {
    pub table_name: String,
    pub filter_expression: String,
    pub values: Vec<(String, AttrValue)>,
}

/// The document-store adapter: it owns the table name and plans every
/// operation against the table.
pub struct DynamoDB {
    pub table_name: String,
}

impl DynamoDB {
    pub fn new(dynamodb_config: &DynamoDBConfig) -> (d: DynamoDB)
        ensures
            d.table_name@ == dynamodb_config.table_name@,
    {
        DynamoDB { table_name: dynamodb_config.table_name.clone() }
    }

    /// Plans the write of exactly one item holding `color`, stamped
    /// with the caller's clock reading.
    pub fn insert(&self, color: &Color, now_millis: u64) -> (p: PutItem)
        ensures
            p.table_name@ == self.table_name@,
            attrs_view(p.item@) == color_item(now_millis, *color),
    {
        let mut item: Vec<(String, AttrValue)> = Vec::new();
        item.push(("timestamp".to_owned(), AttrValue::S(crate::json::u64_to_string(now_millis))));
        item.push(("r".to_owned(), AttrValue::N(crate::json::u64_to_string(color.r as u64))));
        item.push(("g".to_owned(), AttrValue::N(crate::json::u64_to_string(color.g as u64))));
        item.push(("b".to_owned(), AttrValue::N(crate::json::u64_to_string(color.b as u64))));
        proof {
            assert(attrs_view(item@) =~= color_item(now_millis, *color));
        }
        PutItem { table_name: self.table_name.clone(), item }
    }

    /// Plans the scan that reads every item holding exactly `color`.
    pub fn select_by_color(&self, color: &Color) -> (s: ScanRequest)
        ensures
            s.table_name@ == self.table_name@,
            s.filter_expression@ == color_filter(),
            attrs_view(s.values@) == color_filter_values(*color),
    {
        let mut values: Vec<(String, AttrValue)> = Vec::new();
        values.push((":r".to_owned(), AttrValue::N(crate::json::u64_to_string(color.r as u64))));
        values.push((":g".to_owned(), AttrValue::N(crate::json::u64_to_string(color.g as u64))));
        values.push((":b".to_owned(), AttrValue::N(crate::json::u64_to_string(color.b as u64))));
        proof {
            assert(attrs_view(values@) =~= color_filter_values(*color));
        }
        ScanRequest {
            table_name: self.table_name.clone(),
            filter_expression: "r = :r and g = :g and b = :b".to_owned(),
            values,
        }
    }
}

} // verus!
