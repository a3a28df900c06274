//! The relational-store adapter.
//!
//! The adapter plans every statement the service runs against its table:
//! the idempotent table creation, the one-row insert, and the selects.
//! Executing a statement is a network call and is the runtime's job; the
//! contracts here pin down exactly what the runtime is told to run.

use vstd::prelude::*;

use crate::color::Color;
use crate::config::RDSConfig;

verus! {

/// A statement together with its named parameters.
#[derive(Debug)]
pub struct SqlStatement {
    pub text: String,
    pub params: Vec<(String, u8)>,
}

pub open spec fn params_view(p: Seq<(String, u8)>) -> Seq<(Seq<char>, u8)> {
    p.map_values(|q: (String, u8)| (q.0@, q.1))
}

/// The named parameters that carry a color.
pub open spec fn color_params(c: Color) -> Seq<(Seq<char>, u8)> {
    seq![("r"@, c.r), ("g"@, c.g), ("b"@, c.b)]
}

/// The statement that creates the table if it is absent.
pub open spec fn init_sql(table: Seq<char>) -> Seq<char> {
    "CREATE TABLE IF NOT EXISTS "@ + table
        + " (r int not null, g int not null, b int not null, inserted_at timestamp not null default current_timestamp)"@
}

/// The statement that appends one row.
pub open spec fn insert_sql(table: Seq<char>) -> Seq<char> {
    "INSERT INTO "@ + table + " (r, g, b) VALUES (:r, :g, :b)"@
}

/// The statement that reads every row.
pub open spec fn select_sql(table: Seq<char>) -> Seq<char> {
    "SELECT * from "@ + table
}

/// The statement that reads the rows of one color.
pub open spec fn select_by_color_sql(table: Seq<char>) -> Seq<char> {
    "SELECT * from "@ + table + " where r = :r and g = :g and b = :b"@
}

/// The relational-store adapter: it owns the table name and plans every
/// statement that touches the table.
pub struct MySQL {
    pub table_name: String,
}

impl MySQL {
    pub fn new(config: &RDSConfig) -> (m: MySQL)
        ensures
            m.table_name@ == config.table_name@,
    {
        MySQL { table_name: config.table_name.clone() }
    }

    /// The idempotent table-creation statement the adapter runs first.
    pub fn init(&self) -> (s: String)
        ensures
            s@ == init_sql(self.table_name@),
    {
        let mut out = "CREATE TABLE IF NOT EXISTS ".to_owned();
        out.append(self.table_name.as_str());
        out.append(
            " (r int not null, g int not null, b int not null, inserted_at timestamp not null default current_timestamp)",
        );
        out
    }

    /// Plans the insert of exactly one row holding `c`.
    pub fn insert(&self, c: &Color) -> (s: SqlStatement)
        ensures
            s.text@ == insert_sql(self.table_name@),
            params_view(s.params@) == color_params(*c),
    {
        let mut text = "INSERT INTO ".to_owned();
        text.append(self.table_name.as_str());
        text.append(" (r, g, b) VALUES (:r, :g, :b)");
        let mut params: Vec<(String, u8)> = Vec::new();
        params.push(("r".to_owned(), c.r));
        params.push(("g".to_owned(), c.g));
        params.push(("b".to_owned(), c.b));
        proof {
            assert(params_view(params@) =~= color_params(*c));
        }
        SqlStatement { text, params }
    }

    /// Plans the select of every row.
    pub fn select(&self) -> (s: String)
        ensures
            s@ == select_sql(self.table_name@),
    {
        let mut out = "SELECT * from ".to_owned();
        out.append(self.table_name.as_str());
        out
    }

    /// Plans the select of the rows that hold exactly `color`.
    pub fn select_by_color(&self, color: &Color) -> (s: SqlStatement)
        ensures
            s.text@ == select_by_color_sql(self.table_name@),
            params_view(s.params@) == color_params(*color),
    {
        let mut text = "SELECT * from ".to_owned();
        text.append(self.table_name.as_str());
        text.append(" where r = :r and g = :g and b = :b");
        let mut params: Vec<(String, u8)> = Vec::new();
        params.push(("r".to_owned(), color.r));
        params.push(("g".to_owned(), color.g));
        params.push(("b".to_owned(), color.b));
        proof {
            assert(params_view(params@) =~= color_params(*color));
        }
        SqlStatement { text, params }
    }
}

} // verus!
