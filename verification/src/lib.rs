use vstd::prelude::*;

pub mod text;
pub mod value;
pub mod convert;
pub mod table_info;
pub mod params;
pub mod bindable;
pub mod schema;
pub mod attributes;
pub mod statements;
pub mod apply;
pub mod migrations;
pub mod savepoint;
pub mod sql_as;
pub mod sql_tokens;
pub mod sql_check;
pub mod query;
pub mod table;
pub mod time;
pub mod pubkey;
pub mod database;

verus! {
}
