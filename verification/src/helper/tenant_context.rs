//! Switching a database session to a tenant's schema.

use vstd::prelude::*;
use vstd::string::*;

verus! {

/// The statement that makes `schema` the session's search path:
/// `SET search_path TO "<schema>"`, with the name inserted as given.
pub open spec fn search_path_sql(schema: Seq<char>) -> Seq<char> {
    "SET search_path TO \""@ + schema + "\""@
}

/// Builds the statement that selects the tenant schema `schema`.
pub fn search_path_statement(schema: &str) -> (r: String)
    ensures
        r@ == search_path_sql(schema@),
{
    let mut sql = String::from_str("SET search_path TO \"");
    sql.append(schema);
    sql.append("\"");
    sql
}

} // verus!
