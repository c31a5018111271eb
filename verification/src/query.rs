use vstd::prelude::*;
use vstd::string::StringExecFns;

verus! {

/// The text of the query that reads every row of a table.
pub open spec fn select_all_text(table: Seq<char>) -> Seq<char> {
    "SELECT * FROM "@ + table
}

/// Builds the query that the row source runs to fetch a table: every column of
/// every row, in the order in which the database returns them. The table's
/// name is put in as it is given.
pub fn select_all_query(table: &str) -> (query: String)
    ensures
        query@ == select_all_text(table@),
{
    String::from_str("SELECT * FROM ").concat(table)
}

} // verus!
