use crate::cell::cell_bytes;
use crate::envelope::envelope_bytes;
use vstd::prelude::*;

verus! {

/// The identifiers that a store gives to the cells of a row, in the order of
/// the cells. A store is taken as what it does: a function from the bytes
/// submitted to the identifier returned.
pub open spec fn cell_identifiers(
    store: spec_fn(Seq<u8>) -> Seq<char>,
    row: Seq<Option<Seq<char>>>,
) -> Seq<Seq<char>> {
    Seq::new(row.len(), |col: int| store(cell_bytes(row[col])))
}

/// The identifier of a row: what the store returns for the envelope of the
/// identifiers of its cells.
pub open spec fn row_identifier(
    store: spec_fn(Seq<u8>) -> Seq<char>,
    row: Seq<Option<Seq<char>>>,
) -> Seq<char> {
    store(envelope_bytes(cell_identifiers(store, row)))
}

/// The identifiers of the rows of a table, in the order of the rows.
pub open spec fn row_identifiers(
    store: spec_fn(Seq<u8>) -> Seq<char>,
    table: Seq<Seq<Option<Seq<char>>>>,
) -> Seq<Seq<char>> {
    Seq::new(table.len(), |row: int| row_identifier(store, table[row]))
}

/// The identifier of a table: what the store returns for the envelope of the
/// identifiers of its rows.
pub open spec fn table_identifier(
    store: spec_fn(Seq<u8>) -> Seq<char>,
    table: Seq<Seq<Option<Seq<char>>>>,
) -> Seq<char> {
    store(envelope_bytes(row_identifiers(store, table)))
}

/// The store gives different identifiers to different bytes.
pub open spec fn collision_free(store: spec_fn(Seq<u8>) -> Seq<char>) -> bool {
    forall|a: Seq<u8>, b: Seq<u8>| #![trigger store(a), store(b)] store(a) == store(b) ==> a == b
}

/// What a row holds as far as hashing goes: the bytes of its cells, in order.
pub open spec fn row_content(row: Seq<Option<Seq<char>>>) -> Seq<Seq<u8>> {
    Seq::new(row.len(), |col: int| cell_bytes(row[col]))
}

/// A list with the items at two places exchanged.
pub open spec fn swapped<T>(list: Seq<T>, i: int, j: int) -> Seq<T> {
    list.update(i, list[j]).update(j, list[i])
}

} // verus!
