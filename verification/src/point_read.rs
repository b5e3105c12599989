//! Reading single rows: finding them by key, then taking their bytes.

use vstd::prelude::*;

use crate::batch::{
    cell_bytes, cell_unsigned, required_column, ArrayKind, Batch, BatchView, Cell, CellView,
};
use crate::error::{Failure, StoreError};
use crate::read::{field_cell, is_optional, is_required, text_field};
use crate::record::opt_seq;
use crate::text::opt_is;

verus! {

/// The row ids of a scan's rows that have a key.
pub open spec fn row_ids_in(batch: BatchView, key: Seq<char>, count: nat) -> Seq<u64>
    decreases count,
{
    if count == 0 {
        Seq::empty()
    } else {
        let row = count - 1;
        let earlier = row_ids_in(batch, key, row as nat);
        if field_cell(batch, key, ArrayKind::Text, row) == CellView::Null {
            earlier
        } else {
            earlier.push(row_id_at(batch, row))
        }
    }
}

/// The row id of a scan's row; a null slot reads as zero.
pub open spec fn row_id_at(batch: BatchView, row: int) -> u64 {
    match cell_unsigned(field_cell(batch, "_rowid"@, ArrayKind::UInt64, row)) {
        Some(value) => value,
        None => 0,
    }
}

/// Why a scan's batch cannot give row ids.
pub open spec fn row_id_failure(batch: BatchView, key: Seq<char>) -> Option<Failure> {
    match required_column(batch, key, ArrayKind::Text) {
        Err(failure) => Some(failure),
        Ok(_) => match required_column(batch, "_rowid"@, ArrayKind::UInt64) {
            Err(failure) => Some(failure),
            Ok(_) => None,
        },
    }
}

fn row_id_columns(batch: &Batch, key: &str) -> (result: Result<(usize, usize), StoreError>)
    ensures
        match row_id_failure(batch@, key@) {
            Some(failure) => result is Err && result->Err_0@ == failure,
            None => {
                &&& result is Ok
                &&& is_required(batch@, key@, ArrayKind::Text, result->Ok_0.0)
                &&& is_required(batch@, "_rowid"@, ArrayKind::UInt64, result->Ok_0.1)
            },
        },
{
    let id = match batch.column_as(key, ArrayKind::Text) {
        Ok(index) => index,
        Err(error) => {
            return Err(error);
        },
    };
    let row_id = match batch.column_as("_rowid", ArrayKind::UInt64) {
        Ok(index) => index,
        Err(error) => {
            return Err(error);
        },
    };
    Ok((id, row_id))
}

/// Collects the row ids of the rows that have a key.
pub fn row_ids(batch: &Batch, key: &str) -> (result: Result<Vec<u64>, StoreError>)
    requires
        batch@.well_formed(),
    ensures
        match row_id_failure(batch@, key@) {
            Some(failure) => result is Err && result->Err_0@ == failure,
            None => result is Ok && result->Ok_0@ == row_ids_in(batch@, key@, batch@.rows),
        },
{
    let (id, row_id) = match row_id_columns(batch, key) {
        Ok(columns) => columns,
        Err(error) => {
            return Err(error);
        },
    };
    let mut result: Vec<u64> = Vec::new();
    let mut row: usize = 0;
    while row < batch.rows
        invariant
            row <= batch.rows,
            batch@.well_formed(),
            is_required(batch@, key@, ArrayKind::Text, id),
            is_required(batch@, "_rowid"@, ArrayKind::UInt64, row_id),
            row_id_failure(batch@, key@) is None,
            result@ == row_ids_in(batch@, key@, row as nat),
        decreases batch.rows - row,
    {
        assert(batch@.columns[id as int].cells.len() == batch@.rows);
        let empty = match &batch.columns[id].cells[row] {
            Cell::Null => true,
            _ => false,
        };
        if !empty {
            let number = match batch.unsigned_at(Some(row_id), row) {
                Some(value) => value,
                None => 0,
            };
            result.push(number);
        }
        row = row + 1;
    }
    Ok(result)
}

/// The row id of the first row with this key.
pub open spec fn row_id_from(batch: BatchView, key: Seq<char>, wanted: Seq<char>, row: int) -> Option<u64>
    decreases batch.rows - row,
{
    if row >= batch.rows {
        None
    } else if text_field(batch, key, row) == Some(wanted) {
        Some(row_id_at(batch, row))
    } else {
        row_id_from(batch, key, wanted, row + 1)
    }
}

/// Finds the row id of the row with this key.
pub fn find_row_id(batch: &Batch, key: &str, wanted: &str) -> (result: Result<Option<u64>, StoreError>)
    requires
        batch@.well_formed(),
    ensures
        match row_id_failure(batch@, key@) {
            Some(failure) => result is Err && result->Err_0@ == failure,
            None => result is Ok && result->Ok_0 == row_id_from(batch@, key@, wanted@, 0),
        },
{
    let (id, row_id) = match row_id_columns(batch, key) {
        Ok(columns) => columns,
        Err(error) => {
            return Err(error);
        },
    };
    let mut row: usize = 0;
    while row < batch.rows
        invariant
            row <= batch.rows,
            batch@.well_formed(),
            is_required(batch@, key@, ArrayKind::Text, id),
            is_required(batch@, "_rowid"@, ArrayKind::UInt64, row_id),
            row_id_failure(batch@, key@) is None,
            row_id_from(batch@, key@, wanted@, 0) == row_id_from(batch@, key@, wanted@, row as int),
        decreases batch.rows - row,
    {
        if opt_is(&batch.text_at(Some(id), row), wanted) {
            let number = match batch.unsigned_at(Some(row_id), row) {
                Some(value) => value,
                None => 0,
            };
            return Ok(Some(number));
        }
        row = row + 1;
    }
    Ok(None)
}

/// The bytes in the first row of a batch that was taken by row id.
pub fn payload_in(batch: &Batch, column: &str) -> (result: Option<Vec<u8>>)
    requires
        batch@.well_formed(),
        batch.rows > 0,
    ensures
        opt_seq(result) == cell_bytes(
            field_cell(batch@, column@, ArrayKind::LargeBinary, 0),
        ),
{
    let index = batch.column_as_optional(column, ArrayKind::LargeBinary);
    batch.bytes_at(index, 0)
}

/// Where the first row with this key stands.
pub open spec fn row_with_key(batch: BatchView, key: Seq<char>, wanted: Seq<char>, row: int) -> Option<
    int,
>
    decreases batch.rows - row,
{
    if row >= batch.rows {
        None
    } else if text_field(batch, key, row) == Some(wanted) {
        Some(row)
    } else {
        row_with_key(batch, key, wanted, row + 1)
    }
}

/// The bytes of the row with a key: none where no row has it, and inside that
/// none where the row holds no bytes.
pub fn payload_with_key(batch: &Batch, key: &str, wanted: &str, column: &str) -> (result: Result<
    Option<Option<Vec<u8>>>,
    StoreError,
>)
    requires
        batch@.well_formed(),
    ensures
        match required_column(batch@, key@, ArrayKind::Text) {
            Err(failure) => result is Err && result->Err_0@ == failure,
            Ok(_) => {
                &&& result is Ok
                &&& match row_with_key(batch@, key@, wanted@, 0) {
                    Some(row) => {
                        &&& result->Ok_0 is Some
                        &&& opt_seq(result->Ok_0->Some_0) == cell_bytes(
                            field_cell(batch@, column@, ArrayKind::LargeBinary, row),
                        )
                    },
                    None => result->Ok_0 is None,
                }
            },
        },
{
    let at = match batch.column_as(key, ArrayKind::Text) {
        Ok(index) => index,
        Err(error) => {
            return Err(error);
        },
    };
    let bytes = batch.column_as_optional(column, ArrayKind::LargeBinary);
    let mut row: usize = 0;
    while row < batch.rows
        invariant
            row <= batch.rows,
            batch@.well_formed(),
            is_required(batch@, key@, ArrayKind::Text, at),
            is_optional(batch@, column@, ArrayKind::LargeBinary, bytes),
            row_with_key(batch@, key@, wanted@, 0) == row_with_key(
                batch@,
                key@,
                wanted@,
                row as int,
            ),
        decreases batch.rows - row,
    {
        if opt_is(&batch.text_at(Some(at), row), wanted) {
            return Ok(Some(batch.bytes_at(bytes, row)));
        }
        row = row + 1;
    }
    Ok(None)
}

/// A lookup by key gives the row id of the first row that holds the key, and
/// nothing only where no row holds it.
pub proof fn law_a_row_is_found_by_its_key(
    batch: BatchView,
    key: Seq<char>,
    wanted: Seq<char>,
    from: int,
)
    requires
        0 <= from <= batch.rows,
    ensures
        match row_with_key(batch, key, wanted, from) {
            Some(row) => {
                &&& from <= row < batch.rows
                &&& text_field(batch, key, row) == Some(wanted)
                &&& forall|i: int| from <= i < row
                    ==> #[trigger] text_field(batch, key, i) != Some(wanted)
                &&& row_id_from(batch, key, wanted, from) == Some(row_id_at(batch, row))
            },
            None => {
                &&& forall|i: int|
                    from <= i < batch.rows ==> #[trigger] text_field(batch, key, i) != Some(wanted)
                &&& row_id_from(batch, key, wanted, from) is None
            },
        },
    decreases batch.rows - from,
{
    if from < batch.rows && text_field(batch, key, from) != Some(wanted) {
        law_a_row_is_found_by_its_key(batch, key, wanted, from + 1);
    }
}

/// The row ids of a selection are those of every row that has a key, in order.
pub proof fn law_row_ids_are_those_of_the_rows(batch: BatchView, key: Seq<char>, count: nat)
    ensures
        (forall|row: int|
            0 <= row < count ==> #[trigger] field_cell(batch, key, ArrayKind::Text, row)
                != CellView::Null) ==> {
            &&& row_ids_in(batch, key, count).len() == count
            &&& forall|row: int|
                0 <= row < count ==> #[trigger] row_ids_in(batch, key, count)[row] == row_id_at(
                    batch,
                    row,
                )
        },
        (forall|row: int|
            0 <= row < count ==> #[trigger] field_cell(batch, key, ArrayKind::Text, row)
                == CellView::Null) ==> row_ids_in(batch, key, count).len() == 0,
    decreases count,
{
    if count > 0 {
        law_row_ids_are_those_of_the_rows(batch, key, (count - 1) as nat);
        assert(field_cell(batch, key, ArrayKind::Text, count - 1) == field_cell(
            batch,
            key,
            ArrayKind::Text,
            count - 1,
        ));
    }
}

/// Row ids are read exactly where the key is a text column and the ids are
/// unsigned numbers.
pub proof fn law_row_ids_need_both_columns(batch: BatchView, key: Seq<char>)
    ensures
        row_id_failure(batch, key) is None <==> {
            &&& batch.find(key) is Some
            &&& batch.columns[batch.find(key)->Some_0].data_type == crate::schema::DataType::Scalar(
                crate::schema::Scalar::Utf8,
            )
            &&& batch.find("_rowid"@) is Some
            &&& batch.columns[batch.find("_rowid"@)->Some_0].data_type
                == crate::schema::DataType::Scalar(crate::schema::Scalar::UInt64)
        },
{
}

} // verus!
