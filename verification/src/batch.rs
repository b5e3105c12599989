//! Rows as columns: the batches a table takes and gives.

use vstd::prelude::*;

use crate::collect::{collected, lemma_failure_stays};
use crate::error::{arrow_failure, invalid_argument, schema_failure, Failure, StoreError};
use crate::number::{decimal, decimal_usize};
use crate::record::{copy_list, opt_seq, StateMetadata, StateView};
use crate::schema::{
    find_name, lemma_find_name_is, names_of, DataType, FieldView, Scalar, Schema, SchemaView,
};
use crate::text::{clone_opt, contains_text, join3, opt_text, same_text, texts};

verus! {

/// One relationship as a list column holds it: each child may be null.
#[derive(Debug, Clone, PartialEq)]
pub struct LinkCell {
    pub target_id: Option<String>,
    pub relation: Option<String>,
    pub weight: Option<u32>,
}

/// The model of a [`LinkCell`].
#[verifier::ext_equal]
pub struct LinkView {
    pub target_id: Option<Seq<char>>,
    pub relation: Option<Seq<char>>,
    pub weight: Option<u32>,
}

impl View for LinkCell {
    type V = LinkView;

    open spec fn view(&self) -> LinkView {
        LinkView {
            target_id: opt_text(self.target_id),
            relation: opt_text(self.relation),
            weight: self.weight,
        }
    }
}

/// The model of a list of links, each of which may be null.
pub open spec fn link_views(links: Seq<Option<LinkCell>>) -> Seq<Option<LinkView>> {
    Seq::new(
        links.len(),
        |i: int|
            match links[i] {
                Some(link) => Some(link@),
                None => None,
            },
    )
}

/// One value of a column. Floats are bit patterns.
#[derive(Debug, Clone, PartialEq)]
pub enum Cell {
    Null,
    Text(String),
    Int(i64),
    Unsigned(u64),
    Float32(u32),
    Float64(u64),
    Flag(bool),
    Bytes(Vec<u8>),
    Ints32(Vec<i32>),
    Ints8(Vec<i8>),
    Floats(Vec<u32>),
    Links(Vec<Option<LinkCell>>),
    State(StateMetadata),
}

/// The model of a [`Cell`].
#[verifier::ext_equal]
pub enum CellView {
    Null,
    Text(Seq<char>),
    Int(i64),
    Unsigned(u64),
    Float32(u32),
    Float64(u64),
    Flag(bool),
    Bytes(Seq<u8>),
    Ints32(Seq<i32>),
    Ints8(Seq<i8>),
    Floats(Seq<u32>),
    Links(Seq<Option<LinkView>>),
    State(StateView),
}

impl View for Cell {
    type V = CellView;

    open spec fn view(&self) -> CellView {
        match self {
            Cell::Null => CellView::Null,
            Cell::Text(text) => CellView::Text(text@),
            Cell::Int(value) => CellView::Int(*value),
            Cell::Unsigned(value) => CellView::Unsigned(*value),
            Cell::Float32(bits) => CellView::Float32(*bits),
            Cell::Float64(bits) => CellView::Float64(*bits),
            Cell::Flag(flag) => CellView::Flag(*flag),
            Cell::Bytes(bytes) => CellView::Bytes(bytes@),
            Cell::Ints32(items) => CellView::Ints32(items@),
            Cell::Ints8(items) => CellView::Ints8(items@),
            Cell::Floats(items) => CellView::Floats(items@),
            Cell::Links(links) => CellView::Links(link_views(links@)),
            Cell::State(state) => CellView::State(state@),
        }
    }
}

/// The cell of an optional text.
pub open spec fn text_cell(value: Option<Seq<char>>) -> CellView {
    match value {
        Some(text) => CellView::Text(text),
        None => CellView::Null,
    }
}

/// The cell of an optional integer.
pub open spec fn int_cell(value: Option<i64>) -> CellView {
    match value {
        Some(number) => CellView::Int(number),
        None => CellView::Null,
    }
}

/// The cell of an optional 32-bit integer.
pub open spec fn int32_cell(value: Option<i32>) -> CellView {
    match value {
        Some(number) => CellView::Int(number as i64),
        None => CellView::Null,
    }
}

/// The cell of an optional 32-bit float.
pub open spec fn float_cell(value: Option<u32>) -> CellView {
    match value {
        Some(bits) => CellView::Float32(bits),
        None => CellView::Null,
    }
}

/// The cell of an optional flag.
pub open spec fn flag_cell(value: Option<bool>) -> CellView {
    match value {
        Some(flag) => CellView::Flag(flag),
        None => CellView::Null,
    }
}

/// The cell of optional bytes.
pub open spec fn bytes_cell(value: Option<Seq<u8>>) -> CellView {
    match value {
        Some(bytes) => CellView::Bytes(bytes),
        None => CellView::Null,
    }
}

/// The cell of an optional list of 32-bit floats.
pub open spec fn floats_cell(value: Option<Seq<u32>>) -> CellView {
    match value {
        Some(items) => CellView::Floats(items),
        None => CellView::Null,
    }
}

/// The cell of an optional list of 32-bit integers.
pub open spec fn ints32_cell(value: Option<Seq<i32>>) -> CellView {
    match value {
        Some(items) => CellView::Ints32(items),
        None => CellView::Null,
    }
}

/// The cell of an optional list of 8-bit integers.
pub open spec fn ints8_cell(value: Option<Seq<i8>>) -> CellView {
    match value {
        Some(items) => CellView::Ints8(items),
        None => CellView::Null,
    }
}

/// The text a cell holds, if any.
pub open spec fn cell_text(cell: CellView) -> Option<Seq<char>> {
    match cell {
        CellView::Text(text) => Some(text),
        _ => None,
    }
}

/// The integer a cell holds, if any.
pub open spec fn cell_int(cell: CellView) -> Option<i64> {
    match cell {
        CellView::Int(value) => Some(value),
        _ => None,
    }
}

/// The unsigned integer a cell holds, if any.
pub open spec fn cell_unsigned(cell: CellView) -> Option<u64> {
    match cell {
        CellView::Unsigned(value) => Some(value),
        _ => None,
    }
}

/// The 32-bit integer a cell holds, if any.
pub open spec fn cell_int32(cell: CellView) -> Option<i32> {
    match cell {
        CellView::Int(value) => if i32::MIN <= value <= i32::MAX {
            Some(value as i32)
        } else {
            None
        },
        _ => None,
    }
}

/// The 32-bit float a cell holds, if any.
pub open spec fn cell_float(cell: CellView) -> Option<u32> {
    match cell {
        CellView::Float32(bits) => Some(bits),
        _ => None,
    }
}

/// The 64-bit float a cell holds, if any.
pub open spec fn cell_double(cell: CellView) -> Option<u64> {
    match cell {
        CellView::Float64(bits) => Some(bits),
        _ => None,
    }
}

/// The flag a cell holds, if any.
pub open spec fn cell_flag(cell: CellView) -> Option<bool> {
    match cell {
        CellView::Flag(flag) => Some(flag),
        _ => None,
    }
}

/// The bytes a cell holds, if any.
pub open spec fn cell_bytes(cell: CellView) -> Option<Seq<u8>> {
    match cell {
        CellView::Bytes(bytes) => Some(bytes),
        _ => None,
    }
}

/// The list of 32-bit floats a cell holds, if any.
pub open spec fn cell_floats(cell: CellView) -> Option<Seq<u32>> {
    match cell {
        CellView::Floats(items) => Some(items),
        _ => None,
    }
}

/// The list of 32-bit integers a cell holds, if any.
pub open spec fn cell_ints32(cell: CellView) -> Option<Seq<i32>> {
    match cell {
        CellView::Ints32(items) => Some(items),
        _ => None,
    }
}

/// The list of 8-bit integers a cell holds, if any.
pub open spec fn cell_ints8(cell: CellView) -> Option<Seq<i8>> {
    match cell {
        CellView::Ints8(items) => Some(items),
        _ => None,
    }
}

/// The state a cell holds, if any.
pub open spec fn cell_state(cell: CellView) -> Option<StateView> {
    match cell {
        CellView::State(state) => Some(state),
        _ => None,
    }
}

impl Cell {
    /// The cell of an optional text.
    pub fn from_text(value: &Option<String>) -> (cell: Cell)
        ensures
            cell@ == text_cell(opt_text(*value)),
    {
        match value {
            Some(text) => Cell::Text(text.clone()),
            None => Cell::Null,
        }
    }

    /// The cell of an optional integer.
    pub fn from_int(value: Option<i64>) -> (cell: Cell)
        ensures
            cell@ == int_cell(value),
    {
        match value {
            Some(number) => Cell::Int(number),
            None => Cell::Null,
        }
    }

    /// The cell of an optional 32-bit integer.
    pub fn from_int32(value: Option<i32>) -> (cell: Cell)
        ensures
            cell@ == int32_cell(value),
    {
        match value {
            Some(number) => Cell::Int(number as i64),
            None => Cell::Null,
        }
    }

    /// The cell of an optional 32-bit float.
    pub fn from_float(value: Option<u32>) -> (cell: Cell)
        ensures
            cell@ == float_cell(value),
    {
        match value {
            Some(bits) => Cell::Float32(bits),
            None => Cell::Null,
        }
    }

    /// The cell of an optional flag.
    pub fn from_flag(value: Option<bool>) -> (cell: Cell)
        ensures
            cell@ == flag_cell(value),
    {
        match value {
            Some(flag) => Cell::Flag(flag),
            None => Cell::Null,
        }
    }

    /// The cell of optional bytes.
    pub fn from_bytes(value: &Option<Vec<u8>>) -> (cell: Cell)
        ensures
            cell@ == bytes_cell(opt_seq(*value)),
    {
        match value {
            Some(bytes) => Cell::Bytes(copy_list(bytes)),
            None => Cell::Null,
        }
    }

    /// The cell of an optional list of 32-bit floats.
    pub fn from_floats(value: &Option<Vec<u32>>) -> (cell: Cell)
        ensures
            cell@ == floats_cell(opt_seq(*value)),
    {
        match value {
            Some(items) => Cell::Floats(copy_list(items)),
            None => Cell::Null,
        }
    }

    /// The cell of an optional list of 32-bit integers.
    pub fn from_ints32(value: &Option<Vec<i32>>) -> (cell: Cell)
        ensures
            cell@ == ints32_cell(opt_seq(*value)),
    {
        match value {
            Some(items) => Cell::Ints32(copy_list(items)),
            None => Cell::Null,
        }
    }

    /// The cell of an optional list of 8-bit integers.
    pub fn from_ints8(value: &Option<Vec<i8>>) -> (cell: Cell)
        ensures
            cell@ == ints8_cell(opt_seq(*value)),
    {
        match value {
            Some(items) => Cell::Ints8(copy_list(items)),
            None => Cell::Null,
        }
    }

    /// A copy of the cell.
    pub fn copy(&self) -> (cell: Cell)
        ensures
            cell@ == self@,
    {
        match self {
            Cell::Null => Cell::Null,
            Cell::Text(text) => Cell::Text(text.clone()),
            Cell::Int(value) => Cell::Int(*value),
            Cell::Unsigned(value) => Cell::Unsigned(*value),
            Cell::Float32(bits) => Cell::Float32(*bits),
            Cell::Float64(bits) => Cell::Float64(*bits),
            Cell::Flag(flag) => Cell::Flag(*flag),
            Cell::Bytes(bytes) => Cell::Bytes(copy_list(bytes)),
            Cell::Ints32(items) => Cell::Ints32(copy_list(items)),
            Cell::Ints8(items) => Cell::Ints8(copy_list(items)),
            Cell::Floats(items) => Cell::Floats(copy_list(items)),
            Cell::Links(links) => Cell::Links(copy_links(links)),
            Cell::State(state) => Cell::State(state.copy()),
        }
    }
}

fn copy_links(links: &Vec<Option<LinkCell>>) -> (result: Vec<Option<LinkCell>>)
    ensures
        link_views(result@) == link_views(links@),
{
    let mut result: Vec<Option<LinkCell>> = Vec::new();
    let mut index: usize = 0;
    while index < links.len()
        invariant
            index <= links.len(),
            result.len() == index,
            forall|k: int| 0 <= k < index ==> link_views(result@)[k] == #[trigger] link_views(links@)[k],
        decreases links.len() - index,
    {
        let ghost before = result@;
        let copied = match &links[index] {
            Some(link) => Some(
                LinkCell {
                    target_id: clone_opt(&link.target_id),
                    relation: clone_opt(&link.relation),
                    weight: link.weight,
                },
            ),
            None => None,
        };
        result.push(copied);
        assert forall|k: int| 0 <= k < index + 1 implies link_views(result@)[k]
            == #[trigger] link_views(links@)[k] by {
            if k < index {
                assert(link_views(before)[k] == link_views(links@)[k]);
                assert(result@[k] == before[k]);
            }
        }
        index = index + 1;
    }
    assert(link_views(result@) =~= link_views(links@));
    result
}

/// One column of a batch.
#[derive(Debug, Clone, PartialEq)]
pub struct Column {
    pub name: String,
    pub data_type: DataType,
    pub cells: Vec<Cell>,
}

/// The model of a [`Column`].
#[verifier::ext_equal]
pub struct ColumnView {
    pub name: Seq<char>,
    pub data_type: DataType,
    pub cells: Seq<CellView>,
}

/// The views of a sequence of cells.
pub open spec fn cell_views(cells: Seq<Cell>) -> Seq<CellView> {
    Seq::new(cells.len(), |i: int| cells[i]@)
}

impl View for Column {
    type V = ColumnView;

    open spec fn view(&self) -> ColumnView {
        ColumnView {
            name: self.name@,
            data_type: self.data_type,
            cells: cell_views(self.cells@),
        }
    }
}

/// The views of a sequence of columns.
pub open spec fn column_views(columns: Seq<Column>) -> Seq<ColumnView> {
    Seq::new(columns.len(), |i: int| columns[i]@)
}

/// Rows held column by column.
#[derive(Debug, Clone, PartialEq)]
pub struct Batch {
    pub columns: Vec<Column>,
    pub rows: usize,
}

/// The model of a [`Batch`].
#[verifier::ext_equal]
pub struct BatchView {
    pub columns: Seq<ColumnView>,
    pub rows: nat,
}

impl View for Batch {
    type V = BatchView;

    open spec fn view(&self) -> BatchView {
        BatchView { columns: column_views(self.columns@), rows: self.rows as nat }
    }
}

/// The names of a sequence of columns.
pub open spec fn column_names(columns: Seq<ColumnView>) -> Seq<Seq<char>> {
    Seq::new(columns.len(), |i: int| columns[i].name)
}

impl BatchView {
    /// Every column has one cell for each row.
    pub open spec fn well_formed(self) -> bool {
        forall|i: int|
            0 <= i < self.columns.len() ==> (#[trigger] self.columns[i]).cells.len() == self.rows
    }

    /// Where the first column of this name stands.
    pub open spec fn find(self, name: Seq<char>) -> Option<int> {
        find_name(column_names(self.columns), name)
    }
}

/// The array type a reader expects of a column.
#[derive(Debug, Clone, Copy, PartialEq, Eq, Structural)]
pub enum ArrayKind {
    Text,
    LargeText,
    LargeBinary,
    Boolean,
    Int32,
    Int64,
    UInt64,
    Float32,
    Float64,
    Timestamp,
    /// A dictionary with 8-bit keys.
    Dictionary,
    Struct,
    List,
    FixedSizeList,
}

/// Whether a column of this type reads as this kind of array. A timestamp
/// reads alike with and without a time zone, and the item types of lists,
/// structs and dictionaries are looked at later.
pub open spec fn reads_as(data_type: DataType, kind: ArrayKind) -> bool {
    match kind {
        ArrayKind::Text => data_type == DataType::Scalar(Scalar::Utf8),
        ArrayKind::LargeText => data_type == DataType::Scalar(Scalar::LargeUtf8),
        ArrayKind::LargeBinary => data_type == DataType::Scalar(Scalar::LargeBinary),
        ArrayKind::Boolean => data_type == DataType::Scalar(Scalar::Boolean),
        ArrayKind::Int32 => data_type == DataType::Scalar(Scalar::Int32),
        ArrayKind::Int64 => data_type == DataType::Scalar(Scalar::Int64),
        ArrayKind::UInt64 => data_type == DataType::Scalar(Scalar::UInt64),
        ArrayKind::Float32 => data_type == DataType::Scalar(Scalar::Float32),
        ArrayKind::Float64 => data_type == DataType::Scalar(Scalar::Float64),
        ArrayKind::Timestamp => data_type == DataType::Scalar(Scalar::Timestamp) || data_type
            == DataType::Scalar(Scalar::TimestampUtc),
        ArrayKind::Dictionary => data_type is Dictionary && data_type->Dictionary_0 == Scalar::Int8,
        ArrayKind::Struct => data_type is Struct,
        ArrayKind::List => data_type is List,
        ArrayKind::FixedSizeList => data_type is FixedSizeList,
    }
}

fn reads_as_kind(data_type: DataType, kind: ArrayKind) -> (result: bool)
    ensures
        result == reads_as(data_type, kind),
{
    match kind {
        ArrayKind::Text => data_type == DataType::Scalar(Scalar::Utf8),
        ArrayKind::LargeText => data_type == DataType::Scalar(Scalar::LargeUtf8),
        ArrayKind::LargeBinary => data_type == DataType::Scalar(Scalar::LargeBinary),
        ArrayKind::Boolean => data_type == DataType::Scalar(Scalar::Boolean),
        ArrayKind::Int32 => data_type == DataType::Scalar(Scalar::Int32),
        ArrayKind::Int64 => data_type == DataType::Scalar(Scalar::Int64),
        ArrayKind::UInt64 => data_type == DataType::Scalar(Scalar::UInt64),
        ArrayKind::Float32 => data_type == DataType::Scalar(Scalar::Float32),
        ArrayKind::Float64 => data_type == DataType::Scalar(Scalar::Float64),
        ArrayKind::Timestamp => data_type == DataType::Scalar(Scalar::Timestamp) || data_type
            == DataType::Scalar(Scalar::TimestampUtc),
        ArrayKind::Dictionary => match data_type {
            DataType::Dictionary(key, _) => key == Scalar::Int8,
            _ => false,
        },
        ArrayKind::Struct => match data_type {
            DataType::Struct(_, _) => true,
            _ => false,
        },
        ArrayKind::List => match data_type {
            DataType::List(_, _) => true,
            _ => false,
        },
        ArrayKind::FixedSizeList => match data_type {
            DataType::FixedSizeList(_, _, _) => true,
            _ => false,
        },
    }
}

/// The column a reader needs, or why it cannot have it.
pub open spec fn required_column(batch: BatchView, name: Seq<char>, kind: ArrayKind) -> Result<
    int,
    Failure,
> {
    match batch.find(name) {
        None => Err(invalid_argument("column '"@ + name + "' not found"@)),
        Some(index) => if reads_as(batch.columns[index].data_type, kind) {
            Ok(index)
        } else {
            Err(invalid_argument("column '"@ + name + "' has unexpected data type"@))
        },
    }
}

/// The column a reader can do without.
pub open spec fn optional_column(batch: BatchView, name: Seq<char>, kind: ArrayKind) -> Option<int> {
    match batch.find(name) {
        None => None,
        Some(index) => if reads_as(batch.columns[index].data_type, kind) {
            Some(index)
        } else {
            None
        },
    }
}

/// The cell of a column the batch may lack; null where it lacks it.
pub open spec fn cell_at(batch: BatchView, column: Option<int>, row: int) -> CellView {
    match column {
        Some(index) => batch.columns[index].cells[row],
        None => CellView::Null,
    }
}

/// An optional position as a number.
pub open spec fn opt_index(index: Option<usize>) -> Option<int> {
    match index {
        Some(value) => Some(value as int),
        None => None,
    }
}

/// A position that is absent or names a column.
pub open spec fn valid_index(batch: BatchView, column: Option<usize>) -> bool {
    match column {
        Some(index) => index < batch.columns.len(),
        None => true,
    }
}

impl Batch {
    /// Where the first column of this name stands.
    pub fn index_of(&self, name: &str) -> (result: Option<usize>)
        ensures
            opt_index(result) == self@.find(name@),
            valid_index(self@, result),
    {
        let ghost names = column_names(self@.columns);
        let mut index: usize = 0;
        while index < self.columns.len()
            invariant
                index <= self.columns.len(),
                names == column_names(self@.columns),
                forall|j: int| 0 <= j < index ==> #[trigger] names[j] != name@,
            decreases self.columns.len() - index,
        {
            if same_text(self.columns[index].name.as_str(), name) {
                proof {
                    assert(names[index as int] == name@);
                    lemma_find_name_is(names, name@, index as int);
                }
                return Some(index);
            }
            index = index + 1;
        }
        proof {
            crate::schema::lemma_find_name_none(names, name@);
        }
        None
    }

    /// The column of this name, which must be there and read as `kind`.
    pub fn column_as(&self, name: &str, kind: ArrayKind) -> (result: Result<usize, StoreError>)
        ensures
            match required_column(self@, name@, kind) {
                Ok(index) => result is Ok && result->Ok_0 == index && index < self@.columns.len(),
                Err(failure) => result is Err && result->Err_0@ == failure,
            },
    {
        match self.index_of(name) {
            None => Err(StoreError::invalid_argument(join3("column '", name, "' not found"))),
            Some(index) => if reads_as_kind(self.columns[index].data_type, kind) {
                Ok(index)
            } else {
                Err(
                    StoreError::invalid_argument(
                        join3("column '", name, "' has unexpected data type"),
                    ),
                )
            },
        }
    }

    /// The column of this name, if it is there and reads as `kind`.
    pub fn column_as_optional(&self, name: &str, kind: ArrayKind) -> (result: Option<usize>)
        ensures
            opt_index(result) == optional_column(self@, name@, kind),
            valid_index(self@, result),
    {
        match self.index_of(name) {
            None => None,
            Some(index) => if reads_as_kind(self.columns[index].data_type, kind) {
                Some(index)
            } else {
                None
            },
        }
    }

    /// The text in a row of a column.
    pub fn text_at(&self, column: Option<usize>, row: usize) -> (result: Option<String>)
        requires
            self@.well_formed(),
            valid_index(self@, column),
            row < self.rows,
        ensures
            opt_text(result) == cell_text(cell_at(self@, opt_index(column), row as int)),
    {
        match column {
            None => None,
            Some(index) => {
                assert(self@.columns[index as int].cells.len() == self@.rows);
                match &self.columns[index].cells[row] {
                    Cell::Text(text) => Some(text.clone()),
                    _ => None,
                }
            },
        }
    }

    /// The integer in a row of a column.
    pub fn int_at(&self, column: Option<usize>, row: usize) -> (result: Option<i64>)
        requires
            self@.well_formed(),
            valid_index(self@, column),
            row < self.rows,
        ensures
            result == cell_int(cell_at(self@, opt_index(column), row as int)),
    {
        match column {
            None => None,
            Some(index) => {
                assert(self@.columns[index as int].cells.len() == self@.rows);
                match &self.columns[index].cells[row] {
                    Cell::Int(value) => Some(*value),
                    _ => None,
                }
            },
        }
    }

    /// The unsigned integer in a row of a column.
    pub fn unsigned_at(&self, column: Option<usize>, row: usize) -> (result: Option<u64>)
        requires
            self@.well_formed(),
            valid_index(self@, column),
            row < self.rows,
        ensures
            result == cell_unsigned(cell_at(self@, opt_index(column), row as int)),
    {
        match column {
            None => None,
            Some(index) => {
                assert(self@.columns[index as int].cells.len() == self@.rows);
                match &self.columns[index].cells[row] {
                    Cell::Unsigned(value) => Some(*value),
                    _ => None,
                }
            },
        }
    }

    /// The 32-bit integer in a row of a column.
    pub fn int32_at(&self, column: Option<usize>, row: usize) -> (result: Option<i32>)
        requires
            self@.well_formed(),
            valid_index(self@, column),
            row < self.rows,
        ensures
            result == cell_int32(cell_at(self@, opt_index(column), row as int)),
    {
        match self.int_at(column, row) {
            None => None,
            Some(value) => if i32::MIN as i64 <= value && value <= i32::MAX as i64 {
                Some(value as i32)
            } else {
                None
            },
        }
    }

    /// The 32-bit float in a row of a column.
    pub fn float_at(&self, column: Option<usize>, row: usize) -> (result: Option<u32>)
        requires
            self@.well_formed(),
            valid_index(self@, column),
            row < self.rows,
        ensures
            result == cell_float(cell_at(self@, opt_index(column), row as int)),
    {
        match column {
            None => None,
            Some(index) => {
                assert(self@.columns[index as int].cells.len() == self@.rows);
                match &self.columns[index].cells[row] {
                    Cell::Float32(bits) => Some(*bits),
                    _ => None,
                }
            },
        }
    }

    /// The 64-bit float in a row of a column.
    pub fn double_at(&self, column: Option<usize>, row: usize) -> (result: Option<u64>)
        requires
            self@.well_formed(),
            valid_index(self@, column),
            row < self.rows,
        ensures
            result == cell_double(cell_at(self@, opt_index(column), row as int)),
    {
        match column {
            None => None,
            Some(index) => {
                assert(self@.columns[index as int].cells.len() == self@.rows);
                match &self.columns[index].cells[row] {
                    Cell::Float64(bits) => Some(*bits),
                    _ => None,
                }
            },
        }
    }

    /// The flag in a row of a column.
    pub fn flag_at(&self, column: Option<usize>, row: usize) -> (result: Option<bool>)
        requires
            self@.well_formed(),
            valid_index(self@, column),
            row < self.rows,
        ensures
            result == cell_flag(cell_at(self@, opt_index(column), row as int)),
    {
        match column {
            None => None,
            Some(index) => {
                assert(self@.columns[index as int].cells.len() == self@.rows);
                match &self.columns[index].cells[row] {
                    Cell::Flag(flag) => Some(*flag),
                    _ => None,
                }
            },
        }
    }

    /// The bytes in a row of a column.
    pub fn bytes_at(&self, column: Option<usize>, row: usize) -> (result: Option<Vec<u8>>)
        requires
            self@.well_formed(),
            valid_index(self@, column),
            row < self.rows,
        ensures
            opt_seq(result) == cell_bytes(cell_at(self@, opt_index(column), row as int)),
    {
        match column {
            None => None,
            Some(index) => {
                assert(self@.columns[index as int].cells.len() == self@.rows);
                match &self.columns[index].cells[row] {
                    Cell::Bytes(bytes) => Some(copy_list(bytes)),
                    _ => None,
                }
            },
        }
    }

    /// The state in a row of a struct column.
    pub fn state_at(&self, column: usize, row: usize) -> (result: Option<StateMetadata>)
        requires
            self@.well_formed(),
            column < self@.columns.len(),
            row < self.rows,
        ensures
            crate::record::opt_state(result) == cell_state(
                self@.columns[column as int].cells[row as int],
            ),
    {
        assert(self@.columns[column as int].cells.len() == self@.rows);
        match &self.columns[column].cells[row] {
            Cell::State(state) => Some(state.copy()),
            _ => None,
        }
    }
}

/// The columns of these names, in this order: what a scan of them gives.
pub open spec fn scanned(batch: BatchView, names: Seq<Seq<char>>) -> BatchView {
    BatchView {
        columns: Seq::new(
            names.len(),
            |i: int| batch.columns[batch.find(names[i])->Some_0],
        ),
        rows: batch.rows,
    }
}

/// Why columns cannot be a batch of a table.
#[derive(Debug, Clone, PartialEq)]
pub enum FitError {
    /// The table has no columns, so that nothing tells how many rows there are.
    NoColumns,
    /// A column that is never null has a null.
    Nulls(String),
    /// A column has another type than the table's.
    TypeMismatch { index: usize, expected: DataType, found: DataType },
}

/// The model of a [`FitError`].
#[verifier::ext_equal]
pub enum FitFailure {
    NoColumns,
    Nulls(Seq<char>),
    TypeMismatch(int, DataType, DataType),
}

impl View for FitError {
    type V = FitFailure;

    open spec fn view(&self) -> FitFailure {
        match self {
            FitError::NoColumns => FitFailure::NoColumns,
            FitError::Nulls(name) => FitFailure::Nulls(name@),
            FitError::TypeMismatch { index, expected, found } => FitFailure::TypeMismatch(
                *index as int,
                *expected,
                *found,
            ),
        }
    }
}

/// The error that is reported of columns that do not fit, given how the two
/// types of a mismatch are written.
pub open spec fn fit_report(
    failure: FitFailure,
    expected: Seq<char>,
    found: Seq<char>,
) -> Failure {
    match failure {
        FitFailure::NoColumns => invalid_argument(
            "must either specify a row count or at least one column"@,
        ),
        FitFailure::Nulls(name) => invalid_argument(
            "Column '"@ + name + "' is declared as non-nullable but contains null values"@,
        ),
        FitFailure::TypeMismatch(index, _, _) => invalid_argument(
            "column types must match schema types, expected "@ + expected + " but found "@ + found
                + " at column index "@ + decimal(index),
        ),
    }
}

impl FitError {
    /// The error to report, given how the two types of a mismatch are written.
    pub fn report(&self, expected: &str, found: &str) -> (error: StoreError)
        ensures
            error@ == fit_report(self@, expected@, found@),
    {
        match self {
            FitError::NoColumns => StoreError::invalid_argument(
                "must either specify a row count or at least one column".to_owned(),
            ),
            FitError::Nulls(name) => StoreError::invalid_argument(
                join3(
                    "Column '",
                    name.as_str(),
                    "' is declared as non-nullable but contains null values",
                ),
            ),
            FitError::TypeMismatch { index, expected: _, found: _ } => {
                let mut message = join3(
                    "column types must match schema types, expected ",
                    expected,
                    " but found ",
                );
                message.append(found);
                message.append(" at column index ");
                let place = decimal_usize(*index);
                message.append(place.as_str());
                StoreError::invalid_argument(message)
            },
        }
    }
}

/// A column has a null.
pub open spec fn has_null(column: ColumnView) -> bool {
    exists|i: int| 0 <= i < column.cells.len() && #[trigger] column.cells[i] == CellView::Null
}

/// Whether a column has nulls only where the table takes them.
pub open spec fn null_check(columns: Seq<ColumnView>, fields: Seq<FieldView>) -> spec_fn(
    int,
) -> Result<(), FitFailure> {
    |j: int|
        if !fields[j].nullable && has_null(columns[j]) {
            Err(FitFailure::Nulls(fields[j].name))
        } else {
            Ok(())
        }
}

/// Whether a column has the table's type.
pub open spec fn type_check(columns: Seq<ColumnView>, fields: Seq<FieldView>) -> spec_fn(
    int,
) -> Result<(), FitFailure> {
    |j: int|
        if columns[j].data_type != fields[j].data_type {
            Err(FitFailure::TypeMismatch(j, fields[j].data_type, columns[j].data_type))
        } else {
            Ok(())
        }
}

/// Why columns, one for each of the table's, are no batch of it: first the
/// nulls are looked at, then the types.
pub open spec fn fit_failure(columns: Seq<ColumnView>, fields: Seq<FieldView>) -> Option<
    FitFailure,
> {
    if fields.len() == 0 {
        Some(FitFailure::NoColumns)
    } else {
        match collected(null_check(columns, fields), fields.len()) {
            Err(failure) => Some(failure),
            Ok(_) => match collected(type_check(columns, fields), fields.len()) {
                Err(failure) => Some(failure),
                Ok(_) => None,
            },
        }
    }
}

/// Columns that have the table's types, and nulls only where the table takes
/// them, fit.
pub proof fn lemma_columns_fit(columns: Seq<ColumnView>, fields: Seq<FieldView>)
    requires
        columns.len() == fields.len(),
        fields.len() > 0,
        forall|j: int|
            0 <= j < fields.len() ==> (#[trigger] columns[j]).data_type == fields[j].data_type,
        forall|j: int|
            0 <= j < fields.len() ==> (#[trigger] fields[j]).nullable || !has_null(columns[j]),
    ensures
        fit_failure(columns, fields) is None,
{
    let passed = Seq::new(fields.len(), |j: int| ());
    let nulls = null_check(columns, fields);
    let types = type_check(columns, fields);
    assert forall|j: int| 0 <= j < fields.len() implies #[trigger] nulls(j) == Ok::<(), FitFailure>(
        passed[j],
    ) by {
        assert(fields[j].nullable || !has_null(columns[j]));
    }
    assert forall|j: int| 0 <= j < fields.len() implies #[trigger] types(j) == Ok::<(), FitFailure>(
        passed[j],
    ) by {
        assert(columns[j].data_type == fields[j].data_type);
    }
    crate::collect::lemma_all_succeed(nulls, fields.len(), passed);
    crate::collect::lemma_all_succeed(types, fields.len(), passed);
}

/// Columns that fit have the table's types, and nulls only where the table
/// takes them.
pub proof fn lemma_fitting_columns(columns: Seq<ColumnView>, fields: Seq<FieldView>, at: int)
    requires
        fit_failure(columns, fields) is None,
        0 <= at < fields.len(),
    ensures
        columns[at].data_type == fields[at].data_type,
        fields[at].nullable || !has_null(columns[at]),
{
    let nulls = null_check(columns, fields);
    let types = type_check(columns, fields);
    crate::collect::lemma_success_holds_values(nulls, fields.len());
    crate::collect::lemma_success_holds_values(types, fields.len());
    assert(nulls(at) is Ok);
    assert(types(at) is Ok);
}

fn contains_null(column: &Column) -> (result: bool)
    ensures
        result == has_null(column@),
{
    let mut index: usize = 0;
    while index < column.cells.len()
        invariant
            index <= column.cells.len(),
            forall|i: int| 0 <= i < index ==> #[trigger] column@.cells[i] != CellView::Null,
        decreases column.cells.len() - index,
    {
        assert(column@.cells[index as int] == column.cells@[index as int]@);
        match &column.cells[index] {
            Cell::Null => {
                return true;
            },
            _ => {},
        }
        index = index + 1;
    }
    false
}

/// Checks columns, one for each of the table's, before they become a batch.
pub fn check_fit(columns: &Vec<Column>, schema: &Schema) -> (result: Result<(), FitError>)
    requires
        columns@.len() == schema.fields@.len(),
    ensures
        match fit_failure(column_views(columns@), schema@.fields) {
            Some(failure) => result is Err && result->Err_0@ == failure,
            None => result is Ok,
        },
{
    let ghost views = column_views(columns@);
    let ghost fields = schema@.fields;
    if schema.fields.len() == 0 {
        return Err(FitError::NoColumns);
    }
    let ghost nulls = null_check(views, fields);
    let ghost types = type_check(views, fields);
    let ghost mut seen: Seq<()> = Seq::empty();
    let mut j: usize = 0;
    while j < schema.fields.len()
        invariant
            j <= schema.fields.len(),
            columns@.len() == schema.fields@.len(),
            views == column_views(columns@),
            fields == schema@.fields,
            fields.len() > 0,
            nulls == null_check(views, fields),
            collected(nulls, j as nat) == Ok::<Seq<()>, FitFailure>(seen),
        decreases schema.fields.len() - j,
    {
        let field = &schema.fields[j];
        assert(fields[j as int] == field@);
        assert(views[j as int] == columns@[j as int]@);
        if !field.nullable && contains_null(&columns[j]) {
            proof {
                assert(nulls(j as int) == Err::<(), FitFailure>(FitFailure::Nulls(field.name@)));
                assert(collected(nulls, (j + 1) as nat) is Err);
                lemma_failure_stays(nulls, (j + 1) as nat, fields.len());
            }
            return Err(FitError::Nulls(field.name.clone()));
        }
        proof {
            assert(nulls(j as int) == Ok::<(), FitFailure>(()));
            seen = seen.push(());
        }
        j = j + 1;
    }
    proof {
        seen = Seq::empty();
    }
    let mut k: usize = 0;
    while k < schema.fields.len()
        invariant
            k <= schema.fields.len(),
            columns@.len() == schema.fields@.len(),
            views == column_views(columns@),
            fields == schema@.fields,
            fields.len() > 0,
            types == type_check(views, fields),
            collected(null_check(views, fields), fields.len()) is Ok,
            collected(types, k as nat) == Ok::<Seq<()>, FitFailure>(seen),
        decreases schema.fields.len() - k,
    {
        let field = &schema.fields[k];
        assert(fields[k as int] == field@);
        assert(views[k as int] == columns@[k as int]@);
        if columns[k].data_type != field.data_type {
            let error = FitError::TypeMismatch {
                index: k,
                expected: field.data_type,
                found: columns[k].data_type,
            };
            proof {
                assert(types(k as int) == Err::<(), FitFailure>(error@));
                assert(collected(types, (k + 1) as nat) is Err);
                lemma_failure_stays(types, (k + 1) as nat, fields.len());
            }
            return Err(error);
        }
        proof {
            assert(types(k as int) == Ok::<(), FitFailure>(()));
            seen = seen.push(());
        }
        k = k + 1;
    }
    Ok(())
}

/// Why records cannot be written to a table.
#[derive(Debug, Clone, PartialEq)]
pub enum EncodeError {
    /// The records are refused.
    Refused(StoreError),
    /// Their columns are no batch of the table.
    Unfit(FitError),
}

/// The model of an [`EncodeError`].
#[verifier::ext_equal]
pub enum EncodeFailure {
    Refused(Failure),
    Unfit(FitFailure),
}

impl View for EncodeError {
    type V = EncodeFailure;

    open spec fn view(&self) -> EncodeFailure {
        match self {
            EncodeError::Refused(error) => EncodeFailure::Refused(error@),
            EncodeError::Unfit(error) => EncodeFailure::Unfit(error@),
        }
    }
}

/// The error that is reported of records that cannot be written, given how the
/// two types of a mismatch are written.
pub open spec fn encode_report(
    failure: EncodeFailure,
    expected: Seq<char>,
    found: Seq<char>,
) -> Failure {
    match failure {
        EncodeFailure::Refused(failure) => failure,
        EncodeFailure::Unfit(failure) => fit_report(failure, expected, found),
    }
}

impl EncodeError {
    /// The error to report, given how the two types of a mismatch are written.
    pub fn report(self, expected: &str, found: &str) -> (error: StoreError)
        ensures
            error@ == encode_report(self@, expected@, found@),
    {
        match self {
            EncodeError::Refused(error) => error,
            EncodeError::Unfit(error) => error.report(expected, found),
        }
    }
}

/// How many different texts the first `count` are.
pub open spec fn distinct_count(texts: Seq<Seq<char>>, count: nat) -> nat
    decreases count,
{
    if count == 0 {
        0
    } else if texts.take(count - 1).contains(texts[count - 1]) {
        distinct_count(texts, (count - 1) as nat)
    } else {
        distinct_count(texts, (count - 1) as nat) + 1
    }
}

/// More texts are never fewer different ones.
pub proof fn lemma_distinct_grows(texts: Seq<Seq<char>>, count: nat, more: nat)
    requires
        count <= more,
    ensures
        distinct_count(texts, count) <= distinct_count(texts, more),
    decreases more,
{
    if count < more {
        lemma_distinct_grows(texts, count, (more - 1) as nat);
    }
}

/// How many different values a dictionary with 8-bit keys can have.
pub const DICTIONARY_SIZE: usize = 128;

/// Whether the first texts, up to and with this one, fit in a dictionary.
pub open spec fn dictionary_check(texts: Seq<Seq<char>>, at: int) -> Option<Failure> {
    if distinct_count(texts, (at + 1) as nat) > DICTIONARY_SIZE {
        Some(arrow_failure("Dictionary key bigger than the key type"@))
    } else {
        None
    }
}

/// Texts that a dictionary takes, in the order in which they come.
pub struct DictionaryTexts {
    pub seen: Vec<String>,
}

impl DictionaryTexts {
    /// The dictionary has taken the first `count` texts.
    pub open spec fn holds(self, all: Seq<Seq<char>>, count: nat) -> bool {
        &&& self.seen@.len() == distinct_count(all, count)
        &&& forall|text: Seq<char>| #[trigger]
            texts(self.seen@).contains(text) == all.take(count as int).contains(text)
    }

    /// A dictionary without texts.
    pub fn new() -> (result: DictionaryTexts)
        ensures
            forall|all: Seq<Seq<char>>| #[trigger] result.holds(all, 0),
    {
        let result = DictionaryTexts { seen: Vec::new() };
        assert forall|all: Seq<Seq<char>>| #[trigger] result.holds(all, 0) by {
            assert(texts(result.seen@) =~= all.take(0));
        }
        result
    }
}

/// Takes the next text into a dictionary.
pub(crate) fn take_text(dictionary: &mut DictionaryTexts, text: &str, all: Ghost<Seq<Seq<char>>>, at: Ghost<nat>) -> (result: Result<
    (),
    StoreError,
>)
    requires
        at@ < all@.len(),
        all@[at@ as int] == text@,
        old(dictionary).holds(all@, at@),
    ensures
        crate::error::check_failure(result) == dictionary_check(all@, at@ as int),
        final(dictionary).holds(all@, at@ + 1),
{
    let ghost before = dictionary.seen@;
    let ghost earlier = all@.take(at@ as int);
    let ghost now = all@.take((at@ + 1) as int);
    assert(now =~= earlier.push(text@));
    if !contains_text(&dictionary.seen, text) {
        dictionary.seen.push(text.to_owned());
        assert(texts(dictionary.seen@) =~= texts(before).push(text@));
    }
    proof {
        assert(texts(before).contains(text@) == earlier.contains(text@));
        assert forall|other: Seq<char>| #[trigger]
            texts(dictionary.seen@).contains(other) == now.contains(other) by {
            assert(texts(before).contains(other) == earlier.contains(other));
            if earlier.contains(other) {
                let k = choose|k: int| 0 <= k < earlier.len() && earlier[k] == other;
                assert(now[k] == other);
            }
            if now.contains(other) && !earlier.contains(other) {
                let k = choose|k: int| 0 <= k < now.len() && now[k] == other;
                if k < earlier.len() {
                    assert(earlier[k] == other);
                }
                assert(other == text@);
            }
            if other == text@ {
                assert(now[at@ as int] == other);
            }
            if texts(before).contains(other) {
                let k = choose|k: int| 0 <= k < before.len() && texts(before)[k] == other;
                assert(texts(dictionary.seen@)[k] == other);
            }
            if texts(dictionary.seen@).contains(other) && !texts(before).contains(other) {
                let k = choose|k: int|
                    0 <= k < dictionary.seen@.len() && texts(dictionary.seen@)[k] == other;
                if k < before.len() {
                    assert(texts(before)[k] == other);
                }
                assert(other == text@);
            }
            if other == text@ && !texts(before).contains(other) {
                assert(texts(dictionary.seen@)[before.len() as int] == other);
            }
        }
    }
    if dictionary.seen.len() > DICTIONARY_SIZE {
        return Err(StoreError::arrow("Dictionary key bigger than the key type".to_owned()));
    }
    Ok(())
}

/// Why a batch cannot be brought to a table's schema.
#[derive(Debug, Clone, PartialEq)]
pub enum AlignError {
    /// The batch has a column that the table does not know.
    UnknownColumn(String),
    /// A column has another type than the table's.
    TypeMismatch { column: String, found: DataType, expected: DataType },
    /// The batch lacks a column that the table requires.
    MissingColumn(String),
    /// The columns, brought into the table's order, are no batch of it.
    Unfit(FitError),
}

/// The model of an [`AlignError`].
#[verifier::ext_equal]
pub enum AlignFailure {
    UnknownColumn(Seq<char>),
    TypeMismatch(Seq<char>, DataType, DataType),
    MissingColumn(Seq<char>),
    Unfit(FitFailure),
}

impl View for AlignError {
    type V = AlignFailure;

    open spec fn view(&self) -> AlignFailure {
        match self {
            AlignError::UnknownColumn(name) => AlignFailure::UnknownColumn(name@),
            AlignError::TypeMismatch { column, found, expected } => AlignFailure::TypeMismatch(
                column@,
                *found,
                *expected,
            ),
            AlignError::MissingColumn(name) => AlignFailure::MissingColumn(name@),
            AlignError::Unfit(error) => AlignFailure::Unfit(error@),
        }
    }
}

/// The error that a merge reports of an alignment failure, given how the two
/// types of a mismatch are written.
pub open spec fn align_report(
    failure: AlignFailure,
    found: Seq<char>,
    expected: Seq<char>,
) -> Failure {
    match failure {
        AlignFailure::UnknownColumn(name) => schema_failure(
            "WAL generation column '"@ + name + "' does not exist in the base table schema"@,
        ),
        AlignFailure::TypeMismatch(name, _, _) => schema_failure(
            "WAL generation column '"@ + name + "' has type "@ + found + ", expected "@ + expected,
        ),
        AlignFailure::MissingColumn(name) => schema_failure(
            "required base table column '"@ + name + "' is missing from the WAL generation"@,
        ),
        AlignFailure::Unfit(failure) => fit_report(failure, expected, found),
    }
}

impl AlignError {
    /// The error to report, given how the two types of a mismatch are written.
    pub fn report(&self, found: &str, expected: &str) -> (error: StoreError)
        ensures
            error@ == align_report(self@, found@, expected@),
    {
        match self {
            AlignError::UnknownColumn(name) => StoreError::schema(
                join3(
                    "WAL generation column '",
                    name.as_str(),
                    "' does not exist in the base table schema",
                ),
            ),
            AlignError::TypeMismatch { column, found: _, expected: _ } => {
                let mut message = join3("WAL generation column '", column.as_str(), "' has type ");
                message.append(found);
                message.append(", expected ");
                message.append(expected);
                StoreError::schema(message)
            },
            AlignError::MissingColumn(name) => StoreError::schema(
                join3(
                    "required base table column '",
                    name.as_str(),
                    "' is missing from the WAL generation",
                ),
            ),
            AlignError::Unfit(error) => error.report(expected, found),
        }
    }
}

/// A column of nulls.
pub open spec fn null_column(field: FieldView, rows: nat) -> ColumnView {
    ColumnView {
        name: field.name,
        data_type: field.data_type,
        cells: Seq::new(rows, |i: int| CellView::Null),
    }
}

/// Whether the table knows a column of the batch.
pub open spec fn known_column(batch: BatchView, target: SchemaView) -> spec_fn(int) -> Result<
    (),
    AlignFailure,
> {
    |i: int|
        if target.has(batch.columns[i].name) {
            Ok(())
        } else {
            Err(AlignFailure::UnknownColumn(batch.columns[i].name))
        }
}

/// The column that stands for one column of the table.
pub open spec fn aligned_column(batch: BatchView, target: SchemaView) -> spec_fn(int) -> Result<
    ColumnView,
    AlignFailure,
> {
    |j: int|
        {
            let field = target.fields[j];
            match batch.find(field.name) {
                Some(index) => if batch.columns[index].data_type == field.data_type {
                    Ok(batch.columns[index])
                } else {
                    Err(
                        AlignFailure::TypeMismatch(
                            field.name,
                            batch.columns[index].data_type,
                            field.data_type,
                        ),
                    )
                },
                None => if field.nullable {
                    Ok(null_column(field, batch.rows))
                } else {
                    Err(AlignFailure::MissingColumn(field.name))
                },
            }
        }
}

/// The batch with exactly the table's columns, or why there is none.
pub open spec fn aligned(batch: BatchView, target: SchemaView) -> Result<BatchView, AlignFailure> {
    match collected(known_column(batch, target), batch.columns.len()) {
        Err(failure) => Err(failure),
        Ok(_) => match collected(aligned_column(batch, target), target.fields.len()) {
            Err(failure) => Err(failure),
            Ok(columns) => match fit_failure(columns, target.fields) {
                Some(failure) => Err(AlignFailure::Unfit(failure)),
                None => Ok(BatchView { columns, rows: batch.rows }),
            },
        },
    }
}

fn copy_cells(cells: &Vec<Cell>) -> (result: Vec<Cell>)
    ensures
        cell_views(result@) == cell_views(cells@),
{
    let mut result: Vec<Cell> = Vec::new();
    let mut index: usize = 0;
    while index < cells.len()
        invariant
            index <= cells.len(),
            cell_views(result@) == cell_views(cells@).take(index as int),
        decreases cells.len() - index,
    {
        let ghost before = result@;
        result.push(cells[index].copy());
        assert(cell_views(result@) =~= cell_views(before).push(cells@[index as int]@));
        index = index + 1;
        assert(cell_views(result@) =~= cell_views(cells@).take(index as int));
    }
    assert(cell_views(cells@).take(cells@.len() as int) =~= cell_views(cells@));
    result
}

fn null_cells(rows: usize) -> (result: Vec<Cell>)
    ensures
        cell_views(result@) == Seq::new(rows as nat, |i: int| CellView::Null),
{
    let mut result: Vec<Cell> = Vec::new();
    let mut index: usize = 0;
    while index < rows
        invariant
            index <= rows,
            result.len() == index,
            forall|k: int| 0 <= k < index ==> (#[trigger] result@[k])@ == CellView::Null,
        decreases rows - index,
    {
        result.push(Cell::Null);
        index = index + 1;
    }
    assert(cell_views(result@) =~= Seq::new(rows as nat, |i: int| CellView::Null));
    result
}

/// Brings a batch to the columns of a table, in the table's order.
///
/// A nullable column that the batch lacks is filled with nulls. A missing
/// required column, a changed type and a column the table does not know are
/// errors, so that nothing is dropped or reinterpreted; so are nulls in a column
/// that the table never leaves empty.
pub fn align_batch_to_schema(batch: &Batch, target: &Schema) -> (result: Result<Batch, AlignError>)
    requires
        batch@.well_formed(),
    ensures
        match aligned(batch@, target@) {
            Ok(model) => result is Ok && result->Ok_0@ == model && model.well_formed(),
            Err(failure) => result is Err && result->Err_0@ == failure,
        },
{
    let ghost known = known_column(batch@, target@);
    let mut i: usize = 0;
    let ghost mut seen: Seq<()> = Seq::empty();
    while i < batch.columns.len()
        invariant
            i <= batch.columns.len(),
            known == known_column(batch@, target@),
            collected(known, i as nat) == Ok::<Seq<()>, AlignFailure>(seen),
        decreases batch.columns.len() - i,
    {
        if !target.has_column(batch.columns[i].name.as_str()) {
            proof {
                assert(known(i as int) == Err::<(), AlignFailure>(
                    AlignFailure::UnknownColumn(batch@.columns[i as int].name),
                ));
                assert(collected(known, (i + 1) as nat) is Err);
                lemma_failure_stays(known, (i + 1) as nat, batch@.columns.len());
            }
            return Err(AlignError::UnknownColumn(batch.columns[i].name.clone()));
        }
        proof {
            assert(known(i as int) == Ok::<(), AlignFailure>(()));
            seen = seen.push(());
        }
        i = i + 1;
    }

    let ghost step = aligned_column(batch@, target@);
    let mut columns: Vec<Column> = Vec::new();
    let mut j: usize = 0;
    assert(column_views(columns@) =~= Seq::<ColumnView>::empty());
    while j < target.fields.len()
        invariant
            j <= target.fields.len(),
            batch@.well_formed(),
            step == aligned_column(batch@, target@),
            collected(known_column(batch@, target@), batch@.columns.len()) is Ok,
            collected(step, j as nat) == Ok::<Seq<ColumnView>, AlignFailure>(column_views(columns@)),
            columns@.len() == j,
            forall|k: int|
                0 <= k < columns.len() ==> (#[trigger] column_views(columns@)[k]).cells.len()
                    == batch@.rows,
        decreases target.fields.len() - j,
    {
        let field = &target.fields[j];
        assert(target@.fields[j as int] == field@);
        let found = batch.index_of(field.name.as_str());
        let next = match found {
            Some(index) => {
                assert(batch@.columns[index as int].cells.len() == batch@.rows);
                if batch.columns[index].data_type == field.data_type {
                    let column = Column {
                        name: batch.columns[index].name.clone(),
                        data_type: batch.columns[index].data_type,
                        cells: copy_cells(&batch.columns[index].cells),
                    };
                    assert(column@ =~= batch@.columns[index as int]);
                    Ok(column)
                } else {
                    Err(
                        AlignError::TypeMismatch {
                            column: field.name.clone(),
                            found: batch.columns[index].data_type,
                            expected: field.data_type,
                        },
                    )
                }
            },
            None => if field.nullable {
                let column = Column {
                    name: field.name.clone(),
                    data_type: field.data_type,
                    cells: null_cells(batch.rows),
                };
                assert(column@ =~= null_column(field@, batch@.rows));
                Ok(column)
            } else {
                Err(AlignError::MissingColumn(field.name.clone()))
            },
        };
        match next {
            Ok(column) => {
                let ghost before = columns@;
                assert(step(j as int) == Ok::<ColumnView, AlignFailure>(column@));
                columns.push(column);
                proof {
                    assert(column_views(columns@) =~= column_views(before).push(column@));
                    assert forall|k: int| 0 <= k < columns.len() implies (#[trigger] column_views(
                        columns@,
                    )[k]).cells.len() == batch@.rows by {
                        if k < before.len() {
                            assert(column_views(columns@)[k] == column_views(before)[k]);
                        }
                    }
                }
            },
            Err(error) => {
                proof {
                    assert(step(j as int) == Err::<ColumnView, AlignFailure>(error@));
                    assert(collected(step, (j + 1) as nat) is Err);
                    lemma_failure_stays(step, (j + 1) as nat, target@.fields.len());
                }
                return Err(error);
            },
        }
        j = j + 1;
    }
    match check_fit(&columns, target) {
        Err(error) => {
            return Err(AlignError::Unfit(error));
        },
        Ok(_) => {},
    }
    Ok(Batch { columns, rows: batch.rows })
}

/// A batch that already has a table's columns, each once and as the table takes
/// it, is left as it is.
pub proof fn law_alignment_keeps_a_fitting_batch(batch: BatchView, target: SchemaView)
    requires
        batch.columns.len() == target.fields.len(),
        forall|i: int|
            0 <= i < batch.columns.len() ==> (#[trigger] batch.columns[i]).name
                == target.fields[i].name,
        fit_failure(batch.columns, target.fields) is None,
        column_names(batch.columns).no_duplicates(),
    ensures
        aligned(batch, target) == Ok::<BatchView, AlignFailure>(batch),
{
    let names = column_names(batch.columns);
    assert(names =~= names_of(target.fields));
    let known = known_column(batch, target);
    assert forall|i: int| 0 <= i < batch.columns.len() implies #[trigger] known(i) == Ok::<
        (),
        AlignFailure,
    >(Seq::new(batch.columns.len(), |k: int| ())[i]) by {
        assert(first_occurrence(names, i));
        lemma_find_name_is(names, names[i], i);
        assert(batch.columns[i].name == names[i]);
    }
    crate::collect::lemma_all_succeed(
        known,
        batch.columns.len(),
        Seq::new(batch.columns.len(), |k: int| ()),
    );
    let step = aligned_column(batch, target);
    assert forall|j: int| 0 <= j < target.fields.len() implies #[trigger] step(j) == Ok::<
        ColumnView,
        AlignFailure,
    >(batch.columns[j]) by {
        assert(first_occurrence(names, j));
        lemma_find_name_is(names, names[j], j);
        assert(batch.columns[j].name == target.fields[j].name);
        lemma_fitting_columns(batch.columns, target.fields, j);
    }
    crate::collect::lemma_all_succeed(step, target.fields.len(), batch.columns);
}

spec fn first_occurrence(names: Seq<Seq<char>>, index: int) -> bool {
    crate::schema::first_at(names, names[index], index)
}

/// An aligned batch has exactly the table's columns, by name and type and in
/// order, with nulls only where the table takes them, and as many rows as
/// before.
pub proof fn law_alignment_gives_the_table_columns(batch: BatchView, target: SchemaView)
    requires
        aligned(batch, target) is Ok,
    ensures
        aligned(batch, target)->Ok_0.rows == batch.rows,
        aligned(batch, target)->Ok_0.columns.len() == target.fields.len(),
        forall|j: int|
            0 <= j < target.fields.len() ==> {
                let column = #[trigger] aligned(batch, target)->Ok_0.columns[j];
                column.name == target.fields[j].name && column.data_type
                    == target.fields[j].data_type && (target.fields[j].nullable || !has_null(
                    column,
                ))
            },
{
    let step = aligned_column(batch, target);
    crate::collect::lemma_success_holds_values(step, target.fields.len());
    assert forall|j: int| 0 <= j < target.fields.len() implies {
        let column = #[trigger] aligned(batch, target)->Ok_0.columns[j];
        column.name == target.fields[j].name && column.data_type == target.fields[j].data_type && (
        target.fields[j].nullable || !has_null(column))
    } by {
        lemma_fitting_columns(aligned(batch, target)->Ok_0.columns, target.fields, j);
        assert(step(j) == Ok::<ColumnView, AlignFailure>(aligned(batch, target)->Ok_0.columns[j]));
        let name = target.fields[j].name;
        let names = column_names(batch.columns);
        if batch.find(name) is Some {
            let index = batch.find(name)->Some_0;
            crate::schema::lemma_find_name(names, name);
            assert(crate::schema::first_at(names, name, index));
            assert(names[index] == batch.columns[index].name);
        }
    }
}

/// A cell holds a value or is null, and gives back that value to a reader of its
/// kind and nothing to any other.
pub proof fn law_a_cell_holds_one_value(
    cell: CellView,
    text: Seq<char>,
    number: i64,
    small: i32,
    bits: u32,
    double: u64,
    flag: bool,
    bytes: Seq<u8>,
)
    ensures
        cell_text(cell) == Some(text) <==> cell == CellView::Text(text),
        cell_int(cell) == Some(number) <==> cell == CellView::Int(number),
        cell_unsigned(cell) == Some(double) <==> cell == CellView::Unsigned(double),
        cell_int32(cell) == Some(small) <==> cell == CellView::Int(small as i64),
        cell_float(cell) == Some(bits) <==> cell == CellView::Float32(bits),
        cell_double(cell) == Some(double) <==> cell == CellView::Float64(double),
        cell_flag(cell) == Some(flag) <==> cell == CellView::Flag(flag),
        cell_bytes(cell) == Some(bytes) <==> cell == CellView::Bytes(bytes),
        text_cell(Some(text)) == CellView::Text(text),
        int_cell(Some(number)) == CellView::Int(number),
        int32_cell(Some(small)) == CellView::Int(small as i64),
        float_cell(Some(bits)) == CellView::Float32(bits),
        flag_cell(Some(flag)) == CellView::Flag(flag),
        bytes_cell(Some(bytes)) == CellView::Bytes(bytes),
        text_cell(None) == CellView::Null,
        int_cell(None) == CellView::Null,
        int32_cell(None) == CellView::Null,
        float_cell(None) == CellView::Null,
        flag_cell(None) == CellView::Null,
        bytes_cell(None) == CellView::Null,
{
}

/// The same of a cell with a list.
pub proof fn law_a_cell_holds_one_list(
    cell: CellView,
    floats: Seq<u32>,
    numbers: Seq<i32>,
    small: Seq<i8>,
    state: StateView,
)
    ensures
        cell_floats(cell) == Some(floats) <==> cell == CellView::Floats(floats),
        cell_ints32(cell) == Some(numbers) <==> cell == CellView::Ints32(numbers),
        cell_ints8(cell) == Some(small) <==> cell == CellView::Ints8(small),
        cell_state(cell) == Some(state) <==> cell == CellView::State(state),
        floats_cell(Some(floats)) == CellView::Floats(floats),
        ints32_cell(Some(numbers)) == CellView::Ints32(numbers),
        ints8_cell(Some(small)) == CellView::Ints8(small),
        floats_cell(None) == CellView::Null,
        ints32_cell(None) == CellView::Null,
        ints8_cell(None) == CellView::Null,
{
}

/// Columns are a batch of a table exactly where the table has columns at all,
/// each has the type of the table's, and none has a null that the table does not
/// take.
pub proof fn law_when_columns_fit(columns: Seq<ColumnView>, fields: Seq<FieldView>)
    requires
        columns.len() == fields.len(),
    ensures
        fit_failure(columns, fields) is None <==> {
            &&& fields.len() > 0
            &&& forall|j: int|
                0 <= j < fields.len() ==> (#[trigger] columns[j]).data_type == fields[j].data_type
            &&& forall|j: int, i: int|
                0 <= j < fields.len() && 0 <= i < (#[trigger] columns[j]).cells.len()
                    && !fields[j].nullable ==> #[trigger] columns[j].cells[i] != CellView::Null
        },
{
    if fields.len() > 0 {
        let nulls = null_check(columns, fields);
        let types = type_check(columns, fields);
        if fit_failure(columns, fields) is None {
            crate::collect::lemma_success_holds_values(nulls, fields.len());
            crate::collect::lemma_success_holds_values(types, fields.len());
            assert forall|j: int| 0 <= j < fields.len() implies (#[trigger] columns[j]).data_type
                == fields[j].data_type by {
                assert(types(j) is Ok);
            }
            assert forall|j: int, i: int|
                0 <= j < fields.len() && 0 <= i < (#[trigger] columns[j]).cells.len()
                    && !fields[j].nullable implies #[trigger] columns[j].cells[i] != CellView::Null by {
                assert(nulls(j) is Ok);
            }
        } else if collected(nulls, fields.len()) is Err {
            let at = crate::collect::lemma_first_failure(nulls, fields.len());
            assert(has_null(columns[at]));
            let i = choose|i: int|
                0 <= i < columns[at].cells.len() && #[trigger] columns[at].cells[i]
                    == CellView::Null;
            assert(columns[at].cells[i] == CellView::Null);
        } else {
            let at = crate::collect::lemma_first_failure(types, fields.len());
            assert(columns[at].data_type != fields[at].data_type);
        }
    }
}

/// A dictionary counts each text once, and takes up to 128 of them.
pub proof fn law_a_dictionary_counts_each_text_once(texts: Seq<Seq<char>>, count: nat)
    requires
        count <= texts.len(),
    ensures
        distinct_count(texts, count) == texts.take(count as int).to_set().len(),
        texts.take(count as int).to_set().finite(),
        count > 0 ==> (dictionary_check(texts, count - 1) is None <==> texts.take(
            count as int,
        ).to_set().len() <= 128),
    decreases count,
{
    let all = texts.take(count as int);
    if count == 0 {
        assert(all.to_set() =~= Set::<Seq<char>>::empty());
    } else {
        let earlier = texts.take(count - 1);
        let last = texts[count - 1];
        law_a_dictionary_counts_each_text_once(texts, (count - 1) as nat);
        assert(all =~= earlier.push(last));
        assert forall|text: Seq<char>| #[trigger] all.to_set().contains(text)
            == earlier.to_set().insert(
            last,
        ).contains(text) by {
            assert(earlier.push(last).contains(text) == (earlier.contains(text)
                || text == last)) by {
                if earlier.contains(text) {
                    let at = earlier.index_of(text);
                    assert(earlier.push(last)[at] == text);
                }
                assert(earlier.push(last)[count - 1] == last);
                if earlier.push(last).contains(text) && text != last {
                    let at = earlier.push(last).index_of(text);
                    assert(earlier[at] == text);
                }
            }
        }
        assert(all.to_set() =~= earlier.to_set().insert(last));
    }
}

/// Alignment finds a column by its name: the table's column holds what the first
/// column of that name holds, or nulls where there is none. It fails where a
/// column is not the table's.
pub proof fn law_alignment_goes_by_name(batch: BatchView, target: SchemaView, at: int, place: int)
    requires
        aligned(batch, target) is Ok,
        0 <= at < batch.columns.len(),
        0 <= place < target.fields.len(),
    ensures
        target.has(batch.columns[at].name),
        crate::schema::first_at(column_names(batch.columns), target.fields[place].name, at)
            ==> aligned(batch, target)->Ok_0.columns[place] == batch.columns[at],
        (forall|i: int|
            0 <= i < batch.columns.len() ==> (#[trigger] batch.columns[i]).name
                != target.fields[place].name) ==> {
            let column = aligned(batch, target)->Ok_0.columns[place];
            &&& target.fields[place].nullable
            &&& column.cells.len() == batch.rows
            &&& forall|i: int| 0 <= i < batch.rows ==> #[trigger] column.cells[i] == CellView::Null
        },
{
    let known = known_column(batch, target);
    crate::collect::lemma_success_holds_values(known, batch.columns.len());
    assert(known(at) is Ok);
    let step = aligned_column(batch, target);
    crate::collect::lemma_success_holds_values(step, target.fields.len());
    assert(step(place) is Ok);
    let names = column_names(batch.columns);
    let name = target.fields[place].name;
    if crate::schema::first_at(names, name, at) {
        lemma_find_name_is(names, name, at);
    }
    if forall|i: int| 0 <= i < batch.columns.len() ==> (#[trigger] batch.columns[i]).name != name {
        assert forall|j: int| 0 <= j < names.len() implies #[trigger] names[j] != name by {
            assert(batch.columns[j].name != name);
        }
        crate::schema::lemma_find_name_none(names, name);
    }
}

/// The model of a link holds each of its parts.
pub proof fn law_a_links_model_is_whole(link: LinkCell)
    ensures
        link@.target_id is Some <==> link.target_id is Some,
        link.target_id is Some ==> link@.target_id->Some_0 == link.target_id->Some_0@,
        link@.relation is Some <==> link.relation is Some,
        link.relation is Some ==> link@.relation->Some_0 == link.relation->Some_0@,
        link@.weight == link.weight,
{
}

/// The model of a cell holds its variant and what it carries.
pub proof fn law_a_cells_model_is_whole(cell: Cell)
    ensures
        cell == Cell::Null ==> cell@ == CellView::Null,
        cell matches Cell::Text(text) ==> cell@ == CellView::Text(text@),
        cell matches Cell::Int(value) ==> cell@ == CellView::Int(value),
        cell matches Cell::Unsigned(value) ==> cell@ == CellView::Unsigned(value),
        cell matches Cell::Float32(bits) ==> cell@ == CellView::Float32(bits),
        cell matches Cell::Float64(bits) ==> cell@ == CellView::Float64(bits),
        cell matches Cell::Flag(flag) ==> cell@ == CellView::Flag(flag),
        cell matches Cell::Bytes(bytes) ==> cell@ == CellView::Bytes(bytes@),
        cell matches Cell::Ints32(items) ==> cell@ == CellView::Ints32(items@),
        cell matches Cell::Ints8(items) ==> cell@ == CellView::Ints8(items@),
        cell matches Cell::Floats(items) ==> cell@ == CellView::Floats(items@),
        cell matches Cell::Links(links) ==> cell@ == CellView::Links(link_views(links@)),
        cell matches Cell::State(state) ==> cell@ == CellView::State(state@),
{
}

/// The model of a column holds each of its parts.
pub proof fn law_a_columns_model_is_whole(column: Column)
    ensures
        column@.name == column.name@,
        column@.data_type == column.data_type,
        column@.cells == cell_views(column.cells@),
{
}

/// The model of a batch holds each of its parts.
pub proof fn law_a_batches_model_is_whole(batch: Batch)
    ensures
        batch@.columns == column_views(batch.columns@),
        batch@.rows == batch.rows,
{
}

/// The model of a fit error holds its variant and what it carries.
pub proof fn law_a_fit_errors_model_is_whole(error: FitError)
    ensures
        error == FitError::NoColumns ==> error@ == FitFailure::NoColumns,
        error matches FitError::Nulls(name) ==> error@ == FitFailure::Nulls(name@),
        error matches FitError::TypeMismatch { index, expected, found }
            ==> error@ == FitFailure::TypeMismatch(index as int, expected, found),
{
}

/// The model of an encode error holds its variant and what it carries.
pub proof fn law_an_encode_errors_model_is_whole(error: EncodeError)
    ensures
        error matches EncodeError::Refused(inner) ==> error@ == EncodeFailure::Refused(inner@),
        error matches EncodeError::Unfit(inner) ==> error@ == EncodeFailure::Unfit(inner@),
{
}

/// The model of an align error holds its variant and what it carries.
pub proof fn law_an_align_errors_model_is_whole(error: AlignError)
    ensures
        error matches AlignError::UnknownColumn(name)
            ==> error@ == AlignFailure::UnknownColumn(name@),
        error matches AlignError::TypeMismatch { column, found, expected }
            ==> error@ == AlignFailure::TypeMismatch(column@, found, expected),
        error matches AlignError::MissingColumn(name)
            ==> error@ == AlignFailure::MissingColumn(name@),
        error matches AlignError::Unfit(inner) ==> error@ == AlignFailure::Unfit(inner@),
{
}

/// The models stand in the order of what they are of, one for each.
pub proof fn law_cell_views_stand_in_order(cells: Seq<Cell>, at: int)
    requires
        0 <= at < cells.len(),
    ensures
        cell_views(cells).len() == cells.len(),
        cell_views(cells)[at] == cells[at]@,
{
}

/// The models stand in the order of what they are of, one for each.
pub proof fn law_column_views_stand_in_order(columns: Seq<Column>, at: int)
    requires
        0 <= at < columns.len(),
    ensures
        column_views(columns).len() == columns.len(),
        column_views(columns)[at] == columns[at]@,
{
}

/// The models of links stand in their order, and a null stays one.
pub proof fn law_link_views_stand_in_order(links: Seq<Option<LinkCell>>, at: int)
    requires
        0 <= at < links.len(),
    ensures
        link_views(links).len() == links.len(),
        links[at] is None ==> link_views(links)[at] is None,
        links[at] matches Some(link) ==> link_views(links)[at] == Some(link@),
{
}

/// When a batch can be brought to a table: exactly where the table has columns,
/// every column of the batch is one of them, and each of the table's columns is in
/// the batch with its type, and without nulls where it takes none, or is not in
/// the batch and takes nulls.
pub proof fn law_when_a_batch_aligns(batch: BatchView, target: SchemaView)
    ensures
        aligned(batch, target) is Ok <==> {
            &&& target.fields.len() > 0
            &&& forall|i: int|
                0 <= i < batch.columns.len() ==> target.has((#[trigger] batch.columns[i]).name)
            &&& forall|j: int|
                0 <= j < target.fields.len() ==> fits_field(batch, #[trigger] target.fields[j])
        },
{
    let known = known_column(batch, target);
    let step = aligned_column(batch, target);
    let count = target.fields.len();
    if aligned(batch, target) is Ok {
        crate::collect::lemma_success_holds_values(known, batch.columns.len());
        assert forall|i: int| 0 <= i < batch.columns.len() implies target.has(
            (#[trigger] batch.columns[i]).name,
        ) by {
            assert(known(i) is Ok);
        }
        crate::collect::lemma_success_holds_values(step, count);
        assert forall|j: int| 0 <= j < count implies fits_field(
            batch,
            #[trigger] target.fields[j],
        ) by {
            assert(step(j) is Ok);
            lemma_fitting_columns(aligned(batch, target)->Ok_0.columns, target.fields, j);
        }
    } else if collected(known, batch.columns.len()) is Err {
        let at = crate::collect::lemma_first_failure(known, batch.columns.len());
        assert(!target.has(batch.columns[at].name));
    } else if collected(step, count) is Err {
        let at = crate::collect::lemma_first_failure(step, count);
        assert(!fits_field(batch, target.fields[at]));
    } else {
        crate::collect::lemma_success_holds_values(step, count);
        let columns = collected(step, count)->Ok_0;
        law_when_columns_fit(columns, target.fields);
        if target.fields.len() > 0 {
            assert forall|j: int| 0 <= j < count implies (#[trigger] columns[j]).data_type
                == target.fields[j].data_type by {
                assert(step(j) is Ok);
            }
            let (j, i) = choose|j: int, i: int|
                0 <= j < count && 0 <= i < (#[trigger] columns[j]).cells.len()
                    && !target.fields[j].nullable && #[trigger] columns[j].cells[i]
                    == CellView::Null;
            assert(step(j) is Ok);
            assert(has_null(columns[j]));
            assert(!fits_field(batch, target.fields[j]));
        }
    }
}

/// A batch has what a field needs: a column of its name and type, without nulls
/// where the field takes none, or no such column where it takes them.
pub open spec fn fits_field(batch: BatchView, field: FieldView) -> bool {
    match batch.find(field.name) {
        Some(at) => {
            &&& batch.columns[at].data_type == field.data_type
            &&& field.nullable || !has_null(batch.columns[at])
        },
        None => field.nullable,
    }
}

/// A scan finds the columns that it asked for, as they are, and no other.
pub proof fn law_a_scan_finds_what_it_asked_for(
    batch: BatchView,
    names: Seq<Seq<char>>,
    name: Seq<char>,
)
    requires
        forall|i: int| 0 <= i < names.len() ==> batch.find(#[trigger] names[i]) is Some,
    ensures
        names.contains(name) ==> {
            let found = scanned(batch, names).find(name);
            &&& found is Some
            &&& 0 <= found->Some_0 < names.len()
            &&& scanned(batch, names).columns[found->Some_0] == batch.columns[batch.find(
                name,
            )->Some_0]
        },
        !names.contains(name) ==> scanned(batch, names).find(name) is None,
        scanned(batch, names).rows == batch.rows,
{
    let columns = scanned(batch, names).columns;
    assert forall|i: int| 0 <= i < names.len() implies #[trigger] column_names(columns)[i]
        == names[i] by {
        assert(batch.find(names[i]) is Some);
        crate::schema::lemma_find_name(column_names(batch.columns), names[i]);
    }
    assert(column_names(columns) =~= names);
    if names.contains(name) {
        let at = names.index_of(name);
        crate::schema::lemma_find_name_exists(names, name, at);
    } else {
        crate::schema::lemma_find_name_none(names, name);
    }
}

/// Each type of column reads as at most one kind; the kinds of one scalar type
/// read that type only, and times read with a time zone and without.
pub proof fn law_a_type_reads_as_its_kind(data_type: DataType, first: ArrayKind, second: ArrayKind)
    ensures
        reads_as(data_type, first) && reads_as(data_type, second) ==> first == second,
        reads_as(DataType::Scalar(Scalar::Utf8), ArrayKind::Text),
        reads_as(DataType::Scalar(Scalar::LargeUtf8), ArrayKind::LargeText),
        reads_as(DataType::Scalar(Scalar::LargeBinary), ArrayKind::LargeBinary),
        reads_as(DataType::Scalar(Scalar::Boolean), ArrayKind::Boolean),
        reads_as(DataType::Scalar(Scalar::Int32), ArrayKind::Int32),
        reads_as(DataType::Scalar(Scalar::Int64), ArrayKind::Int64),
        reads_as(DataType::Scalar(Scalar::UInt64), ArrayKind::UInt64),
        reads_as(DataType::Scalar(Scalar::Float32), ArrayKind::Float32),
        reads_as(DataType::Scalar(Scalar::Float64), ArrayKind::Float64),
        reads_as(DataType::Scalar(Scalar::Timestamp), ArrayKind::Timestamp),
        reads_as(DataType::Scalar(Scalar::TimestampUtc), ArrayKind::Timestamp),
        reads_as(data_type, ArrayKind::Dictionary) <==> (data_type matches DataType::Dictionary(
            key,
            _,
        ) && key == Scalar::Int8),
        reads_as(data_type, ArrayKind::Struct) <==> data_type is Struct,
        reads_as(data_type, ArrayKind::List) <==> data_type is List,
        reads_as(data_type, ArrayKind::FixedSizeList) <==> data_type is FixedSizeList,
{
}

/// A column that is needed is found exactly where one of its name is there and its
/// type reads as asked; one that may be missing is passed over otherwise.
pub proof fn law_a_column_is_found_by_name_and_type(
    batch: BatchView,
    name: Seq<char>,
    kind: ArrayKind,
    at: int,
)
    requires
        crate::schema::first_at(column_names(batch.columns), name, at),
    ensures
        reads_as(batch.columns[at].data_type, kind) ==> required_column(batch, name, kind) == Ok::<
            int,
            Failure,
        >(at) && optional_column(batch, name, kind) == Some(at),
        !reads_as(batch.columns[at].data_type, kind) ==> required_column(batch, name, kind) is Err
            && optional_column(batch, name, kind) is None,
{
    lemma_find_name_is(column_names(batch.columns), name, at);
}

/// A batch is well formed where each column has one cell for each row.
pub proof fn law_a_batch_has_one_cell_for_each_row(
    batch: BatchView,
    at: int,
    index: Option<usize>,
    row: int,
)
    requires
        0 <= at < batch.columns.len(),
    ensures
        batch.well_formed() ==> batch.columns[at].cells.len() == batch.rows,
        (forall|i: int|
            0 <= i < batch.columns.len()
                ==> (#[trigger] batch.columns[i]).cells.len() == batch.rows)
            ==> batch.well_formed(),
        opt_index(index) is Some <==> index is Some,
        index is Some ==> opt_index(index)->Some_0 == index->Some_0,
        valid_index(batch, index) <==> (index is Some ==> index->Some_0 < batch.columns.len()),
        cell_at(batch, Some(at), row) == batch.columns[at].cells[row],
        cell_at(batch, None, row) == CellView::Null,
{
}

/// What is reported of columns that are no batch of a table: where the fault is,
/// in words that name the column or its place.
pub proof fn law_what_is_reported_of_columns(
    name: Seq<char>,
    at: int,
    expected: Seq<char>,
    found: Seq<char>,
    first: DataType,
    second: DataType,
)
    ensures
        fit_report(FitFailure::NoColumns, expected, found).message
            == "must either specify a row count or at least one column"@,
        fit_report(FitFailure::Nulls(name), expected, found).message == "Column '"@ + name
            + "' is declared as non-nullable but contains null values"@,
        fit_report(FitFailure::TypeMismatch(at, first, second), expected, found).message
            == "column types must match schema types, expected "@ + expected + " but found "@ + found
            + " at column index "@ + decimal(at),
        align_report(AlignFailure::UnknownColumn(name), found, expected).message
            == "WAL generation column '"@ + name + "' does not exist in the base table schema"@,
        align_report(AlignFailure::TypeMismatch(name, first, second), found, expected).message
            == "WAL generation column '"@ + name + "' has type "@ + found + ", expected "@ + expected,
        align_report(AlignFailure::MissingColumn(name), found, expected).message
            == "required base table column '"@ + name + "' is missing from the WAL generation"@,
        align_report(AlignFailure::Unfit(FitFailure::Nulls(name)), found, expected) == fit_report(
            FitFailure::Nulls(name),
            expected,
            found,
        ),
        encode_report(EncodeFailure::Unfit(FitFailure::Nulls(name)), expected, found) == fit_report(
            FitFailure::Nulls(name),
            expected,
            found,
        ),
        encode_report(EncodeFailure::Refused(invalid_argument(name)), expected, found)
            == invalid_argument(name),
{
}

} // verus!
