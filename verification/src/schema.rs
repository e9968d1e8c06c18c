//! Column types, and rows held to them.
//!
//! A text frame says nothing of the width of its numbers, so its rows are
//! read with every integer in the narrowest variant that holds it. A reader
//! that knows the columns of a table holds the rows to them here: each value
//! must be of the kind of its column, and an integer must fit the width and
//! sign of its column, in which it then stands.

use vstd::prelude::*;
use crate::errors::DecodeError;
use crate::messages::{values_view, TypeValue, TypeValueView};

verus! {

/// The type of one column.
#[derive(Debug, Clone, Copy, PartialEq, Eq, Structural)]
pub enum ColumnType {
    Bool,
    I8,
    U8,
    I16,
    U16,
    I32,
    U32,
    I64,
    U64,
    String,
    Bytes,
}

impl ColumnType {
    /// The least and the greatest number of an integer column.
    pub open spec fn range(self) -> Option<(int, int)> {
        match self {
            ColumnType::I8 => Some((i8::MIN as int, i8::MAX as int)),
            ColumnType::U8 => Some((0, u8::MAX as int)),
            ColumnType::I16 => Some((i16::MIN as int, i16::MAX as int)),
            ColumnType::U16 => Some((0, u16::MAX as int)),
            ColumnType::I32 => Some((i32::MIN as int, i32::MAX as int)),
            ColumnType::U32 => Some((0, u32::MAX as int)),
            ColumnType::I64 => Some((i64::MIN as int, i64::MAX as int)),
            ColumnType::U64 => Some((0, u64::MAX as int)),
            _ => None,
        }
    }

    /// The value of an integer column that holds `n`.
    pub open spec fn integer(self, n: int) -> TypeValueView {
        match self {
            ColumnType::I8 => TypeValueView::I8(n as i8),
            ColumnType::U8 => TypeValueView::U8(n as u8),
            ColumnType::I16 => TypeValueView::I16(n as i16),
            ColumnType::U16 => TypeValueView::U16(n as u16),
            ColumnType::I32 => TypeValueView::I32(n as i32),
            ColumnType::U32 => TypeValueView::U32(n as u32),
            ColumnType::I64 => TypeValueView::I64(n as i64),
            _ => TypeValueView::U64(n as u64),
        }
    }
}

impl TypeValueView {
    /// The column type whose values have this variant.
    pub open spec fn column_type(self) -> ColumnType {
        match self {
            TypeValueView::Bool(_) => ColumnType::Bool,
            TypeValueView::I8(_) => ColumnType::I8,
            TypeValueView::U8(_) => ColumnType::U8,
            TypeValueView::I16(_) => ColumnType::I16,
            TypeValueView::U16(_) => ColumnType::U16,
            TypeValueView::I32(_) => ColumnType::I32,
            TypeValueView::U32(_) => ColumnType::U32,
            TypeValueView::I64(_) => ColumnType::I64,
            TypeValueView::U64(_) => ColumnType::U64,
            TypeValueView::String(_) => ColumnType::String,
            TypeValueView::Bytes(_) => ColumnType::Bytes,
        }
    }

    /// This value as a value of a column of type `ty`: an integer moves to
    /// the variant of the column where the column holds its number; any
    /// other value must be of the column's type already.
    pub open spec fn typed(self, ty: ColumnType) -> Result<TypeValueView, DecodeError> {
        match (self.integer(), ty.range()) {
            (Some(n), Some((low, high))) => if low <= n <= high {
                Ok(ty.integer(n))
            } else {
                Err(DecodeError::TypeMismatch)
            },
            (None, None) => if self.column_type() == ty {
                Ok(self)
            } else {
                Err(DecodeError::TypeMismatch)
            },
            _ => Err(DecodeError::TypeMismatch),
        }
    }
}

/// The values of a row as values of the first columns, as many as the row
/// has values; the first value that does not fit its column decides.
pub open spec fn typed_values(row: Seq<TypeValueView>, columns: Seq<ColumnType>) -> Result<
    Seq<TypeValueView>,
    DecodeError,
>
    recommends
        row.len() <= columns.len(),
    decreases row.len(),
{
    if row.len() == 0 {
        Ok(Seq::empty())
    } else {
        match typed_values(row.drop_last(), columns) {
            Err(e) => Err(e),
            Ok(head) => match row.last().typed(columns[row.len() - 1]) {
                Err(e) => Err(e),
                Ok(v) => Ok(head.push(v)),
            },
        }
    }
}

/// A row held to the columns of its table: it must have one value for each
/// column, and each value must fit its column.
pub open spec fn typed_row(row: Seq<TypeValueView>, columns: Seq<ColumnType>) -> Result<
    Seq<TypeValueView>,
    DecodeError,
> {
    if row.len() != columns.len() {
        Err(DecodeError::ColumnCount)
    } else {
        typed_values(row, columns)
    }
}

proof fn lemma_typed_values_prefix(row: Seq<TypeValueView>, columns: Seq<ColumnType>, n: int)
    requires
        0 <= n <= row.len(),
        typed_values(row.take(n), columns) is Err,
    ensures
        typed_values(row, columns) == typed_values(row.take(n), columns),
    decreases row.len() - n,
{
    if n == row.len() {
        assert(row.take(n) =~= row);
    } else {
        assert(row.take(n + 1).drop_last() =~= row.take(n));
        lemma_typed_values_prefix(row, columns, n + 1);
    }
}

/// A row that was held to its columns has the types of its columns, holds
/// the same numbers as before, and is unchanged by being held to them again.
pub proof fn lemma_typed_row(row: Seq<TypeValueView>, columns: Seq<ColumnType>)
    requires
        typed_row(row, columns) is Ok,
    ensures
        ({
            let typed = typed_row(row, columns)->Ok_0;
            &&& typed.len() == columns.len()
            &&& forall|i: int|
                0 <= i < typed.len() ==> (#[trigger] typed[i]).column_type() == columns[i]
            &&& forall|i: int| 0 <= i < typed.len() ==> (#[trigger] typed[i]).integer() == row[i].integer()
            &&& forall|i: int|
                0 <= i < typed.len() && row[i].integer() is None ==> #[trigger] typed[i] == row[i]
            &&& typed_row(typed, columns) == Ok::<Seq<TypeValueView>, DecodeError>(typed)
        }),
{
    lemma_typed_values(row, columns);
}

proof fn lemma_typed_values(row: Seq<TypeValueView>, columns: Seq<ColumnType>)
    requires
        row.len() <= columns.len(),
        typed_values(row, columns) is Ok,
    ensures
        ({
            let typed = typed_values(row, columns)->Ok_0;
            &&& typed.len() == row.len()
            &&& forall|i: int|
                0 <= i < typed.len() ==> (#[trigger] typed[i]).column_type() == columns[i]
            &&& forall|i: int| 0 <= i < typed.len() ==> (#[trigger] typed[i]).integer() == row[i].integer()
            &&& forall|i: int|
                0 <= i < typed.len() && row[i].integer() is None ==> #[trigger] typed[i] == row[i]
            &&& typed_values(typed, columns) == Ok::<Seq<TypeValueView>, DecodeError>(typed)
        }),
    decreases row.len(),
{
    if row.len() > 0 {
        lemma_typed_values(row.drop_last(), columns);
        let head = typed_values(row.drop_last(), columns)->Ok_0;
        let typed = typed_values(row, columns)->Ok_0;
        assert(typed.drop_last() =~= head);
    }
}

impl TypeValue {
    /// The column type whose values have this variant.
    pub fn column_type(&self) -> (r: ColumnType)
        ensures
            r == self@.column_type(),
    {
        match self {
            TypeValue::Bool(_) => ColumnType::Bool,
            TypeValue::I8(_) => ColumnType::I8,
            TypeValue::U8(_) => ColumnType::U8,
            TypeValue::I16(_) => ColumnType::I16,
            TypeValue::U16(_) => ColumnType::U16,
            TypeValue::I32(_) => ColumnType::I32,
            TypeValue::U32(_) => ColumnType::U32,
            TypeValue::I64(_) => ColumnType::I64,
            TypeValue::U64(_) => ColumnType::U64,
            TypeValue::String(_) => ColumnType::String,
            TypeValue::Bytes(_) => ColumnType::Bytes,
        }
    }

    /// This value as a value of a column of type `ty`.
    pub fn typed(&self, ty: ColumnType) -> (r: Result<TypeValue, DecodeError>)
        ensures
            match r {
                Ok(v) => self@.typed(ty) == Ok::<TypeValueView, DecodeError>(v@),
                Err(e) => self@.typed(ty) == Err::<TypeValueView, DecodeError>(e),
            },
    {
        match self.as_integer() {
            Some(n) => match ty {
                ColumnType::I8 => if -128 <= n && n <= 127 {
                    Ok(TypeValue::I8(n as i8))
                } else {
                    Err(DecodeError::TypeMismatch)
                },
                ColumnType::U8 => if 0 <= n && n <= 255 {
                    Ok(TypeValue::U8(n as u8))
                } else {
                    Err(DecodeError::TypeMismatch)
                },
                ColumnType::I16 => if -32768 <= n && n <= 32767 {
                    Ok(TypeValue::I16(n as i16))
                } else {
                    Err(DecodeError::TypeMismatch)
                },
                ColumnType::U16 => if 0 <= n && n <= 65535 {
                    Ok(TypeValue::U16(n as u16))
                } else {
                    Err(DecodeError::TypeMismatch)
                },
                ColumnType::I32 => if -2147483648 <= n && n <= 2147483647 {
                    Ok(TypeValue::I32(n as i32))
                } else {
                    Err(DecodeError::TypeMismatch)
                },
                ColumnType::U32 => if 0 <= n && n <= 4294967295 {
                    Ok(TypeValue::U32(n as u32))
                } else {
                    Err(DecodeError::TypeMismatch)
                },
                ColumnType::I64 => if -9223372036854775808 <= n && n <= 9223372036854775807 {
                    Ok(TypeValue::I64(n as i64))
                } else {
                    Err(DecodeError::TypeMismatch)
                },
                ColumnType::U64 => if 0 <= n && n <= 18446744073709551615 {
                    Ok(TypeValue::U64(n as u64))
                } else {
                    Err(DecodeError::TypeMismatch)
                },
                _ => Err(DecodeError::TypeMismatch),
            },
            None => match (self, ty) {
                (TypeValue::Bool(b), ColumnType::Bool) => Ok(TypeValue::Bool(*b)),
                (TypeValue::String(s), ColumnType::String) => Ok(TypeValue::String(s.clone())),
                (TypeValue::Bytes(b), ColumnType::Bytes) => Ok(TypeValue::Bytes(b.clone())),
                _ => Err(DecodeError::TypeMismatch),
            },
        }
    }
}

/// Holds a row to the columns of its table.
pub fn type_row(row: &Vec<TypeValue>, columns: &Vec<ColumnType>) -> (r: Result<
    Vec<TypeValue>,
    DecodeError,
>)
    ensures
        match r {
            Ok(typed) => typed_row(values_view(row@), columns@) == Ok::<
                Seq<TypeValueView>,
                DecodeError,
            >(values_view(typed@)),
            Err(e) => typed_row(values_view(row@), columns@) == Err::<
                Seq<TypeValueView>,
                DecodeError,
            >(e),
        },
{
    if row.len() != columns.len() {
        return Err(DecodeError::ColumnCount);
    }
    let ghost views = values_view(row@);
    let mut out: Vec<TypeValue> = Vec::new();
    let mut i: usize = 0;
    assert(views.take(0) =~= Seq::empty());
    assert(values_view(out@) =~= Seq::empty());
    while i < row.len()
        invariant
            i <= row.len(),
            row.len() == columns.len(),
            views == values_view(row@),
            typed_values(views.take(i as int), columns@) == Ok::<Seq<TypeValueView>, DecodeError>(
                values_view(out@),
            ),
        decreases row.len() - i,
    {
        let ghost before = out@;
        assert(views.take(i + 1).drop_last() =~= views.take(i as int));
        assert(views.take(i + 1).last() == row[i as int]@);
        match row[i].typed(columns[i]) {
            Ok(v) => {
                out.push(v);
                assert(values_view(out@) =~= values_view(before).push(v@));
            },
            Err(e) => {
                proof {
                    lemma_typed_values_prefix(views, columns@, i + 1);
                }
                return Err(e);
            },
        }
        i += 1;
    }
    assert(views.take(i as int) =~= views);
    Ok(out)
}

} // verus!

verus! {

/// One column of a table: its name, if it has one, and its type.
#[derive(Debug, Clone, PartialEq, Eq)]
pub struct ElementDef {
    pub name: Option<String>,
    pub element_type: ColumnType,
}

/// The columns of a table, in order.
#[derive(Debug, Clone, PartialEq, Eq)]
pub struct TupleDef {
    pub elements: Vec<ElementDef>,
}

/// The types of a run of columns, in order.
pub open spec fn column_types(elements: Seq<ElementDef>) -> Seq<ColumnType> {
    elements.map_values(|e: ElementDef| e.element_type)
}

impl TupleDef {
    /// The types of the columns, in order.
    pub fn column_types(&self) -> (r: Vec<ColumnType>)
        ensures
            r@ == column_types(self.elements@),
    {
        let mut out: Vec<ColumnType> = Vec::new();
        let mut i: usize = 0;
        while i < self.elements.len()
            invariant
                i <= self.elements.len(),
                out@ == column_types(self.elements@.take(i as int)),
            decreases self.elements.len() - i,
        {
            out.push(self.elements[i].element_type);
            assert(self.elements@.take(i + 1) =~= self.elements@.take(i as int).push(
                self.elements[i as int],
            ));
            assert(out@ =~= column_types(self.elements@.take(i + 1)));
            i += 1;
        }
        assert(self.elements@.take(i as int) =~= self.elements@);
        out
    }
}

/// The result of a statement: the columns, and the rows as they were read.
#[derive(Debug, Clone, PartialEq, Eq)]
pub struct StmtResultJson {
    pub schema: TupleDef,
    pub rows: Vec<Vec<TypeValue>>,
}

/// The views of a run of rows, in order.
pub open spec fn rows_view(rows: Seq<Vec<TypeValue>>) -> Seq<Seq<TypeValueView>> {
    rows.map_values(|row: Vec<TypeValue>| values_view(row@))
}

/// The rows of a result held to its columns, from first to last; the first
/// row that does not fit decides.
pub open spec fn typed_rows(rows: Seq<Seq<TypeValueView>>, columns: Seq<ColumnType>) -> Result<
    Seq<Seq<TypeValueView>>,
    DecodeError,
>
    decreases rows.len(),
{
    if rows.len() == 0 {
        Ok(Seq::empty())
    } else {
        match typed_rows(rows.drop_last(), columns) {
            Err(e) => Err(e),
            Ok(head) => match typed_row(rows.last(), columns) {
                Err(e) => Err(e),
                Ok(row) => Ok(head.push(row)),
            },
        }
    }
}

proof fn lemma_typed_rows_prefix(rows: Seq<Seq<TypeValueView>>, columns: Seq<ColumnType>, n: int)
    requires
        0 <= n <= rows.len(),
        typed_rows(rows.take(n), columns) is Err,
    ensures
        typed_rows(rows, columns) == typed_rows(rows.take(n), columns),
    decreases rows.len() - n,
{
    if n == rows.len() {
        assert(rows.take(n) =~= rows);
    } else {
        assert(rows.take(n + 1).drop_last() =~= rows.take(n));
        lemma_typed_rows_prefix(rows, columns, n + 1);
    }
}

impl StmtResultJson {
    /// The rows, each held to the columns of the result.
    pub fn typed_rows(&self) -> (r: Result<Vec<Vec<TypeValue>>, DecodeError>)
        ensures
            match r {
                Ok(rows) => typed_rows(rows_view(self.rows@), column_types(self.schema.elements@))
                    == Ok::<Seq<Seq<TypeValueView>>, DecodeError>(rows_view(rows@)),
                Err(e) => typed_rows(rows_view(self.rows@), column_types(self.schema.elements@))
                    == Err::<Seq<Seq<TypeValueView>>, DecodeError>(e),
            },
    {
        let columns = self.schema.column_types();
        let ghost views = rows_view(self.rows@);
        let mut out: Vec<Vec<TypeValue>> = Vec::new();
        let mut i: usize = 0;
        assert(views.take(0) =~= Seq::empty());
        assert(rows_view(out@) =~= Seq::empty());
        while i < self.rows.len()
            invariant
                i <= self.rows.len(),
                views == rows_view(self.rows@),
                columns@ == column_types(self.schema.elements@),
                typed_rows(views.take(i as int), columns@) == Ok::<
                    Seq<Seq<TypeValueView>>,
                    DecodeError,
                >(rows_view(out@)),
            decreases self.rows.len() - i,
        {
            let ghost before = out@;
            assert(views.take(i + 1).drop_last() =~= views.take(i as int));
            assert(views.take(i + 1).last() == values_view(self.rows[i as int]@));
            match type_row(&self.rows[i], &columns) {
                Ok(row) => {
                    out.push(row);
                    assert(rows_view(out@) =~= rows_view(before).push(values_view(row@)));
                },
                Err(e) => {
                    proof {
                        lemma_typed_rows_prefix(views, columns@, i + 1);
                    }
                    return Err(e);
                },
            }
            i += 1;
        }
        assert(views.take(i as int) =~= views);
        Ok(out)
    }
}

} // verus!
