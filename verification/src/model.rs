//! The schema model: a passive description of one table.

use crate::laws::written_columns_law;
use crate::text::free_of;
use vstd::prelude::*;

verus! {

/// The SQL type of a column.
#[derive(Debug, Clone, Copy, PartialEq, Eq)]
pub enum ColumnType {
    SmallInt,
    Integer,
    BigInt,
    /// Precision and scale, each of which may be left out.
    Decimal(Option<usize>, Option<usize>),
    /// Fixed length, in characters.
    Char(usize),
    /// Greatest length, in characters.
    Varchar(usize),
    Text,
    Real,
    Double,
    SmallSerial,
    Serial,
    BigSerial,
    Money,
    Bytea,
    Timestamp,
    Date,
    Time,
    Interval,
    Boolean,
    Uuid,
    /// Length, in bits.
    Bit(usize),
}

/// How a column refers to another table.
#[derive(Debug, Clone, Copy, PartialEq, Eq)]
pub enum ForeignKey {
    OneToOne,
    OneToMany,
    ManyToMany,
}

/// One column of a table, with its constraints.
#[derive(Debug)]
pub struct Column {
    pub name: String,
    pub typ: ColumnType,
    pub annotation: Option<String>,
    /// The database fills the column in; no value is ever written for it.
    pub is_generated: bool,
    /// The values written for the column differ from row to row.
    pub is_unique: bool,
    pub is_nullable: bool,
    pub foreign_key: Option<ForeignKey>,
}

/// A table: its name, the schema that owns it, and its columns in the order
/// in which they were declared.
#[derive(Debug)]
pub struct Table {
    pub name: String,
    pub schema: String,
    pub columns: Vec<Column>,
    pub generated_keys: Vec<Vec<String>>,
}

/// What a `Column` says, as mathematical values.
pub struct ColumnModel {
    pub name: Seq<char>,
    pub typ: ColumnType,
    pub annotation: Option<Seq<char>>,
    pub is_generated: bool,
    pub is_unique: bool,
    pub is_nullable: bool,
    pub foreign_key: Option<ForeignKey>,
}

/// What a `Table` says, as mathematical values.
pub struct TableModel {
    pub name: Seq<char>,
    pub schema: Seq<char>,
    pub columns: Seq<ColumnModel>,
}

impl ColumnType {
    /// The serial types, which the database numbers by itself.
    pub open spec fn serial(self) -> bool {
        self is SmallSerial || self is Serial || self is BigSerial
    }

    /// Tells whether this is one of the serial types.
    pub fn is_serial(&self) -> (serial: bool)
        ensures
            serial == self.serial(),
    {
        match self {
            ColumnType::SmallSerial | ColumnType::Serial | ColumnType::BigSerial => true,
            _ => false,
        }
    }

    /// Whether a text of the declared length can exist in memory: no string
    /// is longer than `isize::MAX` bytes.
    pub open spec fn representable(self) -> bool {
        match self {
            ColumnType::Char(len) => len <= isize::MAX,
            ColumnType::Varchar(len) => len <= isize::MAX,
            _ => true,
        }
    }

    /// Tells whether a text of the declared length can exist in memory.
    pub fn is_representable(&self) -> (fits: bool)
        ensures
            fits == self.representable(),
    {
        match self {
            ColumnType::Char(len) => *len <= isize::MAX as usize,
            ColumnType::Varchar(len) => *len <= isize::MAX as usize,
            _ => true,
        }
    }
}

impl View for Column {
    type V = ColumnModel;

    open spec fn view(&self) -> ColumnModel {
        ColumnModel {
            name: self.name@,
            typ: self.typ,
            annotation: match self.annotation {
                Some(text) => Some(text@),
                None => None,
            },
            is_generated: self.is_generated,
            is_unique: self.is_unique,
            is_nullable: self.is_nullable,
            foreign_key: self.foreign_key,
        }
    }
}

impl View for Table {
    type V = TableModel;

    open spec fn view(&self) -> TableModel {
        TableModel {
            name: self.name@,
            schema: self.schema@,
            columns: self.columns@.map_values(|column: Column| column@),
        }
    }
}

/// The least value of an integer type.
pub open spec fn integer_low(typ: ColumnType) -> int {
    match typ {
        ColumnType::SmallInt => i16::MIN as int,
        ColumnType::Integer => i32::MIN as int,
        _ => i64::MIN as int,
    }
}

/// The greatest value of an integer type.
pub open spec fn integer_high(typ: ColumnType) -> int {
    match typ {
        ColumnType::SmallInt => i16::MAX as int,
        ColumnType::Integer => i32::MAX as int,
        _ => i64::MAX as int,
    }
}

/// The integer types.
pub open spec fn is_integer_type(typ: ColumnType) -> bool {
    typ is SmallInt || typ is Integer || typ is BigInt
}

/// The columns that an insertion writes: those that the database does not
/// generate, in the order in which the table declares them.
pub open spec fn insertable_columns(columns: Seq<ColumnModel>) -> Seq<ColumnModel>
    decreases columns.len(),
{
    if columns.len() == 0 {
        Seq::empty()
    } else if columns.last().is_generated {
        insertable_columns(columns.drop_last())
    } else {
        insertable_columns(columns.drop_last()).push(columns.last())
    }
}

/// Where in `columns` the columns that an insertion writes stand, in rising
/// order.
pub open spec fn insertable_positions(columns: Seq<ColumnModel>) -> Seq<int>
    decreases columns.len(),
{
    if columns.len() == 0 {
        Seq::empty()
    } else if columns.last().is_generated {
        insertable_positions(columns.drop_last())
    } else {
        insertable_positions(columns.drop_last()).push(columns.len() - 1)
    }
}

/// How many of `columns` are not generated.
pub open spec fn insertable_count(columns: Seq<ColumnModel>) -> nat
    decreases columns.len(),
{
    if columns.len() == 0 {
        0
    } else if columns.last().is_generated {
        insertable_count(columns.drop_last())
    } else {
        insertable_count(columns.drop_last()) + 1
    }
}

impl TableModel {
    /// Whether every column's declared length can exist in memory.
    pub open spec fn representable(self) -> bool {
        forall|i: int|
            0 <= i < self.columns.len() ==> (#[trigger] self.columns[i]).typ.representable()
    }

    /// Whether the names of the table, of its schema and of its columns are
    /// free of `c`.
    pub open spec fn names_free_of(self, c: char) -> bool {
        &&& free_of(self.schema, c)
        &&& free_of(self.name, c)
        &&& forall|i: int|
            0 <= i < self.columns.len() ==> free_of((#[trigger] self.columns[i]).name, c)
    }
}

impl Table {
    /// Tells whether every column's declared length can exist in memory.
    pub fn is_representable(&self) -> (fits: bool)
        ensures
            fits == self@.representable(),
    {
        let mut i: usize = 0;
        while i < self.columns.len()
            invariant
                i <= self.columns.len(),
                forall|k: int| 0 <= k < i ==> (#[trigger] self@.columns[k]).typ.representable(),
            decreases self.columns.len() - i,
        {
            if !self.columns[i].typ.is_representable() {
                assert(!self@.columns[i as int].typ.representable());
                return false;
            }
            i = i + 1;
        }
        true
    }

    /// The columns that an insertion writes: the columns that are not
    /// generated, all of them and each once, in the table's order.
    pub fn insertable(&self) -> (columns: Vec<&Column>)
        ensures
            columns@.map_values(|column: &Column| column@) == insertable_columns(self@.columns),
            columns.len() == insertable_count(self@.columns),
            forall|k: int|
                0 <= k < columns.len() ==> (#[trigger] columns[k])@
                    == self@.columns[insertable_positions(self@.columns)[k]],
    {
        let mut columns: Vec<&Column> = Vec::new();
        let mut i: usize = 0;
        while i < self.columns.len()
            invariant
                i <= self.columns.len(),
                columns@.map_values(|column: &Column| column@) == insertable_columns(
                    self@.columns.take(i as int),
                ),
            decreases self.columns.len() - i,
        {
            let column = &self.columns[i];
            assert(self@.columns.take(i + 1).drop_last() =~= self@.columns.take(i as int));
            if !column.is_generated {
                columns.push(column);
            }
            i = i + 1;
        }
        assert(self@.columns.take(i as int) =~= self@.columns);
        proof {
            written_columns_law(self@.columns);
        }
        columns
    }
}

} // verus!
