//! A column of a table.
use vstd::prelude::*;
use vstd::string::StringExecFns;
use crate::text::decimal_string;
use crate::text::spec_decimal;
use crate::types::Type;

verus! {

/// The abstract value of a column.
pub struct ColumnView {
    pub name: Seq<char>,
    pub field_type: Type,
}

/// A column of a table: a name and the type of the column's values.
#[derive(Debug, Eq, PartialEq)]
pub struct Column {
    /// The name of this column.
    name: String,
    /// This column value's type.
    field_type: Type,
}

impl View for Column {
    type V = ColumnView;

    closed spec fn view(&self) -> ColumnView {
        ColumnView { name: self.name@, field_type: self.field_type }
    }
}

impl Clone for Column {
    fn clone(&self) -> (copy: Column)
        ensures
            copy@ == self@,
    {
        Column { name: self.name.clone(), field_type: self.field_type }
    }
}

impl ColumnView {
    /// The fixed byte size of the column's values, or `None` for a variable-length column.
    pub open spec fn size(self) -> Option<usize> {
        match self.field_type {
            Type::Varchar => None,
            fixed => Some(fixed.spec_size() as usize),
        }
    }

    /// What the column adds to the fixed-size part of a tuple.
    pub open spec fn fixed_size(self) -> nat {
        match self.size() {
            Some(size) => size as nat,
            None => 0,
        }
    }

    /// The text that describes the column: its name, its type and its length.
    pub open spec fn text(self) -> Seq<char> {
        "Column[ "@ + self.name + ", "@ + self.field_type.spec_name() + ", Length: "@ + (
        match self.size() {
            Some(size) => spec_decimal(size as nat),
            None => "VARIABLE"@,
        }) + " bytes ]"@
    }
}

impl Column {
    pub fn new(name: String, field_type: Type) -> (column: Column)
        ensures
            column@ == (ColumnView { name: name@, field_type }),
    {
        Column { name, field_type }
    }

    /// Returns the name of this column.
    pub fn name(&self) -> (name: &str)
        ensures
            name@ == self@.name,
    {
        self.name.as_str()
    }

    /// Returns the `field_type` of the column.
    pub fn field_type(&self) -> (field_type: Type)
        ensures
            field_type == self@.field_type,
    {
        self.field_type
    }

    /// Returns the fixed byte size of this column's field data. In the case of variable-length
    /// fields, returns `None`.
    pub fn size(&self) -> (size: Option<usize>)
        ensures
            size == self@.size(),
    {
        match self.field_type {
            Type::Varchar => None,
            fixed_size_type => Some(fixed_size_type.size()),
        }
    }

    /// Describes the column: its name, its type and its length in bytes.
    pub fn to_string(&self) -> (text: String)
        ensures
            text@ == self@.text(),
    {
        let length = match self.size() {
            Some(size) => decimal_string(size as u64),
            None => "VARIABLE".to_string(),
        };
        let mut text = String::from_str("Column[ ");
        text.append(self.name.as_str());
        text.append(", ");
        text.append(self.field_type.to_string().as_str());
        text.append(", Length: ");
        text.append(length.as_str());
        text.append(" bytes ]");
        text
    }
}

} // verus!
