//! The schema of the tuples of a table.
use vstd::prelude::*;
use vstd::string::StringExecFns;
use crate::column::Column;
use crate::column::ColumnView;
use crate::error::Error;
use crate::text::decimal_string;
use crate::text::spec_decimal;

verus! {

/// A record id in its 64-bit form: the page id in the upper half, the slot id in the lower half.
pub type RecordId = u64;

/// The fixed-length byte size of a tuple with the given columns: the sum of
/// the sizes of the fixed-size columns.
pub open spec fn spec_fixed_size(columns: Seq<ColumnView>) -> nat
    decreases columns.len(),
{
    if columns.len() == 0 {
        0
    } else {
        spec_fixed_size(columns.drop_last()) + columns.last().fixed_size()
    }
}

/// The texts of the given columns, with a comma between each two.
pub open spec fn spec_joined(columns: Seq<ColumnView>) -> Seq<char>
    decreases columns.len(),
{
    if columns.len() == 0 {
        Seq::empty()
    } else if columns.len() == 1 {
        columns[0].text()
    } else {
        spec_joined(columns.drop_last()) + ","@ + columns.last().text()
    }
}

/// The position of the first column with the given name, if there is one.
pub open spec fn spec_index_of(columns: Seq<ColumnView>, name: Seq<char>) -> Option<usize>
    decreases columns.len(),
{
    if columns.len() == 0 {
        None
    } else {
        match spec_index_of(columns.drop_last(), name) {
            Some(index) => Some(index),
            None => if columns.last().name == name {
                Some((columns.len() - 1) as usize)
            } else {
                None
            },
        }
    }
}

/// The fixed size of columns put one behind the other is the sum of their fixed sizes.
pub proof fn lemma_fixed_size_of_both(first: Seq<ColumnView>, second: Seq<ColumnView>)
    ensures
        spec_fixed_size(first + second) == spec_fixed_size(first) + spec_fixed_size(second),
    decreases second.len(),
{
    if !(second.len() == 0) {
        lemma_fixed_size_of_both(first, second.drop_last());
        assert((first + second).drop_last() =~= first + second.drop_last());
    }
}

/// The first column with a given name is a column with that name, and no column before it has it.
pub proof fn lemma_index_of(columns: Seq<ColumnView>, name: Seq<char>)
    requires
        columns.len() <= usize::MAX,
    ensures
        match spec_index_of(columns, name) {
            Some(index) => {
                &&& index < columns.len()
                &&& columns[index as int].name == name
                &&& forall|i: int| 0 <= i < index ==> columns[i].name != name
            },
            None => forall|i: int| 0 <= i < columns.len() ==> columns[i].name != name,
        },
    decreases columns.len(),
{
    if columns.len() > 0 {
        let rest = columns.drop_last();
        lemma_index_of(rest, name);
        match spec_index_of(rest, name) {
            Some(index) => {
                assert forall|i: int| 0 <= i < index implies columns[i].name != name by {
                    assert(columns[i] == rest[i]);
                }
            },
            None => {
                assert forall|i: int| 0 <= i < columns.len() - 1 implies columns[i].name
                    != name by {
                    assert(columns[i] == rest[i]);
                }
            },
        }
    }
}

/// The abstract value of a schema.
pub struct SchemaView {
    /// The columns, in order.
    pub columns: Seq<ColumnView>,
    /// The fixed-length size of a tuple.
    pub size: usize,
}

/// The schema of a tuple. Contains metadata about the columns corresponding to the tuple's values.
#[derive(Debug, Clone, Eq, PartialEq)]
pub struct Schema {
    /// The column definitions of the tuple's values, in order.
    columns: Vec<Column>,
    /// The fixed-length size of the tuple, i.e. the sum of the number of bytes used by the fixed
    /// size fields. Variable-length fields add nothing to it.
    size: usize,
}

impl View for Schema {
    type V = SchemaView;

    closed spec fn view(&self) -> SchemaView {
        SchemaView {
            columns: Seq::new(self.columns@.len(), |i: int| self.columns@[i]@),
            size: self.size,
        }
    }
}

impl Schema {
    /// The invariant of a schema: its size is the fixed size of its columns.
    pub open spec fn wf(&self) -> bool {
        self@.size == spec_fixed_size(self@.columns)
    }

    /// The views of the given columns.
    pub open spec fn spec_views(columns: Seq<Column>) -> Seq<ColumnView> {
        Seq::new(columns.len(), |i: int| columns[i]@)
    }

    /// Makes a schema of copies of the given columns. The fixed size of the
    /// columns must fit the machine's word.
    pub fn new(columns: &[Column]) -> (schema: Schema)
        requires
            spec_fixed_size(Self::spec_views(columns@)) <= usize::MAX,
        ensures
            schema.wf(),
            schema@.columns == Self::spec_views(columns@),
    {
        let mut copies: Vec<Column> = Vec::new();
        let mut size: usize = 0;
        let mut i: usize = 0;
        let ghost views = Self::spec_views(columns@);
        while i < columns.len()
            invariant
                i <= columns@.len(),
                views == Self::spec_views(columns@),
                copies@.len() == i,
                forall|j: int| 0 <= j < i ==> (#[trigger] copies@[j])@ == views[j],
                size == spec_fixed_size(views.take(i as int)),
                spec_fixed_size(views) <= usize::MAX,
            decreases columns@.len() - i,
        {
            let column = &columns[i];
            proof {
                assert(views.take(i + 1).drop_last() =~= views.take(i as int));
                assert(views =~= views.take(i + 1) + views.skip(i + 1));
                lemma_fixed_size_of_both(views.take(i + 1), views.skip(i + 1));
            }
            if let Some(fixed) = column.size() {
                size = size + fixed;
            }
            copies.push(column.clone());
            i += 1;
        }
        let schema = Schema { columns: copies, size };
        proof {
            assert(views.take(columns@.len() as int) =~= views);
            assert(schema@.columns =~= views);
        }
        schema
    }

    /// Moves all the columns of `other` into `self`, consuming `other`.
    /// The fixed sizes of both must fit the machine's word together.
    pub fn append(&mut self, other: Self)
        requires
            old(self).wf(),
            other.wf(),
            old(self)@.size + other@.size <= usize::MAX,
        ensures
            final(self).wf(),
            final(self)@.columns == old(self)@.columns + other@.columns,
            final(self)@.size == old(self)@.size + other@.size,
    {
        let ghost added = other@;
        let mut other = other;
        self.size = self.size + other.size;
        self.columns.append(&mut other.columns);
        proof {
            assert(self@.columns =~= old(self)@.columns + added.columns);
            lemma_fixed_size_of_both(old(self)@.columns, added.columns);
        }
    }

    /// Returns an immutable view of the columns.
    pub fn columns(&self) -> (columns: &Vec<Column>)
        ensures
            Self::spec_views(columns@) == self@.columns,
    {
        &self.columns
    }

    /// Given an index `i`, retrieves a reference to the schema's `i`-th column (if it exists).
    pub fn column_at(&self, index: usize) -> (result: Result<&Column, Error>)
        ensures
            match result {
                Ok(column) => index < self@.columns.len() && column@ == self@.columns[index as int],
                Err(e) => index >= self@.columns.len() && e is OutOfBounds,
            },
    {
        if index < self.columns.len() {
            Ok(&self.columns[index])
        } else {
            Err(Error::OutOfBounds)
        }
    }

    /// Looks and up and returns the index of the column in the schema with the given name, if
    /// one exists. If more than one column has the given name, returns the index of the first
    /// such column.
    pub fn column_index_of(&self, name: &str) -> (index: Option<usize>)
        ensures
            index == spec_index_of(self@.columns, name@),
    {
        let wanted = String::from_str(name);
        let mut i: usize = 0;
        while i < self.columns.len()
            invariant
                i <= self.columns@.len(),
                wanted@ == name@,
                spec_index_of(self@.columns.take(i as int), name@) is None,
            decreases self.columns@.len() - i,
        {
            let found = String::from_str(self.columns[i].name()) == wanted;
            proof {
                assert(self@.columns.take(i + 1).drop_last() =~= self@.columns.take(i as int));
            }
            if found {
                proof {
                    lemma_index_of_prefix(self@.columns, name@, i as int + 1);
                }
                return Some(i);
            }
            i += 1;
        }
        proof {
            assert(self@.columns.take(self.columns@.len() as int) =~= self@.columns);
        }
        None
    }

    /// Returns the number of columns in the schema.
    pub fn num_columns(&self) -> (count: usize)
        ensures
            count == self@.columns.len(),
    {
        self.columns.len()
    }

    /// Returns the fixed-length byte size of the tuple.
    pub fn size(&self) -> (size: usize)
        ensures
            size == self@.size,
    {
        self.size
    }

    /// The text that describes the schema: the number of its columns, its
    /// fixed size, and its columns.
    pub open spec fn spec_text(&self) -> Seq<char> {
        "Schema[ NumColumns: "@ + spec_decimal(self@.columns.len()) + ", FixedSize: "@
            + spec_decimal(self@.size as nat) + " ] :: ( "@ + spec_joined(self@.columns) + " )"@
    }

    /// Describes the schema: the number of its columns, its fixed size, and its columns.
    pub fn to_string(&self) -> (text: String)
        ensures
            text@ == self.spec_text(),
    {
        let mut columns = String::new();
        let mut i: usize = 0;
        while i < self.columns.len()
            invariant
                i <= self.columns@.len(),
                columns@ == spec_joined(self@.columns.take(i as int)),
            decreases self.columns@.len() - i,
        {
            proof {
                assert(self@.columns.take(i + 1).drop_last() =~= self@.columns.take(i as int));
            }
            if i > 0 {
                columns.append(",");
            }
            columns.append(self.columns[i].to_string().as_str());
            i += 1;
        }
        proof {
            assert(self@.columns.take(self.columns@.len() as int) =~= self@.columns);
        }
        let mut text = String::from_str("Schema[ NumColumns: ");
        text.append(decimal_string(self.num_columns() as u64).as_str());
        text.append(", FixedSize: ");
        text.append(decimal_string(self.size() as u64).as_str());
        text.append(" ] :: ( ");
        text.append(columns.as_str());
        text.append(" )");
        text
    }
}

/// A column that is found among the first columns is found among all of them.
pub proof fn lemma_index_of_prefix(columns: Seq<ColumnView>, name: Seq<char>, prefix: int)
    requires
        0 <= prefix <= columns.len(),
        spec_index_of(columns.take(prefix), name) is Some,
    ensures
        spec_index_of(columns, name) == spec_index_of(columns.take(prefix), name),
    decreases columns.len() - prefix,
{
    if prefix < columns.len() {
        assert(columns.take(prefix + 1).drop_last() =~= columns.take(prefix));
        lemma_index_of_prefix(columns, name, prefix + 1);
    } else {
        assert(columns.take(prefix) =~= columns);
    }
}

} // verus!
