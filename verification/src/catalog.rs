//! The tables of a database: their ids, names and schemas.
use vstd::prelude::*;
use vstd::std_specs::hash::group_hash_axioms;
use vstd::string::StringExecFns;
use std::collections::HashMap;
use crate::schema::Schema;
use crate::schema::SchemaView;

verus! {

broadcast use group_hash_axioms;

/// Identifier of a table.
pub type TableId = u32;

/// Identifier of an index.
pub type IndexId = u32;

/// The abstract value of the metadata of a table.
pub struct TableInfoView {
    pub id: TableId,
    pub name: Seq<char>,
    pub schema: SchemaView,
}

/// Stores metadata about a given table in a DBMS.
pub struct TableInfo {
    id: TableId,
    name: String,
    schema: Schema,
}

impl View for TableInfo {
    type V = TableInfoView;

    closed spec fn view(&self) -> TableInfoView {
        TableInfoView { id: self.id, name: self.name@, schema: self.schema@ }
    }
}

impl TableInfo {
    /// The id of the table.
    pub fn id(&self) -> (id: TableId)
        ensures
            id == self@.id,
    {
        self.id
    }

    /// The name of the table.
    pub fn name(&self) -> (name: &str)
        ensures
            name@ == self@.name,
    {
        self.name.as_str()
    }

    /// The schema of the table's tuples.
    pub fn schema(&self) -> (schema: &Schema)
        ensures
            schema@ == self@.schema,
    {
        &self.schema
    }
}

/// A catalog of the tables of a database: it gives each new table the next
/// table id and finds tables by id and by name. No two tables share a name.
/// It also keeps the storage engine in which the tables live.
pub struct Catalog<S> {
    /// The storage engine used by our DBMS.
    storage: S,
    /// Maps table id -> table metadata.
    tables: HashMap<TableId, TableInfo>,
    /// The next `TableId` to be used.
    next_table_id: TableId,
}

impl<S> Catalog<S> {
    /// The metadata of the tables, in the order of their ids.
    pub closed spec fn tables(&self) -> Seq<TableInfoView> {
        Seq::new(self.next_table_id as nat, |i: int| self.tables@[i as TableId]@)
    }

    /// The storage engine of the catalog.
    pub closed spec fn spec_storage(&self) -> S {
        self.storage
    }

    /// What ties the stored tables to the ids given out so far: the tables
    /// that are stored are those with an id below the next one.
    pub closed spec fn repr_ok(&self) -> bool {
        forall|id: TableId| #[trigger] self.tables@.contains_key(id) <==> id < self.next_table_id
    }

    /// The invariant of a catalog: table ids count up from zero, and table names are unique.
    pub open spec fn wf(&self) -> bool {
        &&& self.repr_ok()
        &&& self.tables().len() <= u32::MAX
        &&& forall|i: int| 0 <= i < self.tables().len() ==> (#[trigger] self.tables()[i]).id == i
        &&& forall|i: int, j: int|
            0 <= i < j < self.tables().len() ==> (#[trigger] self.tables()[i]).name
                != (#[trigger] self.tables()[j]).name
    }

    /// Whether a table has the given name.
    pub open spec fn has_table_named(&self, name: Seq<char>) -> bool {
        exists|i: int| 0 <= i < self.tables().len() && (#[trigger] self.tables()[i]).name == name
    }

    /// Instantiates a system catalog, given the storage engine that we'll use.
    pub fn new(storage: S) -> (catalog: Self)
        ensures
            catalog.wf(),
            catalog.tables() == Seq::<TableInfoView>::empty(),
            catalog.spec_storage() == storage,
    {
        let catalog = Catalog { storage, tables: HashMap::new(), next_table_id: 0 };
        catalog
    }

    /// The storage engine used by our DBMS.
    pub fn storage(&self) -> (storage: &S)
        ensures
            *storage == self.spec_storage(),
    {
        &self.storage
    }

    /// Creates a new table with the given name and schema, under the next table id.
    ///
    /// The name must not be that of another table.
    pub fn create_table(&mut self, name: String, schema: Schema) -> (info: &TableInfo)
        requires
            old(self).wf(),
            !old(self).has_table_named(name@),
            old(self).tables().len() < u32::MAX,
        ensures
            final(self).wf(),
            final(self).spec_storage() == old(self).spec_storage(),
            info@ == (TableInfoView {
                id: old(self).tables().len() as TableId,
                name: name@,
                schema: schema@,
            }),
            final(self).tables() == old(self).tables().push(info@),
    {
        // Generate the id for the new table.
        let id = self.next_table_id;
        self.next_table_id = id + 1;
        // Update the table metadata map.
        let added = TableInfo { id, name, schema };
        let ghost added_view = added@;
        self.tables.insert(id, added);
        proof {
            assert(self.tables() =~= old(self).tables().push(added_view));
        }
        self.tables.get(&id).unwrap()
    }

    /// Fetches the metadata for the table with given id, if one exists.
    pub fn table_with_id(&self, id: TableId) -> (info: Option<&TableInfo>)
        requires
            self.wf(),
        ensures
            match info {
                Some(info) => id < self.tables().len() && info@ == self.tables()[id as int],
                None => id >= self.tables().len(),
            },
    {
        self.tables.get(&id)
    }

    /// Fetches the metadata for the table with given name, if one exists.
    ///
    /// The tables are tried in the order of their ids. A map from names to
    /// ids would be keyed by strings, and the model of hash maps that the
    /// proofs rest on covers no string keys.
    pub fn table_with_name(&self, name: &str) -> (info: Option<&TableInfo>)
        requires
            self.wf(),
        ensures
            match info {
                Some(info) => exists|i: int|
                    0 <= i < self.tables().len() && #[trigger] self.tables()[i] == info@
                        && info@.name == name@,
                None => !self.has_table_named(name@),
            },
    {
        let wanted = String::from_str(name);
        let mut id: TableId = 0;
        while id < self.next_table_id
            invariant
                self.wf(),
                id <= self.next_table_id,
                wanted@ == name@,
                forall|j: int| 0 <= j < id ==> (#[trigger] self.tables()[j]).name != name@,
            decreases self.next_table_id - id,
        {
            if let Some(info) = self.tables.get(&id) {
                if String::from_str(info.name()) == wanted {
                    assert(self.tables()[id as int] == info@);
                    return Some(info);
                }
            }
            id += 1;
        }
        None
    }
}

} // verus!
