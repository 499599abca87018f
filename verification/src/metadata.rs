//! The definitions of the schemas and tables of a database: which exist,
//! under which identifiers, and with which columns.

use vstd::prelude::*;
use crate::registry::Registry;
use crate::sql_model::ColumnDefinition;

verus! {

pub type Id = u64;

/// The identifier of a table: that of its schema, then its own.
#[derive(Debug, Clone, Copy, PartialEq, Eq, Structural)]
pub struct TableId(pub Id, pub Id);

struct TableEntry {
    id: Id,
    columns: Vec<ColumnDefinition>,
}

struct SchemaEntry {
    id: Id,
    next_table_id: Id,
    tables: Registry<TableEntry>,
}

/// What is known of a table.
pub struct TableModel {
    pub id: Id,
    pub columns: Seq<ColumnDefinition>,
}

/// What is known of a schema.
pub struct SchemaModel {
    pub id: Id,
    /// The identifier that the next table of the schema gets.
    pub next_table_id: Id,
    pub tables: Map<Seq<char>, TableModel>,
}

pub struct DataDefinition {
    next_schema_id: Id,
    schemas: Registry<SchemaEntry>,
}

/// The identifier after `id`; the last identifier is followed by itself.
pub open spec fn following(id: Id) -> Id {
    if id < u64::MAX {
        (id + 1) as Id
    } else {
        id
    }
}

fn next(id: Id) -> (following_id: Id)
    ensures
        following_id == following(id),
{
    if id < u64::MAX {
        id + 1
    } else {
        id
    }
}

spec fn table_model(entry: TableEntry) -> TableModel {
    TableModel { id: entry.id, columns: entry.columns@ }
}

spec fn schema_model(entry: SchemaEntry) -> SchemaModel {
    SchemaModel {
        id: entry.id,
        next_table_id: entry.next_table_id,
        tables: Map::new(
            |name: Seq<char>| entry.tables@.dom().contains(name),
            |name: Seq<char>| table_model(entry.tables@[name]),
        ),
    }
}

/// A copy of the column definitions.
pub fn copy_columns(columns: &Vec<ColumnDefinition>) -> (copy: Vec<ColumnDefinition>)
    ensures
        copy@ == columns@,
{
    let mut copy: Vec<ColumnDefinition> = Vec::new();
    let mut i: usize = 0;
    while i < columns.len()
        invariant
            i <= columns@.len(),
            copy@ == columns@.take(i as int),
        decreases columns.len() - i,
    {
        copy.push(columns[i].duplicate());
        assert(copy@ =~= columns@.take(i + 1));
        i += 1;
    }
    assert(columns@.take(columns@.len() as int) =~= columns@);
    copy
}

impl DataDefinition {
    /// The schemas of the database, by name.
    pub closed spec fn schemas(&self) -> Map<Seq<char>, SchemaModel> {
        Map::new(
            |name: Seq<char>| self.schemas@.dom().contains(name),
            |name: Seq<char>| schema_model(self.schemas@[name]),
        )
    }

    /// The identifier that the next schema gets.
    pub closed spec fn next_schema_id(&self) -> Id {
        self.next_schema_id
    }

    pub closed spec fn wf(&self) -> bool {
        &&& self.schemas.wf()
        &&& forall|name: Seq<char>| #[trigger]
            self.schemas@.dom().contains(name) ==> self.schemas@[name].tables.wf()
    }

    /// Whether the database has the table in the schema.
    pub open spec fn has_table(&self, schema: Seq<char>, table: Seq<char>) -> bool {
        self.schemas().dom().contains(schema) && self.schemas()[schema].tables.dom().contains(table)
    }

    /// The columns of the table.
    pub open spec fn columns(&self, schema: Seq<char>, table: Seq<char>) -> Seq<ColumnDefinition> {
        self.schemas()[schema].tables[table].columns
    }

    /// A database without schemas.
    pub fn in_memory() -> (definition: DataDefinition)
        ensures
            definition.wf(),
            definition.schemas() == Map::<Seq<char>, SchemaModel>::empty(),
            definition.next_schema_id() == 0,
    {
        let definition = DataDefinition { next_schema_id: 0, schemas: Registry::new() };
        assert(definition.schemas() =~= Map::<Seq<char>, SchemaModel>::empty());
        definition
    }

    /// Creates the schema and returns its identifier, unless a schema of
    /// the name exists.
    pub fn create_schema(&mut self, schema_name: &str) -> (created: Option<Id>)
        requires
            old(self).wf(),
        ensures
            final(self).wf(),
            match created {
                Some(id) => !old(self).schemas().dom().contains(schema_name@) && id == old(self).next_schema_id() && final(self).next_schema_id() == following(id) && final(self).schemas() == old(self).schemas().insert(
                    schema_name@,
                    SchemaModel { id, next_table_id: 0, tables: Map::empty() },
                ),
                None => old(self).schemas().dom().contains(schema_name@) && final(self).schemas()
                    == old(self).schemas() && final(self).next_schema_id() == old(self).next_schema_id(),
            },
    {
        let id = self.next_schema_id;
        let entry = SchemaEntry { id, next_table_id: 0, tables: Registry::new() };
        proof {
            assert(schema_model(entry).tables =~= Map::<Seq<char>, TableModel>::empty());
        }
        if self.schemas.insert(schema_name, entry) {
            self.next_schema_id = next(id);
            proof {
                assert(self.schemas() =~= old(self).schemas().insert(
                    schema_name@,
                    SchemaModel { id, next_table_id: 0, tables: Map::empty() },
                ));
            }
            Some(id)
        } else {
            proof {
                assert(self.schemas() =~= old(self).schemas());
            }
            None
        }
    }

    /// Drops the schema with its tables; says whether there was one.
    pub fn drop_schema(&mut self, schema_name: &str) -> (dropped: bool)
        requires
            old(self).wf(),
        ensures
            final(self).wf(),
            dropped == old(self).schemas().dom().contains(schema_name@),
            final(self).schemas() == old(self).schemas().remove(schema_name@),
            final(self).next_schema_id() == old(self).next_schema_id(),
    {
        let dropped = self.schemas.remove(schema_name).is_some();
        proof {
            assert(self.schemas() =~= old(self).schemas().remove(schema_name@));
        }
        dropped
    }

    /// The identifier of the schema, if it exists.
    pub fn schema_exists(&self, schema_name: &str) -> (found: Option<Id>)
        requires
            self.wf(),
        ensures
            match found {
                Some(id) => self.schemas().dom().contains(schema_name@) && id
                    == self.schemas()[schema_name@].id,
                None => !self.schemas().dom().contains(schema_name@),
            },
    {
        match self.schemas.get(schema_name) {
            Some(schema) => Some(schema.id),
            None => None,
        }
    }

    /// The identifier of the schema, if it exists, and with it that of the
    /// table, if the schema has it.
    pub fn table_exists(&self, schema_name: &str, table_name: &str) -> (found: Option<
        (Id, Option<Id>),
    >)
        requires
            self.wf(),
        ensures
            match found {
                Some((schema_id, Some(table_id))) => self.has_table(schema_name@, table_name@)
                    && schema_id == self.schemas()[schema_name@].id && table_id
                    == self.schemas()[schema_name@].tables[table_name@].id,
                Some((schema_id, None)) => self.schemas().dom().contains(schema_name@)
                    && !self.has_table(schema_name@, table_name@) && schema_id
                    == self.schemas()[schema_name@].id,
                None => !self.schemas().dom().contains(schema_name@),
            },
    {
        match self.schemas.get(schema_name) {
            Some(schema) => match schema.tables.get(table_name) {
                Some(table) => Some((schema.id, Some(table.id))),
                None => Some((schema.id, None)),
            },
            None => None,
        }
    }

    /// Creates the table with the columns and returns its identifier.
    /// Nothing is returned where the schema does not exist; `Some(None)`
    /// where the schema has a table of the name.
    pub fn create_table(
        &mut self,
        schema_name: &str,
        table_name: &str,
        columns: Vec<ColumnDefinition>,
    ) -> (created: Option<Option<Id>>)
        requires
            old(self).wf(),
        ensures
            final(self).wf(),
            final(self).next_schema_id() == old(self).next_schema_id(),
            match created {
                Some(Some(id)) => {
                    let schema = old(self).schemas()[schema_name@];
                    &&& old(self).schemas().dom().contains(schema_name@)
                    &&& !old(self).has_table(schema_name@, table_name@)
                    &&& id == schema.next_table_id
                    &&& final(self).schemas() == old(self).schemas().insert(
                        schema_name@,
                        SchemaModel {
                            id: schema.id,
                            next_table_id: following(id),
                            tables: schema.tables.insert(
                                table_name@,
                                TableModel { id, columns: columns@ },
                            ),
                        },
                    )
                },
                Some(None) => old(self).has_table(schema_name@, table_name@) && final(self).schemas() == old(self).schemas(),
                None => !old(self).schemas().dom().contains(schema_name@) && final(self).schemas()
                    == old(self).schemas(),
            },
    {
        let created = match self.schemas.get_mut(schema_name) {
            None => None,
            Some(schema) => {
                let id = schema.next_table_id;
                if schema.tables.insert(table_name, TableEntry { id, columns }) {
                    schema.next_table_id = next(id);
                    Some(Some(id))
                } else {
                    Some(None)
                }
            },
        };
        proof {
            if old(self).schemas.view().dom().contains(schema_name@) {
                let before = old(self).schemas.view()[schema_name@];
                let after = self.schemas.view()[schema_name@];
                match created {
                    Some(Some(id)) => {
                        assert(schema_model(after).tables =~= schema_model(before).tables.insert(
                            table_name@,
                            TableModel { id, columns: columns@ },
                        ));
                        assert(self.schemas() =~= old(self).schemas().insert(
                            schema_name@,
                            schema_model(after),
                        ));
                    },
                    _ => {
                        assert(schema_model(after).tables =~= schema_model(before).tables);
                        assert(self.schemas() =~= old(self).schemas());
                    },
                }
            } else {
                assert(self.schemas() =~= old(self).schemas());
            }
        }
        created
    }

    /// Drops the table. Nothing is returned where the schema does not
    /// exist; else whether the schema had the table.
    pub fn drop_table(&mut self, schema_name: &str, table_name: &str) -> (dropped: Option<bool>)
        requires
            old(self).wf(),
        ensures
            final(self).wf(),
            final(self).next_schema_id() == old(self).next_schema_id(),
            match dropped {
                Some(dropped) => {
                    let schema = old(self).schemas()[schema_name@];
                    &&& old(self).schemas().dom().contains(schema_name@)
                    &&& dropped == old(self).has_table(schema_name@, table_name@)
                    &&& final(self).schemas() == old(self).schemas().insert(
                        schema_name@,
                        SchemaModel {
                            id: schema.id,
                            next_table_id: schema.next_table_id,
                            tables: schema.tables.remove(table_name@),
                        },
                    )
                },
                None => !old(self).schemas().dom().contains(schema_name@) && final(self).schemas()
                    == old(self).schemas(),
            },
    {
        let dropped = match self.schemas.get_mut(schema_name) {
            None => None,
            Some(schema) => Some(schema.tables.remove(table_name).is_some()),
        };
        proof {
            if old(self).schemas.view().dom().contains(schema_name@) {
                let before = old(self).schemas.view()[schema_name@];
                let after = self.schemas.view()[schema_name@];
                assert(schema_model(after).tables =~= schema_model(before).tables.remove(
                    table_name@,
                ));
                assert(self.schemas() =~= old(self).schemas().insert(
                    schema_name@,
                    schema_model(after),
                ));
            } else {
                assert(self.schemas() =~= old(self).schemas());
            }
        }
        dropped
    }

    /// A copy of the columns of the table, if it exists.
    pub fn table_columns(&self, schema_name: &str, table_name: &str) -> (columns: Option<
        Vec<ColumnDefinition>,
    >)
        requires
            self.wf(),
        ensures
            match columns {
                Some(columns) => self.has_table(schema_name@, table_name@) && columns@
                    == self.columns(schema_name@, table_name@),
                None => !self.has_table(schema_name@, table_name@),
            },
    {
        match self.schemas.get(schema_name) {
            Some(schema) => match schema.tables.get(table_name) {
                Some(table) => Some(copy_columns(&table.columns)),
                None => None,
            },
            None => None,
        }
    }
}

} // verus!
