use relational_db::binary::{Binary, Datum};
use relational_db::storage::{
    InMemoryCatalogHandle, InMemoryIndex, InMemorySchemaHandle, InMemoryTableHandle,
};

fn key(id: u64) -> Binary {
    Binary::pack(&[Datum::from_u64(id)])
}

fn row(value: i32) -> Binary {
    Binary::pack(&[Datum::from_i32(value)])
}

#[test]
fn work_with_tells_a_missing_schema_from_a_missing_table() {
    let mut catalog = InMemoryCatalogHandle::new();
    catalog.create_schema("schema");
    catalog.work_with("schema", |schema| schema.create_table("table"));

    let len = |table: &mut InMemoryTableHandle| table.len();
    assert_eq!(catalog.work_with("nowhere", |schema| schema.work_with("table", len)), None);
    assert_eq!(catalog.work_with("schema", |schema| schema.work_with("nothing", len)), Some(None));
    assert_eq!(catalog.work_with("schema", |schema| schema.work_with("table", len)), Some(Some(0)));
}

#[test]
fn what_work_with_does_to_a_table_stays_done() {
    let mut catalog = InMemoryCatalogHandle::new();
    catalog.create_schema("schema");
    catalog.work_with("schema", |schema| schema.create_table("table"));
    catalog.work_with("schema", |schema| {
        schema.work_with("table", |table| table.insert(vec![row(1), row(2)]))
    });

    assert_eq!(
        catalog.table("schema", "table").map(|table| table.select()),
        Some(vec![(key(0), row(1)), (key(1), row(2))])
    );
    assert!(catalog.table("schema", "nothing").is_none());
    assert!(catalog.table("nowhere", "table").is_none());
}

#[test]
fn a_fresh_table_gives_keys_that_ascend() {
    let mut table = InMemoryTableHandle::new();
    let rows: Vec<Binary> = (0..300).map(row).collect();

    let keys = table.insert(rows.clone());

    assert_eq!(keys.len(), 300);
    for pair in keys.windows(2) {
        assert!(pair[0].to_bytes() < pair[1].to_bytes());
    }
    assert_eq!(keys, (0..300).map(key).collect::<Vec<_>>());
    assert_eq!(table.select(), keys.into_iter().zip(rows).collect::<Vec<_>>());
    assert_eq!(table.len(), 300);
    assert_eq!(table.room(), u64::MAX - 300);
}

#[test]
fn a_key_named_twice_is_deleted_once() {
    let mut table = InMemoryTableHandle::new();
    table.insert(vec![row(1), row(2), row(3)]);

    assert_eq!(table.delete(vec![key(1), key(1), key(7)]), 1);
    assert_eq!(table.delete(vec![key(1)]), 0);
    assert_eq!(table.select(), vec![(key(0), row(1)), (key(2), row(3))]);
}

#[test]
fn an_update_replaces_the_values_of_its_keys() {
    let mut table = InMemoryTableHandle::new();
    table.insert(vec![row(1), row(2)]);

    assert_eq!(table.update(vec![(key(1), row(20)), (key(0), row(10)), (key(1), row(21))]), 3);
    assert_eq!(table.select(), vec![(key(0), row(10)), (key(1), row(21))]);
    assert_eq!(table.update(vec![]), 0);
}

#[test]
fn ids_are_not_given_out_again_after_a_delete() {
    let mut table = InMemoryTableHandle::new();
    table.insert(vec![row(1)]);
    table.delete(vec![key(0)]);

    assert_eq!(table.insert(vec![row(2)]), vec![key(1)]);
    assert_eq!(table.select(), vec![(key(1), row(2))]);
}

#[test]
fn column_ordinals_are_given_out_in_turn() {
    let mut table = InMemoryTableHandle::new();
    assert_eq!(table.next_column_ord(), 0);
    assert_eq!(table.next_column_ord(), 1);
    assert_eq!(table.select(), vec![]);
}

#[test]
fn an_index_is_created_empty_and_once() {
    let mut schema = InMemorySchemaHandle::new();
    assert!(schema.empty());
    schema.create_table("table");
    assert!(!schema.empty());
    assert_eq!(schema.all_tables(), vec!["table".to_owned()]);

    schema.work_with("table", |table| table.insert(vec![row(1)]));
    assert!(schema.create_index("table", "index", 0));
    assert!(!schema.create_index("nothing", "index", 0));

    let table = schema.table_mut("table").expect("table exists");
    let index = table.index("index").expect("index exists");
    assert!(index.over(0));
    assert!(!index.over(1));
    assert_eq!(index.select(), vec![]);
    assert!(table.index("other").is_none());
}

#[test]
fn an_index_keeps_its_entries_in_the_order_of_the_values() {
    let mut index = InMemoryIndex::new(2);
    index.insert(row(5), key(0));
    index.insert(row(3), key(1));
    index.insert(row(5), key(2));

    assert!(index.over(2));
    assert_eq!(index.select(), vec![(row(3), key(1)), (row(5), key(2))]);
}

#[test]
fn schemas_and_tables_are_changed_in_place() {
    let mut catalog = InMemoryCatalogHandle::new();
    catalog.create_schema("schema");
    assert!(catalog.schema_mut("nowhere").is_none());
    catalog.schema_mut("schema").expect("schema exists").create_table("table");
    assert!(catalog.table_mut("schema", "nothing").is_none());
    assert!(catalog.table_mut("nowhere", "table").is_none());
    catalog.table_mut("schema", "table").expect("table exists").insert(vec![row(9)]);
    assert_eq!(
        catalog.work_with("schema", |schema| schema.work_with("table", |table| table.select())),
        Some(Some(vec![(key(0), row(9))]))
    );
    assert!(catalog.drop_schema("schema"));
    assert!(catalog.table("schema", "table").is_none());
}
