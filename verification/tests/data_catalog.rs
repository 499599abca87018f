use relational_db::binary::{Binary, Datum};
use relational_db::storage::InMemoryCatalogHandle;

const SCHEMA: &str = "schema_name";
const SCHEMA_1: &str = "schema_name_1";
const SCHEMA_2: &str = "schema_name_2";
const TABLE: &str = "table_name";
const TABLE_1: &str = "table_name_1";
const TABLE_2: &str = "table_name_2";
const DOES_NOT_EXIST: &str = "does_not_exist";

fn catalog() -> InMemoryCatalogHandle {
    InMemoryCatalogHandle::new()
}

#[test]
fn data_catalog_create_schemas_with_different_names() {
    let mut catalog_handle = catalog();

    assert_eq!(catalog_handle.create_schema(SCHEMA_1), true);
    assert_eq!(catalog_handle.work_with(SCHEMA_1, |_schema| 1), Some(1));
    assert_eq!(catalog_handle.create_schema(SCHEMA_2), true);
    assert_eq!(catalog_handle.work_with(SCHEMA_2, |_schema| 2), Some(2));
}

#[test]
fn data_catalog_drop_schema() {
    let mut catalog_handle = catalog();

    assert!(catalog_handle.create_schema(SCHEMA));
    assert_eq!(catalog_handle.drop_schema(SCHEMA), true);
    assert!(matches!(catalog_handle.work_with(SCHEMA, |_schema| 1), None));
    assert_eq!(catalog_handle.create_schema(SCHEMA), true);
    assert!(matches!(catalog_handle.work_with(SCHEMA, |_schema| 1), Some(1)));
}

#[test]
fn dropping_schema_drops_tables_in_it() {
    let mut catalog_handle = catalog();

    assert_eq!(catalog_handle.create_schema(SCHEMA), true);

    assert_eq!(
        catalog_handle.work_with(SCHEMA, |schema| schema.create_table(TABLE_1)),
        Some(true)
    );
    assert_eq!(
        catalog_handle.work_with(SCHEMA, |schema| schema.create_table(TABLE_2)),
        Some(true)
    );

    assert_eq!(catalog_handle.drop_schema(SCHEMA), true);
    assert_eq!(catalog_handle.create_schema(SCHEMA), true);
    assert_eq!(
        catalog_handle.work_with(SCHEMA, |schema| schema.create_table(TABLE_1)),
        Some(true)
    );
    assert_eq!(
        catalog_handle.work_with(SCHEMA, |schema| schema.create_table(TABLE_2)),
        Some(true)
    );
}

#[test]
fn create_schema_with_the_same_name() {
    let mut catalog_handle = catalog();

    assert_eq!(catalog_handle.create_schema(SCHEMA), true);
    assert_eq!(catalog_handle.create_schema(SCHEMA), false);
}

#[test]
fn drop_schema_that_does_not_exist() {
    let mut catalog_handle = catalog();

    assert_eq!(catalog_handle.drop_schema(SCHEMA), false);
}

#[test]
fn data_catalog_create_tables_with_different_names() {
    let mut catalog_handle = catalog();

    assert_eq!(catalog_handle.create_schema(SCHEMA), true);

    assert_eq!(
        catalog_handle.work_with(SCHEMA, |schema| schema.create_table(TABLE_1)),
        Some(true)
    );
    assert_eq!(
        catalog_handle.work_with(SCHEMA, |schema| schema.create_table(TABLE_2)),
        Some(true)
    );
}

#[test]
fn create_tables_with_the_same_name_in_the_same_schema() {
    let mut catalog_handle = catalog();

    assert_eq!(catalog_handle.create_schema(SCHEMA), true);
    assert_eq!(
        catalog_handle.work_with(SCHEMA, |schema| schema.create_table(TABLE)),
        Some(true)
    );
    assert_eq!(
        catalog_handle.work_with(SCHEMA, |schema| schema.create_table(TABLE)),
        Some(false)
    );
}

#[test]
fn create_tables_in_non_existent_schema() {
    let mut catalog_handle = catalog();

    assert_eq!(
        catalog_handle.work_with(DOES_NOT_EXIST, |schema| schema.create_table(TABLE)),
        None
    );
}

#[test]
fn create_table_with_the_same_name_in_different_namespaces() {
    let mut catalog_handle = catalog();

    assert_eq!(catalog_handle.create_schema(SCHEMA_1), true);
    assert_eq!(catalog_handle.create_schema(SCHEMA_2), true);

    assert_eq!(
        catalog_handle.work_with(SCHEMA_1, |schema| schema.create_table(TABLE)),
        Some(true)
    );
    assert_eq!(
        catalog_handle.work_with(SCHEMA_2, |schema| schema.create_table(TABLE)),
        Some(true)
    );
}

#[test]
fn data_catalog_drop_table() {
    let mut catalog_handle = catalog();

    assert_eq!(catalog_handle.create_schema(SCHEMA), true);

    assert_eq!(
        catalog_handle.work_with(SCHEMA, |schema| schema.create_table(TABLE)),
        Some(true)
    );
    assert_eq!(
        catalog_handle.work_with(SCHEMA, |schema| schema.drop_table(TABLE)),
        Some(true)
    );
}

#[test]
fn drop_table_from_schema_that_does_not_exist() {
    let mut catalog_handle = catalog();

    assert_eq!(
        catalog_handle.work_with(DOES_NOT_EXIST, |schema| schema.drop_table(TABLE)),
        None
    );
}

#[test]
fn drop_table_that_does_not_exist() {
    let mut catalog_handle = catalog();

    assert_eq!(catalog_handle.create_schema(SCHEMA), true);
    assert_eq!(
        catalog_handle.work_with(SCHEMA, |s| s.drop_table(DOES_NOT_EXIST)),
        Some(false)
    );
}

#[test]
fn scan_table_that_in_schema_that_does_not_exist() {
    let mut catalog_handle = catalog();

    assert!(matches!(
        catalog_handle.work_with(DOES_NOT_EXIST, |schema| schema.work_with(TABLE, |table| table.select())),
        None
    ));
}

#[test]
fn scan_table_that_does_not_exist() {
    let mut catalog_handle = catalog();

    assert_eq!(catalog_handle.create_schema(SCHEMA), true);
    assert!(matches!(
        catalog_handle.work_with(SCHEMA, |schema| schema
            .work_with(DOES_NOT_EXIST, |table| table.select())),
        Some(None)
    ));
}

#[test]
fn insert_a_row_into_table_in_schema_that_does_not_exist() {
    let mut catalog_handle = catalog();

    assert_eq!(
        catalog_handle.work_with(SCHEMA, |schema| schema.work_with(TABLE, |table| table.insert(vec![]))),
        None
    );
}

#[test]
fn insert_a_row_into_table_that_does_not_exist() {
    let mut catalog_handle = catalog();

    assert_eq!(catalog_handle.create_schema(SCHEMA), true);

    assert_eq!(
        catalog_handle.work_with(SCHEMA, |schema| schema.work_with(TABLE, |table| table.insert(vec![]))),
        Some(None)
    );
}

#[test]
fn insert_row_into_table_and_scan() {
    let mut catalog_handle = catalog();

    assert_eq!(catalog_handle.create_schema(SCHEMA), true);
    assert_eq!(
        catalog_handle.work_with(SCHEMA, |schema| schema.create_table(TABLE)),
        Some(true)
    );

    assert_eq!(
        catalog_handle.work_with(SCHEMA, |schema| schema
            .work_with(TABLE, |table| table.insert(vec![Binary::pack(&[Datum::from_u64(1)])]))),
        Some(Some(vec![Binary::pack(&[Datum::from_u64(0)])]))
    );

    assert_eq!(
        catalog_handle
            .work_with(SCHEMA, |schema| schema.work_with(TABLE, |table| table.select()))
            .unwrap()
            .unwrap(),
        vec![(Binary::pack(&[Datum::from_u64(0)]), Binary::pack(&[Datum::from_u64(1)]))]
    );
}

#[test]
fn insert_many_rows_into_table_and_scan() {
    let mut catalog_handle = catalog();

    assert_eq!(catalog_handle.create_schema(SCHEMA), true);
    assert_eq!(
        catalog_handle.work_with(SCHEMA, |schema| schema.create_table(TABLE)),
        Some(true)
    );

    assert_eq!(
        catalog_handle.work_with(SCHEMA, |schema| schema.work_with(TABLE, |table| table.insert(vec![
            Binary::pack(&[Datum::from_u64(1)]),
            Binary::pack(&[Datum::from_u64(2)])
        ]))),
        Some(Some(vec![
            Binary::pack(&[Datum::from_u64(0)]),
            Binary::pack(&[Datum::from_u64(1)])
        ]))
    );

    assert_eq!(
        catalog_handle
            .work_with(SCHEMA, |schema| schema.work_with(TABLE, |table| table.select()))
            .unwrap()
            .unwrap(),
        vec![
            (Binary::pack(&[Datum::from_u64(0)]), Binary::pack(&[Datum::from_u64(1)])),
            (Binary::pack(&[Datum::from_u64(1)]), Binary::pack(&[Datum::from_u64(2)]))
        ]
    );
}

#[test]
fn delete_from_table_that_in_schema_that_does_not_exist() {
    let mut catalog_handle = catalog();

    assert_eq!(
        catalog_handle.work_with(DOES_NOT_EXIST, |schema| schema
            .work_with(TABLE, |table| table.delete(vec![]))),
        None
    );
}

#[test]
fn delete_from_table_that_does_not_exist() {
    let mut catalog_handle = catalog();

    assert_eq!(catalog_handle.create_schema(SCHEMA), true);
    assert_eq!(
        catalog_handle.work_with(SCHEMA, |schema| schema
            .work_with(DOES_NOT_EXIST, |table| table.delete(vec![]))),
        Some(None)
    );
}

#[test]
fn insert_delete_scan_records_from_table() {
    let mut catalog_handle = catalog();

    assert_eq!(catalog_handle.create_schema(SCHEMA), true);
    assert_eq!(
        catalog_handle.work_with(SCHEMA, |schema| schema.create_table(TABLE)),
        Some(true)
    );

    assert_eq!(
        catalog_handle.work_with(SCHEMA, |schema| schema.work_with(TABLE, |table| table.insert(vec![
            Binary::pack(&[Datum::from_u64(1)]),
            Binary::pack(&[Datum::from_u64(2)])
        ]))),
        Some(Some(vec![
            Binary::pack(&[Datum::from_u64(0)]),
            Binary::pack(&[Datum::from_u64(1)])
        ]))
    );

    assert_eq!(
        catalog_handle.work_with(SCHEMA, |schema| schema
            .work_with(TABLE, |table| table.delete(vec![Binary::pack(&[Datum::from_u64(1)])]))),
        Some(Some(1))
    );

    assert_eq!(
        catalog_handle
            .work_with(SCHEMA, |schema| schema.work_with(TABLE, |table| table.select()))
            .unwrap()
            .unwrap(),
        vec![(Binary::pack(&[Datum::from_u64(0)]), Binary::pack(&[Datum::from_u64(1)]))]
    );
}

#[test]
fn update_table_that_in_schema_that_does_not_exist() {
    let mut catalog_handle = catalog();

    assert_eq!(
        catalog_handle.work_with(DOES_NOT_EXIST, |schema| schema
            .work_with(TABLE, |table| table.update(vec![]))),
        None
    );
}

#[test]
fn update_table_that_does_not_exist() {
    let mut catalog_handle = catalog();

    assert_eq!(catalog_handle.create_schema(SCHEMA), true);
    assert_eq!(
        catalog_handle.work_with(SCHEMA, |schema| schema
            .work_with(DOES_NOT_EXIST, |table| table.update(vec![]))),
        Some(None)
    );
}

#[test]
fn insert_update_scan_records_from_table() {
    let mut catalog_handle = catalog();

    assert_eq!(catalog_handle.create_schema(SCHEMA), true);
    assert_eq!(
        catalog_handle.work_with(SCHEMA, |schema| schema.create_table(TABLE)),
        Some(true)
    );

    assert_eq!(
        catalog_handle.work_with(SCHEMA, |schema| schema.work_with(TABLE, |table| table.insert(vec![
            Binary::pack(&[Datum::from_u64(1)]),
            Binary::pack(&[Datum::from_u64(2)])
        ]))),
        Some(Some(vec![
            Binary::pack(&[Datum::from_u64(0)]),
            Binary::pack(&[Datum::from_u64(1)])
        ]))
    );

    assert_eq!(
        catalog_handle.work_with(SCHEMA, |schema| schema.work_with(TABLE, |table| table.update(vec![(
            Binary::pack(&[Datum::from_u64(1)]),
            Binary::pack(&[Datum::from_u64(4)])
        )]))),
        Some(Some(1))
    );

    assert_eq!(
        catalog_handle
            .work_with(SCHEMA, |schema| schema.work_with(TABLE, |table| table.select()))
            .unwrap()
            .unwrap(),
        vec![
            (Binary::pack(&[Datum::from_u64(0)]), Binary::pack(&[Datum::from_u64(1)])),
            (Binary::pack(&[Datum::from_u64(1)]), Binary::pack(&[Datum::from_u64(4)])),
        ]
    );
}
