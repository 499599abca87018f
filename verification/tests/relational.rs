use relational_db::persistent::PersistentStorage;
use relational_db::relational::{Error, RelationalStorage};

type Result<T> = std::result::Result<T, Error>;

#[test]
fn relational_create_schemas_with_different_names() {
    let mut storage = RelationalStorage::default();

    assert_eq!(storage.create_schema("schema_1".to_owned()), Ok(()));
    assert_eq!(storage.create_schema("schema_2".to_owned()), Ok(()));
}

#[test]
fn create_schema_with_existing_name() -> Result<()> {
    let mut storage = RelationalStorage::default();

    storage.create_schema("schema_name".to_owned())?;

    assert_eq!(
        storage.create_schema("schema_name".to_owned()),
        Err(Error::SchemaAlreadyExists("schema_name".to_owned()))
    );

    Ok(())
}

#[test]
fn relational_drop_schema() -> Result<()> {
    let mut storage = RelationalStorage::default();

    storage.create_schema("schema_name".to_owned())?;

    assert_eq!(storage.drop_schema("schema_name".to_owned()), Ok(()));
    assert_eq!(storage.create_schema("schema_name".to_owned()), Ok(()));

    Ok(())
}

#[test]
fn drop_schema_that_was_not_created() {
    let mut storage = RelationalStorage::default();

    assert_eq!(
        storage.drop_schema("does_not_exists".to_owned()),
        Err(Error::SchemaDoesNotExist("does_not_exists".to_owned()))
    );
}

#[test]
fn drop_schema_drops_tables_in_it() -> Result<()> {
    let mut storage = RelationalStorage::default();

    storage.create_schema("schema_name".to_owned())?;
    storage.create_table(
        "schema_name".to_owned(),
        "table_name_1".to_owned(),
        vec!["column_test".to_owned()],
    )?;
    storage.create_table(
        "schema_name".to_owned(),
        "table_name_2".to_owned(),
        vec!["column_test".to_owned()],
    )?;

    assert_eq!(storage.drop_schema("schema_name".to_owned()), Ok(()));
    assert_eq!(storage.create_schema("schema_name".to_owned()), Ok(()));
    assert_eq!(
        storage.create_table(
            "schema_name".to_owned(),
            "table_name_1".to_owned(),
            vec!["column_test".to_owned()]
        ),
        Ok(())
    );
    assert_eq!(
        storage.create_table(
            "schema_name".to_owned(),
            "table_name_2".to_owned(),
            vec!["column_test".to_owned()]
        ),
        Ok(())
    );

    Ok(())
}

#[test]
fn relational_create_tables_with_different_names() -> Result<()> {
    let mut storage = RelationalStorage::default();

    storage.create_schema("schema_name".to_owned())?;

    assert_eq!(
        storage.create_table(
            "schema_name".to_owned(),
            "table_name_1".to_owned(),
            vec!["column_test".to_owned()]
        ),
        Ok(())
    );
    assert_eq!(
        storage.create_table(
            "schema_name".to_owned(),
            "table_name_2".to_owned(),
            vec!["column_test".to_owned()]
        ),
        Ok(())
    );

    Ok(())
}

#[test]
fn create_table_with_the_same_name() -> Result<()> {
    let mut storage = RelationalStorage::default();

    create_table(
        &mut storage,
        "schema_name",
        "table_name",
        vec!["column_test"],
    )?;

    assert_eq!(
        storage.create_table(
            "schema_name".to_owned(),
            "table_name".to_owned(),
            vec!["column_test".to_owned()]
        ),
        Err(Error::TableAlreadyExists(
            "schema_name.table_name".to_owned()
        ))
    );
    Ok(())
}

#[test]
fn create_table_with_the_same_name_in_different_schemas() -> Result<()> {
    let mut storage = RelationalStorage::default();

    storage.create_schema("schema_name_1".to_owned())?;
    storage.create_schema("schema_name_2".to_owned())?;
    assert_eq!(
        storage.create_table(
            "schema_name_1".to_owned(),
            "table_name".to_owned(),
            vec!["column_test".to_owned()]
        ),
        Ok(())
    );
    assert_eq!(
        storage.create_table(
            "schema_name_2".to_owned(),
            "table_name".to_owned(),
            vec!["column_test".to_owned()]
        ),
        Ok(())
    );
    Ok(())
}

#[test]
fn relational_drop_table() -> Result<()> {
    let mut storage = RelationalStorage::default();

    create_table(
        &mut storage,
        "schema_name",
        "table_name",
        vec!["column_test"],
    )?;
    assert_eq!(
        storage.drop_table("schema_name".to_owned(), "table_name".to_owned()),
        Ok(())
    );
    assert_eq!(
        storage.create_table(
            "schema_name".to_owned(),
            "table_name".to_owned(),
            vec!["column_test".to_owned()]
        ),
        Ok(())
    );
    Ok(())
}

#[test]
fn drop_not_created_table() -> Result<()> {
    let mut storage = RelationalStorage::default();

    storage.create_schema("schema_name".to_owned())?;
    assert_eq!(
        storage.drop_table("schema_name".to_owned(), "not_existed_table".to_owned()),
        Err(Error::TableDoesNotExist(
            "schema_name.not_existed_table".to_owned()
        ))
    );

    Ok(())
}

#[test]
fn insert_row_into_table() -> Result<()> {
    let mut storage = RelationalStorage::default();

    create_table(
        &mut storage,
        "schema_name",
        "table_name",
        vec!["column_test"],
    )?;
    assert_eq!(
        storage.insert_into(
            "schema_name".to_owned(),
            "table_name".to_owned(),
            vec![vec!["123".to_owned()]],
        ),
        Ok(())
    );

    let table_columns =
        storage.table_columns("schema_name".to_owned(), "table_name".to_owned())?;

    assert_eq!(
        storage.select_all_from(
            "schema_name".to_owned(),
            "table_name".to_owned(),
            table_columns
        ),
        Ok((vec!["column_test".to_owned()], vec![vec!["123".to_owned()]]))
    );

    Ok(())
}

#[test]
fn insert_many_rows_into_table() -> Result<()> {
    let mut storage = RelationalStorage::default();

    create_table(
        &mut storage,
        "schema_name",
        "table_name",
        vec!["column_test"],
    )?;
    storage.insert_into(
        "schema_name".to_owned(),
        "table_name".to_owned(),
        vec![vec!["123".to_owned()]],
    )?;
    storage.insert_into(
        "schema_name".to_owned(),
        "table_name".to_owned(),
        vec![vec!["456".to_owned()]],
    )?;

    let table_columns =
        storage.table_columns("schema_name".to_owned(), "table_name".to_owned())?;

    assert_eq!(
        storage.select_all_from(
            "schema_name".to_owned(),
            "table_name".to_owned(),
            table_columns
        ),
        Ok((
            vec!["column_test".to_owned()],
            vec![vec!["123".to_owned()], vec!["456".to_owned()]]
        ))
    );

    Ok(())
}

#[test]
fn insert_into_non_existent_table() -> Result<()> {
    let mut storage = RelationalStorage::default();

    storage.create_schema("schema_name".to_owned())?;
    assert_eq!(
        storage.insert_into(
            "schema_name".to_owned(),
            "not_existed".to_owned(),
            vec![vec!["123".to_owned()]],
        ),
        Err(Error::TableDoesNotExist(
            "schema_name.not_existed".to_owned()
        ))
    );

    Ok(())
}

#[test]
fn select_from_table_that_does_not_exist() -> Result<()> {
    let mut storage = RelationalStorage::default();

    storage.create_schema("schema_name".to_owned())?;
    assert_eq!(
        storage.table_columns("schema_name".to_owned(), "not_existed".to_owned()),
        Err(Error::TableDoesNotExist(
            "schema_name.not_existed".to_owned()
        ))
    );

    Ok(())
}

#[test]
fn update_all_records() -> Result<()> {
    let mut storage = RelationalStorage::default();

    create_table(
        &mut storage,
        "schema_name",
        "table_name",
        vec!["column_test"],
    )?;
    storage.insert_into(
        "schema_name".to_owned(),
        "table_name".to_owned(),
        vec![vec!["123".to_owned()]],
    )?;
    storage.insert_into(
        "schema_name".to_owned(),
        "table_name".to_owned(),
        vec![vec!["456".to_owned()]],
    )?;
    storage.insert_into(
        "schema_name".to_owned(),
        "table_name".to_owned(),
        vec![vec!["789".to_owned()]],
    )?;

    assert_eq!(
        storage.update_all(
            "schema_name".to_owned(),
            "table_name".to_owned(),
            "567".to_owned()
        ),
        Ok(3)
    );

    let table_columns =
        storage.table_columns("schema_name".to_owned(), "table_name".to_owned())?;

    assert_eq!(
        storage.select_all_from(
            "schema_name".to_owned(),
            "table_name".to_owned(),
            table_columns
        ),
        Ok((
            vec!["column_test".to_owned()],
            vec![
                vec!["567".to_owned()],
                vec!["567".to_owned()],
                vec!["567".to_owned()]
            ]
        ))
    );

    Ok(())
}

#[test]
fn update_not_existed_table() -> Result<()> {
    let mut storage = RelationalStorage::default();

    storage.create_schema("schema_name".to_owned())?;
    assert_eq!(
        storage.update_all(
            "schema_name".to_owned(),
            "not_existed".to_owned(),
            "123".to_owned()
        ),
        Err(Error::TableDoesNotExist(
            "schema_name.not_existed".to_owned()
        ))
    );

    Ok(())
}

#[test]
fn delete_all_from_table() -> Result<()> {
    let mut storage = RelationalStorage::default();

    create_table(
        &mut storage,
        "schema_name",
        "table_name",
        vec!["column_test"],
    )?;
    storage.insert_into(
        "schema_name".to_owned(),
        "table_name".to_owned(),
        vec![vec!["123".to_owned()]],
    )?;
    storage.insert_into(
        "schema_name".to_owned(),
        "table_name".to_owned(),
        vec![vec!["456".to_owned()]],
    )?;
    storage.insert_into(
        "schema_name".to_owned(),
        "table_name".to_owned(),
        vec![vec!["789".to_owned()]],
    )?;

    assert_eq!(
        storage.delete_all_from("schema_name".to_owned(), "table_name".to_owned()),
        Ok(3)
    );

    let table_columns =
        storage.table_columns("schema_name".to_owned(), "table_name".to_owned())?;

    assert_eq!(
        storage.select_all_from(
            "schema_name".to_owned(),
            "table_name".to_owned(),
            table_columns
        ),
        Ok((vec!["column_test".to_owned()], vec![]))
    );

    Ok(())
}

#[test]
fn delete_all_from_not_existed_table() -> Result<()> {
    let mut storage = RelationalStorage::default();

    storage.create_schema("schema_name".to_owned())?;

    assert_eq!(
        storage.delete_all_from("schema_name".to_owned(), "table_name".to_owned()),
        Err(Error::TableDoesNotExist(
            "schema_name.table_name".to_owned()
        ))
    );

    Ok(())
}

#[test]
fn select_all_from_table_with_many_columns() -> Result<()> {
    let mut storage = RelationalStorage::default();

    create_table(
        &mut storage,
        "schema_name",
        "table_name",
        vec!["column_1", "column_2", "column_3"],
    )?;
    storage.insert_into(
        "schema_name".to_owned(),
        "table_name".to_owned(),
        vec![vec!["1".to_owned(), "2".to_owned(), "3".to_owned()]],
    )?;

    let table_columns =
        storage.table_columns("schema_name".to_owned(), "table_name".to_owned())?;

    assert_eq!(
        storage.select_all_from(
            "schema_name".to_owned(),
            "table_name".to_owned(),
            table_columns
        ),
        Ok((
            vec![
                "column_1".to_owned(),
                "column_2".to_owned(),
                "column_3".to_owned()
            ],
            vec![vec!["1".to_owned(), "2".to_owned(), "3".to_owned()]]
        ))
    );

    Ok(())
}

#[test]
fn insert_multiple_rows() -> Result<()> {
    let mut storage = RelationalStorage::default();

    create_table(
        &mut storage,
        "schema_name",
        "table_name",
        vec!["column_1", "column_2", "column_3"],
    )?;
    storage.insert_into(
        "schema_name".to_owned(),
        "table_name".to_owned(),
        vec![
            vec!["1".to_owned(), "2".to_owned(), "3".to_owned()],
            vec!["4".to_owned(), "5".to_owned(), "6".to_owned()],
            vec!["7".to_owned(), "8".to_owned(), "9".to_owned()],
        ],
    )?;

    let table_columns =
        storage.table_columns("schema_name".to_owned(), "table_name".to_owned())?;

    assert_eq!(
        storage.select_all_from(
            "schema_name".to_owned(),
            "table_name".to_owned(),
            table_columns
        ),
        Ok((
            vec![
                "column_1".to_owned(),
                "column_2".to_owned(),
                "column_3".to_owned()
            ],
            vec![
                vec!["1".to_owned(), "2".to_owned(), "3".to_owned()],
                vec!["4".to_owned(), "5".to_owned(), "6".to_owned()],
                vec!["7".to_owned(), "8".to_owned(), "9".to_owned()],
            ],
        ))
    );

    Ok(())
}

#[test]
fn select_first_and_last_columns_from_table_with_multiple_columns() -> Result<()> {
    let mut storage = RelationalStorage::default();

    create_table(
        &mut storage,
        "schema_name",
        "table_name",
        vec!["first", "middle", "last"],
    )?;
    storage.insert_into(
        "schema_name".to_owned(),
        "table_name".to_owned(),
        vec![
            vec!["1".to_owned(), "2".to_owned(), "3".to_owned()],
            vec!["4".to_owned(), "5".to_owned(), "6".to_owned()],
            vec!["7".to_owned(), "8".to_owned(), "9".to_owned()],
        ],
    )?;

    assert_eq!(
        storage.select_all_from(
            "schema_name".to_owned(),
            "table_name".to_owned(),
            vec!["first".to_owned(), "last".to_owned()]
        ),
        Ok((
            vec!["first".to_owned(), "last".to_owned(),],
            vec![
                vec!["1".to_owned(), "3".to_owned()],
                vec!["4".to_owned(), "6".to_owned()],
                vec!["7".to_owned(), "9".to_owned()],
            ],
        ))
    );

    Ok(())
}

#[test]
fn select_all_columns_reordered_from_table_with_multiple_columns() -> Result<()> {
    let mut storage = RelationalStorage::default();

    create_table(
        &mut storage,
        "schema_name",
        "table_name",
        vec!["first", "middle", "last"],
    )?;
    storage.insert_into(
        "schema_name".to_owned(),
        "table_name".to_owned(),
        vec![
            vec!["1".to_owned(), "2".to_owned(), "3".to_owned()],
            vec!["4".to_owned(), "5".to_owned(), "6".to_owned()],
            vec!["7".to_owned(), "8".to_owned(), "9".to_owned()],
        ],
    )?;

    assert_eq!(
        storage.select_all_from(
            "schema_name".to_owned(),
            "table_name".to_owned(),
            vec!["last".to_owned(), "first".to_owned(), "middle".to_owned()]
        ),
        Ok((
            vec!["last".to_owned(), "first".to_owned(), "middle".to_owned()],
            vec![
                vec!["3".to_owned(), "1".to_owned(), "2".to_owned()],
                vec!["6".to_owned(), "4".to_owned(), "5".to_owned()],
                vec!["9".to_owned(), "7".to_owned(), "8".to_owned()],
            ],
        ))
    );

    Ok(())
}

#[test]
fn select_with_column_name_duplication() -> Result<()> {
    let mut storage = RelationalStorage::default();

    create_table(
        &mut storage,
        "schema_name",
        "table_name",
        vec!["first", "middle", "last"],
    )?;
    storage.insert_into(
        "schema_name".to_owned(),
        "table_name".to_owned(),
        vec![
            vec!["1".to_owned(), "2".to_owned(), "3".to_owned()],
            vec!["4".to_owned(), "5".to_owned(), "6".to_owned()],
            vec!["7".to_owned(), "8".to_owned(), "9".to_owned()],
        ],
    )?;

    assert_eq!(
        storage.select_all_from(
            "schema_name".to_owned(),
            "table_name".to_owned(),
            vec![
                "last".to_owned(),
                "middle".to_owned(),
                "first".to_owned(),
                "last".to_owned(),
                "middle".to_owned()
            ]
        ),
        Ok((
            vec![
                "last".to_owned(),
                "middle".to_owned(),
                "first".to_owned(),
                "last".to_owned(),
                "middle".to_owned()
            ],
            vec![
                vec![
                    "3".to_owned(),
                    "2".to_owned(),
                    "1".to_owned(),
                    "3".to_owned(),
                    "2".to_owned()
                ],
                vec![
                    "6".to_owned(),
                    "5".to_owned(),
                    "4".to_owned(),
                    "6".to_owned(),
                    "5".to_owned()
                ],
                vec![
                    "9".to_owned(),
                    "8".to_owned(),
                    "7".to_owned(),
                    "9".to_owned(),
                    "8".to_owned()
                ],
            ],
        ))
    );

    Ok(())
}

fn create_table<P: PersistentStorage>(
    storage: &mut RelationalStorage<P>,
    schema_name: &str,
    table_name: &str,
    column_names: Vec<&str>,
) -> Result<()> {
    storage.create_schema(schema_name.to_owned())?;
    storage.create_table(
        schema_name.to_owned(),
        table_name.to_owned(),
        column_names
            .iter()
            .map(ToString::to_string)
            .collect::<Vec<String>>(),
    )
}
