use relational_db::binary::{Binary, Datum};
use relational_db::catalog_manager::{
    join, split, CatalogManager, Object, Operation, SystemError,
};
use relational_db::in_memory::{InMemoryDatabase, InMemoryTree};
use relational_db::metadata::DataDefinition;
use relational_db::on_disk::OnDiskDatabase;
use relational_db::operators::{
    BiArithmetic, BiLogical, BiOperator, Bitwise, Comparison, Concat, Matching, OperationMapper,
    UnArithmetic, UnOperator,
};
use relational_db::persistent::{InMemoryStorage, PersistentStorage};
use relational_db::sql_ast::{BinaryOperator, UnaryOperator};
use relational_db::sql_model::{ColumnDefinition, ColumnType};

fn catalog() -> CatalogManager<InMemoryStorage> {
    CatalogManager::new(InMemoryStorage::new()).expect("a new store takes a catalog")
}

fn table_bug(operation: Operation, schema: &str, table: &str) -> SystemError {
    SystemError::bug_in_sql_engine(operation, Object::Table(schema.to_owned(), table.to_owned()))
}

fn schema_bug(operation: Operation, schema: &str) -> SystemError {
    SystemError::bug_in_sql_engine(operation, Object::Schema(schema.to_owned()))
}

#[test]
fn pieces_are_joined_with_a_bar() {
    assert_eq!(join(&vec![]), Vec::<u8>::new());
    assert_eq!(join(&vec![b"ab".to_vec()]), b"ab".to_vec());
    assert_eq!(join(&vec![b"ab".to_vec(), b"c".to_vec(), b"def".to_vec()]), b"ab|c|def".to_vec());
    assert_eq!(join(&vec![vec![], vec![]]), b"|".to_vec());
}

#[test]
fn bytes_are_split_at_bars_without_empty_pieces() {
    assert_eq!(split(&b"ab|c|def".to_vec()), vec![b"ab".to_vec(), b"c".to_vec(), b"def".to_vec()]);
    assert_eq!(split(&b"||ab||c|".to_vec()), vec![b"ab".to_vec(), b"c".to_vec()]);
    assert_eq!(split(&b"".to_vec()), Vec::<Vec<u8>>::new());
    assert_eq!(split(&b"|".to_vec()), Vec::<Vec<u8>>::new());
}

#[test]
fn pieces_without_bars_come_back_from_their_joined_bytes() {
    let parts = vec![b"one".to_vec(), vec![0, 1, 2], b"three".to_vec()];
    assert_eq!(split(&join(&parts)), parts);
}

#[test]
fn a_store_takes_one_catalog_only() {
    let mut storage = InMemoryStorage::new();
    storage.create_namespace("system").expect("namespace is created");
    assert_eq!(
        CatalogManager::new(storage).err(),
        Some(schema_bug(Operation::Create, "system"))
    );
}

#[test]
fn catalog_gives_out_ids_in_turn() {
    let mut catalog = catalog();
    assert_eq!(catalog.next_key_id(), 0);
    assert_eq!(catalog.next_key_id(), 1);
    assert_eq!(catalog.next_key_id(), 2);
}

#[test]
fn catalog_creates_and_drops_schemas() {
    let mut catalog = catalog();
    assert!(catalog.schema_exists("system"));
    assert!(!catalog.schema_exists("schema_name"));
    assert_eq!(catalog.create_schema("schema_name"), Ok(()));
    assert!(catalog.schema_exists("schema_name"));
    assert_eq!(
        catalog.create_schema("schema_name"),
        Err(schema_bug(Operation::Create, "schema_name"))
    );
    assert_eq!(catalog.drop_schema("schema_name"), Ok(()));
    assert!(!catalog.schema_exists("schema_name"));
    assert_eq!(catalog.drop_schema("schema_name"), Err(schema_bug(Operation::Drop, "schema_name")));
}

#[test]
fn catalog_describes_the_columns_of_a_table() {
    let mut catalog = catalog();
    catalog.create_schema("schema_name").expect("schema is created");
    let columns = vec![b"first".to_vec(), b"second".to_vec()];
    assert_eq!(catalog.create_table("schema_name", "table_name", &columns), Ok(()));
    assert!(catalog.table_exists("schema_name", "table_name"));
    assert_eq!(catalog.table_columns("schema_name", "table_name"), Ok(columns.clone()));
    assert_eq!(catalog.table_descriptor("schema_name", "table_name"), Ok(columns));
    assert_eq!(catalog.table_columns("schema_name", "other"), Ok(vec![]));
    assert_eq!(
        catalog.table_descriptor("schema_name", "other"),
        Err(table_bug(Operation::Access, "schema_name", "other"))
    );
    assert_eq!(
        catalog.table_scan("system", "columns"),
        Ok(vec![(b"schema_nametable_name".to_vec(), vec![b"first|second".to_vec()])])
    );
}

#[test]
fn catalog_refuses_a_table_twice_and_a_table_without_schema() {
    let mut catalog = catalog();
    assert_eq!(
        catalog.create_table("schema_name", "table_name", &vec![]),
        Err(table_bug(Operation::Create, "schema_name", "table_name"))
    );
    catalog.create_schema("schema_name").expect("schema is created");
    assert_eq!(catalog.create_table("schema_name", "table_name", &vec![]), Ok(()));
    assert_eq!(
        catalog.create_table("schema_name", "table_name", &vec![]),
        Err(table_bug(Operation::Create, "schema_name", "table_name"))
    );
    assert_eq!(catalog.drop_table("schema_name", "table_name"), Ok(()));
    assert_eq!(
        catalog.drop_table("schema_name", "table_name"),
        Err(table_bug(Operation::Drop, "schema_name", "table_name"))
    );
}

#[test]
fn catalog_writes_reads_and_deletes_rows() {
    let mut catalog = catalog();
    catalog.create_schema("schema_name").expect("schema is created");
    catalog.create_table("schema_name", "table_name", &vec![]).expect("table is created");
    let row = |key: u8, value: &str| (vec![key], vec![value.as_bytes().to_vec()]);
    assert_eq!(
        catalog.insert_into("schema_name", "table_name", vec![row(2, "two"), row(1, "one")]),
        Ok(2)
    );
    assert_eq!(
        catalog.table_scan("schema_name", "table_name"),
        Ok(vec![row(1, "one"), row(2, "two")])
    );
    assert_eq!(catalog.update_all("schema_name", "table_name", vec![row(1, "uno")]), Ok(1));
    assert_eq!(
        catalog.table_scan("schema_name", "table_name"),
        Ok(vec![row(1, "uno"), row(2, "two")])
    );
    assert_eq!(catalog.delete_all_from("schema_name", "table_name"), Ok(2));
    assert_eq!(catalog.table_scan("schema_name", "table_name"), Ok(vec![]));
    assert_eq!(catalog.delete_all_from("schema_name", "table_name"), Ok(0));
}

#[test]
fn catalog_reports_rows_of_a_missing_table() {
    let mut catalog = catalog();
    let bug = || Err(table_bug(Operation::Access, "schema_name", "table_name"));
    assert_eq!(catalog.insert_into("schema_name", "table_name", vec![]), bug());
    assert_eq!(catalog.update_all("schema_name", "table_name", vec![]), bug());
    assert_eq!(catalog.delete_all_from("schema_name", "table_name"), bug());
    assert_eq!(catalog.table_scan("schema_name", "table_name").map(|_| ()), bug().map(|_: usize| ()));
}

fn key(id: u64) -> Binary {
    Binary::pack(&[Datum::from_u64(id)])
}

fn value(text: &str) -> Binary {
    Binary::pack(&[Datum::from_string(text.to_owned())])
}

#[test]
fn a_new_database_describes_itself() {
    let mut database = InMemoryDatabase::create();
    let schemata = database.lookup_tree("DEFINITION_SCHEMA.SCHEMATA").expect("tree of schemas");
    assert_eq!(
        schemata.select(),
        vec![(
            key(0),
            Binary::pack(&[
                Datum::from_string("IN_MEMORY".to_owned()),
                Datum::from_string("public".to_owned())
            ])
        )]
    );
    assert_eq!(database.lookup_tree("DEFINITION_SCHEMA.TABLES").expect("tree of tables").select(), vec![]);
    assert_eq!(database.lookup_tree("DEFINITION_SCHEMA.COLUMNS").expect("tree of columns").select(), vec![]);
    assert!(database.lookup_tree("DEFINITION_SCHEMA.INDEXES").is_none());
}

#[test]
fn trees_are_created_replaced_and_dropped() {
    let mut database = InMemoryDatabase::create();
    database.create_tree("schema.table");
    database.lookup_tree("schema.table").expect("tree").insert(vec![value("a")]);
    assert_eq!(database.lookup_tree("schema.table").expect("tree").select().len(), 1);
    database.create_tree("schema.table");
    assert_eq!(database.lookup_tree("schema.table").expect("tree").select().len(), 0);
    database.drop_tree("schema.table");
    assert!(database.lookup_tree("schema.table").is_none());
    database.drop_tree("schema.table");
}

#[test]
fn a_tree_numbers_the_records_it_is_given() {
    let mut tree = InMemoryTree::with_name("tree".to_owned());
    assert_eq!(tree.insert(vec![value("a"), value("b")]), vec![key(0), key(1)]);
    assert_eq!(tree.insert(vec![value("c")]), vec![key(2)]);
    assert_eq!(
        tree.select(),
        vec![(key(0), value("a")), (key(1), value("b")), (key(2), value("c"))]
    );
}

#[test]
fn a_tree_takes_records_under_keys_of_the_caller() {
    let mut tree = InMemoryTree::with_name("tree".to_owned());
    assert_eq!(tree.insert_key(key(7), value("seven")), None);
    assert_eq!(tree.insert_key(key(3), value("three")), None);
    assert_eq!(tree.insert_key(key(7), value("sept")), Some(value("seven")));
    assert_eq!(tree.select(), vec![(key(3), value("three")), (key(7), value("sept"))]);
    assert_eq!(tree.remove(&key(3)), Some(value("three")));
    assert_eq!(tree.remove(&key(3)), None);
    assert_eq!(tree.select(), vec![(key(7), value("sept"))]);
}

#[test]
fn a_tree_updates_and_deletes_by_key() {
    let mut tree = InMemoryTree::with_name("tree".to_owned());
    tree.insert(vec![value("a"), value("b"), value("c")]);
    assert_eq!(tree.update(vec![(key(1), value("B")), (key(1), value("BB"))]), 2);
    assert_eq!(
        tree.select(),
        vec![(key(0), value("a")), (key(1), value("BB")), (key(2), value("c"))]
    );
    assert_eq!(tree.delete(vec![key(0), key(5), key(0)]), 1);
    assert_eq!(tree.delete(vec![key(0)]), 0);
    assert_eq!(tree.select(), vec![(key(1), value("BB")), (key(2), value("c"))]);
}

#[test]
fn operators_stand_for_operations() {
    assert_eq!(OperationMapper::unary_operation(&UnaryOperator::Minus), UnOperator::Arithmetic(UnArithmetic::Neg));
    assert_eq!(OperationMapper::unary_operation(&UnaryOperator::Plus), UnOperator::Arithmetic(UnArithmetic::Pos));
    assert_eq!(OperationMapper::unary_operation(&UnaryOperator::Not), UnOperator::LogicalNot);
    assert_eq!(OperationMapper::unary_operation(&UnaryOperator::PGBitwiseNot), UnOperator::BitwiseNot);
    assert_eq!(
        OperationMapper::unary_operation(&UnaryOperator::PGPostfixFactorial),
        OperationMapper::unary_operation(&UnaryOperator::PGPrefixFactorial)
    );
    assert_eq!(OperationMapper::unary_operation(&UnaryOperator::PGAbs), UnOperator::Arithmetic(UnArithmetic::Abs));
    assert_eq!(OperationMapper::binary_operation(&BinaryOperator::Plus), BiOperator::Arithmetic(BiArithmetic::Add));
    assert_eq!(OperationMapper::binary_operation(&BinaryOperator::BitwiseXor), BiOperator::Arithmetic(BiArithmetic::Exp));
    assert_eq!(OperationMapper::binary_operation(&BinaryOperator::PGBitwiseXor), BiOperator::Bitwise(Bitwise::Xor));
    assert_eq!(OperationMapper::binary_operation(&BinaryOperator::StringConcat), BiOperator::StringOp(Concat));
    assert_eq!(OperationMapper::binary_operation(&BinaryOperator::NotEq), BiOperator::Comparison(Comparison::NotEq));
    assert_eq!(OperationMapper::binary_operation(&BinaryOperator::And), BiOperator::Logical(BiLogical::And));
    assert_eq!(OperationMapper::binary_operation(&BinaryOperator::NotLike), BiOperator::Matching(Matching::NotLike));
}

#[test]
fn a_database_on_disk_is_made() {
    let database = OnDiskDatabase::new("name");
    assert_eq!(std::sync::Arc::strong_count(&database), 1);
}

#[test]
fn definitions_number_schemas_and_tables() {
    let mut definition = DataDefinition::in_memory();
    assert_eq!(definition.create_schema("first"), Some(0));
    assert_eq!(definition.create_schema("second"), Some(1));
    assert_eq!(definition.create_schema("first"), None);
    assert_eq!(definition.schema_exists("second"), Some(1));
    assert_eq!(definition.schema_exists("third"), None);
    let columns = || vec![ColumnDefinition::new("column", ColumnType::SmallInt)];
    assert_eq!(definition.create_table("first", "one", columns()), Some(Some(0)));
    assert_eq!(definition.create_table("first", "two", columns()), Some(Some(1)));
    assert_eq!(definition.create_table("first", "one", columns()), Some(None));
    assert_eq!(definition.create_table("third", "one", columns()), None);
    assert_eq!(definition.table_exists("first", "two"), Some((0, Some(1))));
    assert_eq!(definition.table_exists("first", "three"), Some((0, None)));
    assert_eq!(definition.table_exists("third", "one"), None);
    assert_eq!(definition.drop_table("first", "one"), Some(true));
    assert_eq!(definition.drop_table("first", "one"), Some(false));
    assert_eq!(definition.drop_table("third", "one"), None);
    assert!(definition.drop_schema("first"));
    assert!(!definition.drop_schema("first"));
    assert_eq!(definition.table_exists("first", "two"), None);
}

#[test]
fn definitions_keep_the_columns_of_a_table() {
    let mut definition = DataDefinition::in_memory();
    definition.create_schema("schema");
    definition.create_table(
        "schema",
        "table",
        vec![
            ColumnDefinition::new("first", ColumnType::SmallInt),
            ColumnDefinition::new("second", ColumnType::VarChar(10)),
        ],
    );
    let columns = definition.table_columns("schema", "table").expect("table has columns");
    assert_eq!(columns.len(), 2);
    assert_eq!(columns[0].name(), "first");
    assert_eq!(columns[0].sql_type(), ColumnType::SmallInt);
    assert!(columns[1].has_name("second"));
    assert_eq!(columns[1].sql_type(), ColumnType::VarChar(10));
    assert!(definition.table_columns("schema", "other").is_none());
}
