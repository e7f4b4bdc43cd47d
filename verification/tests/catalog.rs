use rand::Rng;
use rustdb::catalog::Catalog;
use rustdb::column::Column;
use rustdb::error::Error;
use rustdb::schema::Schema;
use rustdb::types::Type;

fn with_type(field_type: Type) -> Column {
    Column::new("TestColumn".to_string(), field_type)
}

fn create_n_columns(n: usize) -> Vec<Column> {
    (0..n)
        .map(|i| Column::new(i.to_string(), Type::Null))
        .collect::<Vec<_>>()
}

#[test]
fn test_column_size() {
    // Fixed-length field sizes are as expected:
    assert_eq!(with_type(Type::Null).size(), Some(0));
    assert_eq!(with_type(Type::Boolean).size(), Some(1));
    assert_eq!(with_type(Type::Integer).size(), Some(size_of::<i32>()));
    assert_eq!(with_type(Type::Float).size(), Some(size_of::<f64>()));

    // Attempting to retrieve the size of a variable length field (e.g. Varchar) yields `None`.
    assert!(with_type(Type::Varchar).size().is_none());
}

#[test]
fn test_get_type() {
    for ty in [Type::Null, Type::Boolean, Type::Integer, Type::Float] {
        assert_eq!(with_type(ty).field_type(), ty);
    }
}

#[test]
fn column_test_equality() {
    let column = Column::new("TestColumn".to_string(), Type::Integer);

    // Two columns are equal if, and only if, all their fields are the same.
    let is_equal = column.clone();
    assert_eq!(is_equal, column);
    let name_is_different = Column::new("OtherColumn".to_string(), Type::Integer);
    assert_ne!(name_is_different, column);

    // In particular, note that two columns with matching names might not be equal!
    let type_is_different = Column::new("TestColumn".to_string(), Type::Float);
    assert_ne!(type_is_different, column);
}

#[test]
fn test_append() {
    let all_columns = create_n_columns(10);

    // Create a schema with the first half of the columns and another schema with the rest.
    let (mut first, second) = {
        let (first, second) = all_columns.split_at(5);
        (Schema::new(first), Schema::new(second))
    };
    let total_size = first.size() + second.size();

    // Appending the two schemas together should mutate the first into a larger schema that
    // contains all the columns.
    first.append(second);
    assert_eq!(first.size(), total_size);
    assert_eq!(first.columns(), &all_columns);
}

#[test]
fn schema_test_equality() {
    let names = vec!["a", "b", "c"];
    let integer_columns = names
        .iter()
        .map(|name| Column::new(name.to_string(), Type::Integer))
        .collect::<Vec<_>>();
    let float_columns = names
        .iter()
        .map(|name| Column::new(name.to_string(), Type::Float))
        .collect::<Vec<_>>();

    // Schemas with matching column names BUT with differing column types aren't equal.
    assert_ne!(Schema::new(&integer_columns), Schema::new(&float_columns));

    // Schemas with matching column vectors (even if they're different objects) are equal.
    let more_integer_columns = integer_columns.clone();
    assert_eq!(Schema::new(&integer_columns), Schema::new(&integer_columns));
    assert_eq!(Schema::new(&integer_columns), Schema::new(&more_integer_columns));
}

#[test]
fn test_num_columns() {
    let random = {
        let mut rng = rand::rng();
        rng.random_range(1..100)
    };
    assert_eq!(0, Schema::new(&create_n_columns(0)).num_columns());
    assert_eq!(random, Schema::new(&create_n_columns(random)).num_columns());
}

#[test]
fn test_column_at() {
    // This is a really wide row.
    let columns = create_n_columns(50);
    let schema = Schema::new(&columns);

    // Retrieving by valid column indexes returns the corresponding column reference.
    (0..50).for_each(|i| {
        assert_eq!(schema.column_at(i), Ok(&columns[i]));
    });

    // Trying to access an out-of-bounds index results in an error.
    assert_eq!(schema.column_at(50).err(), Some(Error::OutOfBounds));
}

#[test]
fn test_column_index_of() {
    // Via `create_n_columns()`, a column's index is also its name, e.g. the name of the column
    // at index i=3 is "3". We'll add another column (with a duplicate name!) as well, so that
    // `columns` is a vector of 11 columns with corresponding names {"0", "1", ... , "9", "0"}.
    let columns = {
        let mut columns = create_n_columns(10);
        columns.push(Column::new("0".to_string(), Type::Integer));
        columns
    };
    let schema = Schema::new(&columns);

    // In the case of a duplicate name, we get the index of the first such column with it.
    assert_eq!(schema.column_index_of("0"), Some(0));

    // We should be able to retrieve the indexes of all other valid column names.
    (1..10).for_each(|i| {
        let name = i.to_string();
        assert_eq!(schema.column_index_of(&name), Some(i))
    });

    // If none of the columns have the requested name, we should get an empty option.
    assert!(schema.column_index_of("10").is_none());
    assert!(schema.column_index_of("").is_none());
    assert!(schema.column_index_of("All love ðŸ›¸ðŸ’•ðŸ•º").is_none());
}

#[test]
fn test_type_size_and_name() {
    assert_eq!(Type::Null.size(), 0);
    assert_eq!(Type::Boolean.size(), 1);
    assert_eq!(Type::Integer.size(), 4);
    assert_eq!(Type::Float.size(), 8);
    assert_eq!(Type::Varchar.size(), size_of::<usize>());
    assert_eq!(Type::Null.to_string(), "Null");
    assert_eq!(Type::Boolean.to_string(), "Boolean");
    assert_eq!(Type::Integer.to_string(), "Integer");
    assert_eq!(Type::Float.to_string(), "Float");
    assert_eq!(Type::Varchar.to_string(), "Varchar");
}

#[test]
fn test_column_text() {
    assert_eq!(
        Column::new("id".to_string(), Type::Integer).to_string(),
        "Column[ id, Integer, Length: 4 bytes ]"
    );
    assert_eq!(
        Column::new("name".to_string(), Type::Varchar).to_string(),
        "Column[ name, Varchar, Length: VARIABLE bytes ]"
    );
    assert_eq!(Column::new("id".to_string(), Type::Integer).name(), "id");
}

#[test]
fn test_schema_size_and_text() {
    let columns = vec![
        Column::new("a".to_string(), Type::Integer),
        Column::new("b".to_string(), Type::Varchar),
        Column::new("c".to_string(), Type::Float),
        Column::new("d".to_string(), Type::Boolean),
    ];
    let schema = Schema::new(&columns);
    // Variable-length columns add nothing to the fixed size.
    assert_eq!(schema.size(), 4 + 8 + 1);
    assert_eq!(schema.num_columns(), 4);
    assert_eq!(
        schema.to_string(),
        "Schema[ NumColumns: 4, FixedSize: 13 ] :: ( Column[ a, Integer, Length: 4 bytes ],\
Column[ b, Varchar, Length: VARIABLE bytes ],Column[ c, Float, Length: 8 bytes ],\
Column[ d, Boolean, Length: 1 bytes ] )"
    );
    assert_eq!(
        Schema::new(&[]).to_string(),
        "Schema[ NumColumns: 0, FixedSize: 0 ] :: (  )"
    );
}

#[test]
fn test_catalog_tables() {
    let mut catalog = Catalog::new(7u8);
    assert_eq!(*catalog.storage(), 7u8);
    assert!(catalog.table_with_id(0).is_none());
    assert!(catalog.table_with_name("users").is_none());

    let schema = Schema::new(&create_n_columns(3));
    let info = catalog.create_table("users".to_string(), schema.clone());
    assert_eq!(info.id(), 0);
    assert_eq!(info.name(), "users");
    assert_eq!(info.schema(), &schema);

    let other = catalog.create_table("orders".to_string(), Schema::new(&[]));
    assert_eq!(other.id(), 1);

    assert_eq!(catalog.table_with_id(0).unwrap().name(), "users");
    assert_eq!(catalog.table_with_id(1).unwrap().name(), "orders");
    assert!(catalog.table_with_id(2).is_none());
    assert_eq!(catalog.table_with_name("orders").unwrap().id(), 1);
    assert_eq!(catalog.table_with_name("users").unwrap().id(), 0);
    assert!(catalog.table_with_name("nobody").is_none());
}

#[test]
fn test_error_text() {
    assert_eq!(
        Error::InvalidData("bad".to_string()).to_string(),
        "Invalid data: bad"
    );
    assert_eq!(
        Error::InvalidInput("what".to_string()).to_string(),
        "Invalid input: what"
    );
    assert_eq!(Error::IO("disk".to_string()).to_string(), "IO error: disk");
    assert_eq!(Error::ArithmeticOverflow.to_string(), "Arithmetic overflow");
    assert_eq!(Error::OutOfBounds.to_string(), "Out of bounds");
    assert_eq!(
        Error::BufferPoolError("full".to_string()).to_string(),
        "Buffer error: full"
    );
    assert_eq!(
        Error::PagePinned(42).to_string(),
        "Cannot delete page 42: Page is still pinned"
    );
}
