use skip_rs::{ByteOrder, Config, DataType, SkipError};

fn point_schema() -> Config {
    let mut config = Config::new();
    config.add_field("x", DataType::Float32, 1).unwrap();
    config.add_field("y", DataType::Float32, 1).unwrap();
    config.add_field("z", DataType::Float32, 1).unwrap();
    config.add_field("id", DataType::Int32, 1).unwrap();
    config
}

#[test]
fn widths_of_all_kinds() {
    assert_eq!(DataType::Int8.width(), 1);
    assert_eq!(DataType::UInt8.width(), 1);
    assert_eq!(DataType::Int16.width(), 2);
    assert_eq!(DataType::UInt16.width(), 2);
    assert_eq!(DataType::Int32.width(), 4);
    assert_eq!(DataType::UInt32.width(), 4);
    assert_eq!(DataType::Int64.width(), 8);
    assert_eq!(DataType::UInt64.width(), 8);
    assert_eq!(DataType::Float32.width(), 4);
    assert_eq!(DataType::Float64.width(), 8);
}

#[test]
fn empty_schema_has_size_zero() {
    let config = Config::new();
    assert_eq!(config.total_size(), 0);
    assert_eq!(config.field_count(), 0);
    assert!(config.lookup("x").is_none());
}

#[test]
fn new_schema_uses_native_byte_order() {
    let expected = if 1u16.to_ne_bytes()[0] == 1 { ByteOrder::Little } else { ByteOrder::Big };
    assert_eq!(Config::new().byte_order(), expected);
    assert_eq!(ByteOrder::native(), expected);
}

#[test]
fn probe_decides_byte_order() {
    assert_eq!(ByteOrder::from_probe(&[1, 0]), ByteOrder::Little);
    assert_eq!(ByteOrder::from_probe(&[0, 1]), ByteOrder::Big);
}

#[test]
fn point_schema_layout() {
    let config = point_schema();
    assert_eq!(config.total_size(), 16);
    assert_eq!(config.field_count(), 4);
    let expected = [("x", 0usize, 0usize), ("y", 4, 1), ("z", 8, 2), ("id", 12, 3)];
    for (name, offset, index) in expected {
        let field = config.lookup(name).unwrap();
        assert_eq!(field.name, name);
        assert_eq!(field.offset, offset);
        assert_eq!(field.index, index);
        assert_eq!(field.count, 1);
    }
    assert_eq!(config.lookup("id").unwrap().data_type, DataType::Int32);
    assert_eq!(config.lookup("x").unwrap().data_type, DataType::Float32);
}

#[test]
fn offsets_are_running_sums_of_spans() {
    let mut config = Config::new();
    let decls = [
        ("a", DataType::UInt8, 3u64),
        ("b", DataType::Int64, 2),
        ("c", DataType::UInt16, 5),
        ("d", DataType::Float64, 1),
        ("e", DataType::Int8, 1),
    ];
    let mut expected_offset = 0usize;
    for (name, kind, count) in decls {
        assert_eq!(config.total_size(), expected_offset);
        config.add_field(name, kind, count).unwrap();
        let field = config.lookup(name).unwrap();
        assert_eq!(field.offset, expected_offset);
        expected_offset += kind.width() * count as usize;
    }
    assert_eq!(config.total_size(), 3 + 16 + 10 + 8 + 1);
    assert_eq!(config.lookup("a").unwrap().offset, 0);
    assert_eq!(config.lookup("b").unwrap().offset, 3);
    assert_eq!(config.lookup("c").unwrap().offset, 19);
    assert_eq!(config.lookup("d").unwrap().offset, 29);
    assert_eq!(config.lookup("e").unwrap().offset, 37);
}

#[test]
fn duplicate_name_is_refused_and_changes_nothing() {
    let mut config = point_schema();
    let r = config.add_field("y", DataType::Int64, 7);
    assert_eq!(r, Err(SkipError::DuplicateFieldName));
    assert_eq!(config.total_size(), 16);
    assert_eq!(config.field_count(), 4);
    let y = config.lookup("y").unwrap();
    assert_eq!(y.data_type, DataType::Float32);
    assert_eq!(y.offset, 4);
    assert_eq!(y.count, 1);
}

#[test]
fn zero_count_is_refused_and_changes_nothing() {
    let mut config = point_schema();
    let r = config.add_field("w", DataType::Int16, 0);
    assert_eq!(r, Err(SkipError::InvalidFieldCount));
    assert_eq!(config.total_size(), 16);
    assert_eq!(config.field_count(), 4);
    assert!(config.lookup("w").is_none());
}

#[test]
fn duplicate_name_with_zero_count_reports_the_duplicate() {
    let mut config = point_schema();
    let r = config.add_field("x", DataType::Int16, 0);
    assert_eq!(r, Err(SkipError::DuplicateFieldName));
}

#[test]
fn lookup_distinguishes_similar_names() {
    let mut config = Config::new();
    config.add_field("ab", DataType::UInt8, 1).unwrap();
    config.add_field("a", DataType::UInt16, 1).unwrap();
    config.add_field("", DataType::UInt32, 1).unwrap();
    assert_eq!(config.lookup("a").unwrap().index, 1);
    assert_eq!(config.lookup("ab").unwrap().index, 0);
    assert_eq!(config.lookup("").unwrap().index, 2);
    assert!(config.lookup("b").is_none());
    assert!(config.lookup("abc").is_none());
}

#[test]
fn error_messages() {
    assert_eq!(SkipError::DuplicateFieldName.message(), "Duplicate field name");
    assert_eq!(SkipError::InvalidFieldCount.message(), "Invalid field count");
    assert_eq!(SkipError::FieldNotFound.message(), "Field not found");
    assert_eq!(SkipError::TypeMismatch.message(), "Type mismatch");
    assert_eq!(SkipError::LengthMismatch.message(), "Length mismatch");
}
