use table_engine::basic_elements::{DataType, TData, Table};

#[test]
fn test_table() {
    let mut t = Table::new("Users".to_string());
    assert!(t.add("Name".to_string(), DataType::Text, false).is_ok());
    assert!(t.add("Age".to_string(), DataType::Integer, false).is_ok());

    let done = t.insert(
        vec!["Name".to_string(), "Age".to_string()],
        vec![TData::Text("Igor".to_string()), TData::Integer(39)],
    );
    assert!(done.is_ok());
    assert_eq!(t.records().len(), 1);
    assert_eq!(t.records()[0].get("Name").unwrap(), &TData::Text("Igor".to_string()));
    assert_eq!(t.records()[0].get("Age").unwrap(), &TData::Integer(39));
}
