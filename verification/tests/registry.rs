use binding_origins::registry::HandleTable;

#[test]
fn new_table_is_empty() {
    let table = HandleTable::new();
    assert_eq!(table.len(), 0);
    assert_eq!(table.lookup(&"default".to_string()), None);
}

#[test]
fn lookup_finds_registered_names() {
    let mut table = HandleTable::new();
    assert!(table.register("default".to_string(), 1));
    assert!(table.register("menu".to_string(), 2));
    assert_eq!(table.len(), 2);
    assert_eq!(table.lookup(&"default".to_string()), Some(1));
    assert_eq!(table.lookup(&"menu".to_string()), Some(2));
}

#[test]
fn lookup_matches_exactly() {
    let mut table = HandleTable::new();
    table.register("squeeze".to_string(), 7);
    assert_eq!(table.lookup(&"Squeeze".to_string()), None);
    assert_eq!(table.lookup(&"squeeze ".to_string()), None);
    assert_eq!(table.lookup(&"".to_string()), None);
    assert_eq!(table.lookup(&"squeeze".to_string()), Some(7));
}

#[test]
fn first_registration_of_a_name_stands() {
    let mut table = HandleTable::new();
    assert!(table.register("squeeze".to_string(), 7));
    assert!(!table.register("squeeze".to_string(), 8));
    assert_eq!(table.len(), 1);
    assert_eq!(table.lookup(&"squeeze".to_string()), Some(7));
}

#[test]
fn handles_may_repeat_under_other_names() {
    let mut table = HandleTable::new();
    assert!(table.register("a".to_string(), 5));
    assert!(table.register("b".to_string(), 5));
    assert_eq!(table.lookup(&"a".to_string()), Some(5));
    assert_eq!(table.lookup(&"b".to_string()), Some(5));
}
