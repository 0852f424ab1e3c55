use airuntime::model::table::Table;

#[test]
fn table_new_is_empty() {
    let table: Table<u32> = Table::new();
    assert_eq!(table.len(), 0);
    assert!(!table.contains_key("a"));
    assert!(table.get("a").is_none());
    assert!(table.values().is_empty());
}

#[test]
fn table_insert_and_get() {
    let mut table: Table<u32> = Table::new();
    assert_eq!(table.insert(String::from("a"), 1), None);
    assert_eq!(table.insert(String::from("b"), 2), None);
    assert_eq!(table.len(), 2);
    assert_eq!(table.get("a"), Some(&1));
    assert_eq!(table.get("b"), Some(&2));
    assert_eq!(table.get("c"), None);
    assert!(table.contains_key("b"));
    assert!(!table.contains_key(""));
}

#[test]
fn table_insert_replaces_in_place() {
    let mut table: Table<u32> = Table::new();
    table.insert(String::from("a"), 1);
    table.insert(String::from("b"), 2);
    table.insert(String::from("c"), 3);
    assert_eq!(table.insert(String::from("b"), 20), Some(2));
    assert_eq!(table.len(), 3);
    assert_eq!(table.name_at(0), "a");
    assert_eq!(table.name_at(1), "b");
    assert_eq!(table.name_at(2), "c");
    assert_eq!(table.value_at(1), &20);
    assert_eq!(table.values(), vec![&1, &20, &3]);
}

#[test]
fn table_remove_keeps_the_order_of_the_rest() {
    let mut table: Table<u32> = Table::new();
    table.insert(String::from("a"), 1);
    table.insert(String::from("b"), 2);
    table.insert(String::from("c"), 3);
    assert_eq!(table.remove("b"), Some(2));
    assert_eq!(table.remove("b"), None);
    assert_eq!(table.len(), 2);
    assert!(!table.contains_key("b"));
    assert_eq!(table.values(), vec![&1, &3]);
    assert_eq!(table.name_at(1), "c");
    assert_eq!(table.remove("a"), Some(1));
    assert_eq!(table.remove("c"), Some(3));
    assert_eq!(table.len(), 0);
}

#[test]
fn table_names_are_told_apart_by_every_character() {
    let mut table: Table<u32> = Table::new();
    table.insert(String::from("conv"), 1);
    table.insert(String::from("conv1"), 2);
    table.insert(String::from("Conv"), 3);
    table.insert(String::from("模型"), 4);
    assert_eq!(table.len(), 4);
    assert_eq!(table.get("conv"), Some(&1));
    assert_eq!(table.get("conv1"), Some(&2));
    assert_eq!(table.get("Conv"), Some(&3));
    assert_eq!(table.get("模型"), Some(&4));
    assert_eq!(table.get("con"), None);
}
