use jockey::manager::ConnectionTable;

fn names(list: &[&str]) -> Vec<String> {
    list.iter().map(|s| s.to_string()).collect()
}

fn ensure(table: &mut ConnectionTable<u32>, wanted: &[&str], next_id: &mut u32) -> Vec<String> {
    let missing = table.missing(&names(wanted));
    for n in &missing {
        *next_id += 1;
        assert!(table.insert(n.clone(), *next_id));
    }
    missing
}

#[test]
fn ensure_connected_twice_adds_each_name_once() {
    let mut table: ConnectionTable<u32> = ConnectionTable::new();
    let mut id = 0;
    let first = ensure(&mut table, &["Cam1", "Cam2", "Cam1"], &mut id);
    assert_eq!(first, names(&["Cam1", "Cam2"]));
    let second = ensure(&mut table, &["Cam1", "Cam2", "Cam1"], &mut id);
    assert!(second.is_empty());
    assert_eq!(table.len(), 2);
    assert_eq!(id, 2);
    assert_eq!(table.get(&"Cam1".to_string()), Some(&1));
    assert_eq!(table.get(&"Cam2".to_string()), Some(&2));
}

#[test]
fn new_names_are_added_after_existing_ones() {
    let mut table: ConnectionTable<u32> = ConnectionTable::new();
    let mut id = 0;
    ensure(&mut table, &["A"], &mut id);
    assert_eq!(ensure(&mut table, &["B", "A", "C"], &mut id), names(&["B", "C"]));
    assert_eq!(table.len(), 3);
}

#[test]
fn insert_never_replaces() {
    let mut table: ConnectionTable<u32> = ConnectionTable::new();
    assert!(table.insert("A".to_string(), 1));
    assert!(!table.insert("A".to_string(), 2));
    assert_eq!(table.get(&"A".to_string()), Some(&1));
    assert!(table.contains(&"A".to_string()));
    assert!(!table.contains(&"B".to_string()));
}

#[test]
fn remove_hands_back_the_entry() {
    let mut table: ConnectionTable<u32> = ConnectionTable::new();
    table.insert("A".to_string(), 1);
    table.insert("B".to_string(), 2);
    assert_eq!(table.remove(&"A".to_string()), Some(1));
    assert_eq!(table.remove(&"A".to_string()), None);
    assert_eq!(table.get(&"A".to_string()), None);
    assert_eq!(table.len(), 1);
    assert_eq!(table.missing(&names(&["A", "B"])), names(&["A"]));
}

#[test]
fn clear_drops_everything() {
    let mut table: ConnectionTable<u32> = ConnectionTable::new();
    table.insert("A".to_string(), 1);
    table.insert("B".to_string(), 2);
    table.clear();
    assert_eq!(table.len(), 0);
    assert_eq!(table.missing(&names(&["B"])), names(&["B"]));
}
