use soagents::sidecar::{find_bun_executable, find_server_script, Candidate};
use soagents::table::Table;

fn place(path: &str, exists: bool) -> Candidate {
    Candidate { path: path.to_string(), exists }
}

#[test]
fn table_holds_one_value_per_id() {
    let mut table: Table<u32> = Table::new();
    assert_eq!(table.len(), 0);
    assert_eq!(table.insert("a".to_string(), 1), None);
    assert_eq!(table.insert("b".to_string(), 2), None);
    assert_eq!(table.insert("a".to_string(), 3), Some(1));
    assert_eq!(table.len(), 2);
    assert_eq!(table.get("a"), Some(&3));
    assert_eq!(table.get("b"), Some(&2));
    assert_eq!(table.get("c"), None);
    assert!(table.contains("b"));
    assert!(!table.contains(""));
}

#[test]
fn table_remove_and_take_all() {
    let mut table: Table<u32> = Table::new();
    table.insert("a".to_string(), 1);
    table.insert("b".to_string(), 2);
    table.insert("c".to_string(), 3);
    assert_eq!(table.remove("b"), Some(2));
    assert_eq!(table.remove("b"), None);
    let mut ids = table.ids();
    ids.sort();
    assert_eq!(ids, vec!["a".to_string(), "c".to_string()]);
    let mut all = table.take_all();
    all.sort();
    assert_eq!(all, vec![("a".to_string(), 1), ("c".to_string(), 3)]);
    assert_eq!(table.len(), 0);
    assert_eq!(table.get("a"), None);
}

#[test]
fn table_value_can_be_changed_in_place() {
    let mut table: Table<u32> = Table::new();
    table.insert("a".to_string(), 1);
    table.insert("b".to_string(), 2);
    if let Some(value) = table.get_mut("a") {
        *value = 10;
    }
    assert!(table.get_mut("z").is_none());
    assert_eq!(table.get("a"), Some(&10));
    assert_eq!(table.get("b"), Some(&2));
    assert_eq!(table.len(), 2);
}

#[test]
fn first_place_with_a_runtime_wins() {
    let places = vec![
        place("/bundle/bun-arch", false),
        place("/bundle/bun", true),
        place("/usr/local/bin/bun", true),
    ];
    assert_eq!(find_bun_executable(&places), Ok("/bundle/bun".to_string()));
    assert_eq!(find_server_script(&places), Ok("/bundle/bun".to_string()));
}

#[test]
fn missing_runtime_and_script_are_errors() {
    let places = vec![place("/a", false), place("/b", false)];
    assert_eq!(
        find_bun_executable(&places),
        Err("Bun executable not found. Please install bun: https://bun.sh".to_string())
    );
    assert_eq!(find_server_script(&places), Err("Server script not found".to_string()));
    assert_eq!(find_server_script(&Vec::new()), Err("Server script not found".to_string()));
}
