use tui_additions::framework::{DataMap, DataValue, FrameworkData};

#[test]
fn store_inserts_and_looks_up() {
    let mut store = DataMap::new();
    assert!(!store.contains_key(1));
    assert!(store.get(1).is_none());

    store.insert(1, DataValue::Number(41));
    store.insert(2, DataValue::Text(String::from("two")));
    assert!(store.contains_key(1));
    assert_eq!(store.get(1), Some(&DataValue::Number(41)));
    assert_eq!(store.get(2), Some(&DataValue::Text(String::from("two"))));

    // a second insert under the same key replaces the value
    store.insert(1, DataValue::Flag(true));
    assert_eq!(store.get(1), Some(&DataValue::Flag(true)));
}

#[test]
fn store_removes_and_reports_absence() {
    let mut store = DataMap::new();
    store.insert(7, DataValue::Number(7));
    assert_eq!(store.remove(7), Some(DataValue::Number(7)));
    assert_eq!(store.remove(7), None);
    assert!(!store.contains_key(7));
}

#[test]
fn store_tiers_are_independent() {
    let mut data = FrameworkData::default();
    data.global.insert(1, DataValue::Text(String::from("global")));
    data.state.insert(1, DataValue::Text(String::from("state")));
    assert_eq!(data.global.get(1), Some(&DataValue::Text(String::from("global"))));
    assert_eq!(data.state.get(1), Some(&DataValue::Text(String::from("state"))));

    let copy = data.clone();
    assert_eq!(copy.state.get(1), Some(&DataValue::Text(String::from("state"))));
}
