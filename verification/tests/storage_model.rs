use webplatform::LocalStorageInterface;
use webplatform::LocalStorageIterator;

#[test]
fn set_and_get() {
    let mut store = LocalStorageInterface::new();
    assert_eq!(store.len(), 0);
    store.set("name", "value");
    assert_eq!(store.len(), 1);
    assert_eq!(store.get("name"), Some(String::from("value")));
    assert_eq!(store.get("other"), None);
}

#[test]
fn set_existing_key_overwrites_in_place() {
    let mut store = LocalStorageInterface::new();
    store.set("a", "1");
    store.set("b", "2");
    store.set("a", "3");
    assert_eq!(store.len(), 2);
    assert_eq!(store.get("a"), Some(String::from("3")));
    assert_eq!(store.get("b"), Some(String::from("2")));
    assert_eq!(store.key(0), "a");
    assert_eq!(store.key(1), "b");
}

#[test]
fn remove_deletes_only_its_key() {
    let mut store = LocalStorageInterface::new();
    store.set("a", "1");
    store.set("b", "2");
    store.set("c", "3");
    store.remove("b");
    assert_eq!(store.len(), 2);
    assert_eq!(store.get("b"), None);
    assert_eq!(store.get("a"), Some(String::from("1")));
    assert_eq!(store.get("c"), Some(String::from("3")));
    assert_eq!(store.key(0), "a");
    assert_eq!(store.key(1), "c");
    store.remove("absent");
    assert_eq!(store.len(), 2);
}

#[test]
fn clear_empties_the_store() {
    let mut store = LocalStorageInterface::new();
    store.set("a", "1");
    store.set("b", "2");
    store.clear();
    assert_eq!(store.len(), 0);
    assert_eq!(store.get("a"), None);
}

#[test]
fn iterator_walks_values_in_key_order() {
    let mut store = LocalStorageInterface::new();
    store.set("a", "1");
    store.set("b", "2");
    store.set("c", "3");
    let mut it = LocalStorageIterator::new();
    assert_eq!(it.next(&store), Some(String::from("1")));
    assert_eq!(it.next(&store), Some(String::from("2")));
    assert_eq!(it.next(&store), Some(String::from("3")));
    assert_eq!(it.next(&store), None);
    assert_eq!(it.next(&store), None);
}

#[test]
fn multibyte_keys_and_values() {
    let mut store = LocalStorageInterface::new();
    store.set("schlüssel", "wert ✓");
    assert_eq!(store.get("schlüssel"), Some(String::from("wert ✓")));
    store.remove("schlüssel");
    assert_eq!(store.get("schlüssel"), None);
}
