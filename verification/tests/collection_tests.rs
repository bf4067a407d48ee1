use talk::{
    Context, DefaultGuidelineMatcher, DefaultJourneyManager, InMemorySessionStore, JourneyId,
    TextMap, ToolRegistry,
};

#[test]
fn test_text_map_keeps_first_insertion_order() {
    let mut map = TextMap::new();
    assert!(map.is_empty());
    map.insert("b".to_string(), 1);
    map.insert("a".to_string(), 2);
    map.insert("b".to_string(), 3);
    assert_eq!(map.len(), 2);
    assert_eq!(map.entries, vec![("b".to_string(), 3), ("a".to_string(), 2)]);
    assert_eq!(map.get("b"), Some(&3));
    assert_eq!(map.get("a"), Some(&2));
    assert_eq!(map.get("c"), None);
    assert_eq!(map.index_of("a"), Some(1));
    assert!(map.contains_key("a"));
    assert!(!map.contains_key("A"));
}

#[test]
fn test_text_map_remove() {
    let mut map = TextMap::new();
    map.insert("x".to_string(), 1);
    map.insert("y".to_string(), 2);
    map.insert("z".to_string(), 3);
    assert_eq!(map.remove("y"), Some(2));
    assert_eq!(map.remove("y"), None);
    assert_eq!(map.entries, vec![("x".to_string(), 1), ("z".to_string(), 3)]);
}

#[test]
fn test_text_map_first_entry_counts() {
    let map = TextMap { entries: vec![("k".to_string(), 1), ("k".to_string(), 2)] };
    assert_eq!(map.get("k"), Some(&1));
    assert_eq!(map.index_of("k"), Some(0));
}

#[test]
fn test_defaults_are_empty() {
    assert!(DefaultGuidelineMatcher::default().get_guidelines().is_empty());
    assert!(DefaultJourneyManager::default().get_journey(&JourneyId::new()).is_none());
    assert!(ToolRegistry::default().list().is_empty());
    assert!(InMemorySessionStore::default().is_empty());
    let context = Context::default();
    assert!(context.messages.is_empty());
    assert_eq!(context.max_messages, 100);
}
