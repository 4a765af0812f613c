use xdbm::name_map::NameMap;
use xdbm::storages::local_info::LocalInfo;

fn info(alias: &str) -> LocalInfo {
    LocalInfo::new(alias.to_string(), "/mnt".to_string())
}

#[test]
fn insert_get_remove() {
    let mut map: NameMap<LocalInfo> = NameMap::new();
    assert_eq!(map.len(), 0);
    assert!(map.insert("m".to_string(), info("first")).is_none());
    assert!(map.insert("a".to_string(), info("second")).is_none());
    assert!(map.insert("z".to_string(), info("third")).is_none());
    let old = map.insert("m".to_string(), info("fourth")).unwrap();
    assert_eq!(old.alias(), "first");
    assert_eq!(map.len(), 3);
    assert_eq!(map.key_at(0), "a");
    assert_eq!(map.key_at(1), "m");
    assert_eq!(map.key_at(2), "z");
    assert_eq!(map.value_at(1).alias(), "fourth");
    assert_eq!(map.find(&"z".to_string()), Some(2));
    assert_eq!(map.find(&"b".to_string()), None);
    assert!(map.contains_key(&"a".to_string()));
    assert!(!map.contains_key(&"A".to_string()));
    assert_eq!(map.get(&"a".to_string()).unwrap().alias(), "second");
    assert!(map.get(&"q".to_string()).is_none());
    assert!(map.remove(&"q".to_string()).is_none());
    assert_eq!(map.remove(&"a".to_string()).unwrap().alias(), "second");
    assert_eq!(map.len(), 2);
    assert_eq!(map.key_at(0), "m");
    *map.get_mut(&"z".to_string()).unwrap() = info("fifth");
    assert_eq!(map.get(&"z".to_string()).unwrap().alias(), "fifth");
    assert!(map.get_mut(&"q".to_string()).is_none());
    let copy = map.clone();
    assert_eq!(copy.len(), 2);
    assert_eq!(copy.key_at(1), "z");
    assert_eq!(copy.value_at(1).alias(), "fifth");
}
