use terminal_hell::label_map::LabelMap;

#[test]
fn insert_get_remove() {
    let mut m: LabelMap<u32> = LabelMap::new();
    assert_eq!(m.len(), 0);
    m.insert("tick", 1);
    m.insert("render", 2);
    m.insert("tick", 3);
    assert_eq!(m.len(), 2);
    assert_eq!(m.get("tick"), Some(3));
    assert_eq!(m.get("net"), None);
    assert_eq!(m.remove("tick"), Some(3));
    assert_eq!(m.remove("tick"), None);
    assert_eq!(m.len(), 1);
    assert_eq!(m.entry(0), ("render", 2));
    m.clear();
    assert_eq!(m.len(), 0);
}
