use flowchart_mcp::engine::{Direction, Document};
use flowchart_mcp::store::{FlowchartStore, SequenceStore};
use flowchart_mcp::sequence::Sequence;

fn doc() -> Document {
    Document::new(Direction::TB)
}

#[test]
fn insert_get_remove() {
    let mut s = FlowchartStore::new();
    let h = s.insert(doc());
    assert!(s.get_mut(&h).is_some());
    assert_eq!(s.len(), 1);
    assert!(s.remove(&h));
    assert!(!s.remove(&h));
    assert!(s.is_empty());
}

#[test]
fn lru_eviction_at_capacity() {
    let mut s = FlowchartStore::with_capacity(2);
    let h1 = s.insert(doc());
    let h2 = s.insert(doc());
    assert!(s.get_mut(&h1).is_some()); // touch h1 → h2 is LRU
    let h3 = s.insert(doc());
    assert_eq!(s.len(), 2);
    assert!(s.get_mut(&h2).is_none());
    assert!(s.get_mut(&h1).is_some());
    assert!(s.get_mut(&h3).is_some());
}

#[test]
fn handles_are_uuids_and_edits_stick() {
    let mut s = SequenceStore::new();
    let h = s.insert(Sequence::new());
    assert_eq!(h.len(), 36);
    assert_eq!(h.matches('-').count(), 4);
    s.get_mut(&h).unwrap().add_participant("u", "User", false).unwrap();
    assert_eq!(s.get_mut(&h).unwrap().participants.len(), 1);
    assert!(s.get_mut("missing").is_none());
}

#[test]
fn insert_with_drops_entries_idle_for_the_ttl() {
    let mut s = FlowchartStore::new();
    s.insert_with(doc(), &vec![], "a".to_string());
    s.insert_with(doc(), &vec![0], "b".to_string());
    s.insert_with(doc(), &vec![1800, 1799], "c".to_string());
    assert_eq!(s.len(), 2);
    assert!(s.get_mut("a").is_none());
    assert!(s.get_mut("b").is_some());
    assert!(s.get_mut("c").is_some());
}

#[test]
fn insert_with_evicts_least_recent_when_nothing_is_idle() {
    let mut s = FlowchartStore::with_capacity(2);
    s.insert_with(doc(), &vec![], "a".to_string());
    s.insert_with(doc(), &vec![0], "b".to_string());
    assert!(s.get_mut("a").is_some());
    s.insert_with(doc(), &vec![0, 0], "c".to_string());
    assert_eq!(s.len(), 2);
    assert!(s.get_mut("b").is_none());
    assert!(s.get_mut("a").is_some());
    assert!(s.get_mut("c").is_some());
}

#[test]
fn insert_with_replaces_an_entry_under_the_same_handle() {
    let mut s = SequenceStore::new();
    s.insert_with(Sequence::new(), &vec![], "h".to_string());
    s.get_mut("h").unwrap().add_participant("u", "User", false).unwrap();
    s.insert_with(Sequence::new(), &vec![5], "h".to_string());
    assert_eq!(s.len(), 1);
    assert_eq!(s.get_mut("h").unwrap().participants.len(), 0);
}

#[test]
fn make_room_sweeps_then_evicts() {
    let mut s = FlowchartStore::with_capacity(2);
    s.insert_with(doc(), &vec![], "a".to_string());
    s.insert_with(doc(), &vec![0], "b".to_string());
    s.make_room(&vec![false, false]);
    assert_eq!(s.len(), 1);
    assert!(s.get_mut("a").is_none());
    s.make_room(&vec![true]);
    assert!(s.is_empty());
}

#[test]
fn remove_keeps_other_documents() {
    let mut s = SequenceStore::new();
    let h1 = s.insert(Sequence::new());
    let h2 = s.insert(Sequence::new());
    s.get_mut(&h2).unwrap().add_participant("u", "User", false).unwrap();
    assert!(s.remove(&h1));
    assert_eq!(s.get_mut(&h2).unwrap().participants.len(), 1);
}
