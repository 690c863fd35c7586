use dashchat_node::chat::ChatId;
use dashchat_node::collections::{VecMap, VecSet};
use dashchat_node::identity::PK;
use dashchat_node::network::{AuthorStore, Topic};

fn pk(n: u8) -> PK {
    PK([n; 32])
}

fn chat(n: u8) -> Topic {
    Topic::Chat(ChatId::new([n; 32]))
}

#[test]
fn a_new_author_store_knows_no_topic() {
    let store = AuthorStore::new();
    assert_eq!(store.authors(&chat(1)), None);
    assert_eq!(store.get(&chat(1)), Some(vec![]));
}

#[test]
fn authors_are_recorded_once_for_each_topic() {
    let mut store = AuthorStore::new();
    store.add_author(chat(1), pk(1));
    store.add_author(chat(1), pk(2));
    store.add_author(chat(1), pk(1));
    store.add_author(chat(2), pk(3));
    store.add_author(Topic::Inbox(pk(1)), pk(2));
    assert_eq!(store.authors(&chat(1)), Some(vec![pk(1), pk(2)]));
    assert_eq!(store.authors(&chat(2)), Some(vec![pk(3)]));
    assert_eq!(store.authors(&Topic::Inbox(pk(1))), Some(vec![pk(2)]));
    assert_eq!(store.authors(&Topic::Inbox(pk(2))), None);
    assert_eq!(store.authors(&chat(3)), None);
}

#[test]
fn a_chat_and_an_inbox_with_the_same_bytes_are_different_topics() {
    let mut store = AuthorStore::new();
    store.add_author(Topic::Chat(ChatId::new([5; 32])), pk(1));
    assert_eq!(store.authors(&Topic::Inbox(pk(5))), None);
    assert_eq!(Topic::Chat(ChatId::new([5; 32])).id(), Topic::Inbox(pk(5)).id());
}

#[test]
fn sync_is_told_one_log_for_each_author() {
    let mut store = AuthorStore::new();
    store.add_author(chat(1), pk(1));
    store.add_author(chat(1), pk(2));
    assert_eq!(
        store.get(&chat(1)),
        Some(vec![(pk(1), vec![chat(1)]), (pk(2), vec![chat(1)])])
    );
    assert_eq!(store.get(&chat(2)), Some(vec![]));
}

#[test]
fn a_set_keeps_the_order_of_arrival() {
    let mut set: VecSet<PK> = VecSet::new();
    assert!(set.insert(pk(3)));
    assert!(set.insert(pk(1)));
    assert!(!set.insert(pk(3)));
    assert_eq!(set.len(), 2);
    assert!(set.contains(&pk(1)));
    assert!(!set.contains(&pk(2)));
    assert_eq!(set.items, vec![pk(3), pk(1)]);
    assert!(set.remove(&pk(3)));
    assert!(!set.remove(&pk(3)));
    assert_eq!(set.items, vec![pk(1)]);
}

#[test]
fn a_map_replaces_the_value_of_a_key() {
    let mut map: VecMap<PK, u64> = VecMap::new();
    assert_eq!(map.get(&pk(1)), None);
    map.insert(pk(1), 10);
    map.insert(pk(2), 20);
    map.insert(pk(1), 11);
    assert_eq!(map.len(), 2);
    assert_eq!(map.get(&pk(1)), Some(&11));
    assert_eq!(map.get(&pk(2)), Some(&20));
    assert_eq!(map.position(&pk(2)), Some(1));
    assert!(map.contains_key(&pk(1)));
    assert!(!map.contains_key(&pk(3)));
}
