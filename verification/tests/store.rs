use agent_gateway::codec::encode_message;
use agent_gateway::messages::{ChatMessage, Role};
use agent_gateway::store::{decode_history, RedisProvider, SessionStore};

fn msg(role: Role, content: &str) -> ChatMessage {
    ChatMessage::new(role, content)
}

fn contents(messages: &[ChatMessage]) -> Vec<(Role, String)> {
    messages.iter().map(|m| (m.role, m.content.clone())).collect()
}

#[test]
fn read_after_appends_returns_batches_in_order() {
    let mut store = SessionStore::new(1000);
    let b1 = vec![msg(Role::User, "q1"), msg(Role::Assistant, "a1")];
    let b2 = vec![msg(Role::User, "q2"), msg(Role::Assistant, "a2")];
    let b3 = vec![msg(Role::System, "note")];
    store.append("s", &b1, 0);
    store.append("s", &b2, 1);
    store.append("s", &b3, 2);
    let all = store.read_all("s", 3);
    let mut expected = Vec::new();
    expected.extend(b1);
    expected.extend(b2);
    expected.extend(b3);
    assert_eq!(contents(&all), contents(&expected));
}

#[test]
fn read_of_absent_session_is_empty() {
    let store = SessionStore::new(1000);
    assert!(store.read_all("nobody", 0).is_empty());
}

#[test]
fn sessions_do_not_disturb_each_other() {
    let mut store = SessionStore::new(1000);
    store.append("a", &vec![msg(Role::User, "for a")], 0);
    store.append("b", &vec![msg(Role::User, "for b")], 0);
    assert_eq!(store.read_all("a", 1).len(), 1);
    assert_eq!(store.read_all("b", 1).len(), 1);
    assert_eq!(store.read_all("a", 1)[0].content, "for a");
    assert_eq!(store.read_all("b", 1)[0].content, "for b");
}

#[test]
fn two_appends_to_one_session_lose_neither_batch() {
    // both interleavings: each batch is present exactly once afterwards
    for flip in [false, true] {
        let mut store = SessionStore::new(1000);
        let b1 = vec![msg(Role::User, "first")];
        let b2 = vec![msg(Role::User, "second")];
        if flip {
            store.append("s", &b2, 0);
            store.append("s", &b1, 0);
        } else {
            store.append("s", &b1, 0);
            store.append("s", &b2, 0);
        }
        let all = store.read_all("s", 0);
        assert_eq!(all.len(), 2);
        let texts: Vec<&str> = all.iter().map(|m| m.content.as_str()).collect();
        assert!(texts.contains(&"first"));
        assert!(texts.contains(&"second"));
    }
}

#[test]
fn empty_batch_changes_nothing() {
    let mut store = SessionStore::new(1000);
    store.append("s", &vec![msg(Role::User, "kept")], 0);
    store.append("s", &Vec::new(), 5000);
    let all = store.read_all("s", 900);
    assert_eq!(all.len(), 1);
    assert_eq!(all[0].content, "kept");
}

#[test]
fn expiry_hides_the_session_and_append_resets_it() {
    let mut store = SessionStore::new(100);
    store.append("s", &vec![msg(Role::User, "one")], 0);
    assert_eq!(store.read_all("s", 100).len(), 1);
    assert!(store.read_all("s", 101).is_empty());
    // a later append resets the deadline from its own time
    store.append("s", &vec![msg(Role::User, "two")], 50);
    assert_eq!(store.read_all("s", 150).len(), 2);
    assert!(store.read_all("s", 151).is_empty());
    // appending to an expired session starts it over
    let mut gone = SessionStore::new(10);
    gone.append("g", &vec![msg(Role::User, "lost")], 0);
    gone.append("g", &vec![msg(Role::User, "fresh")], 1000);
    let all = gone.read_all("g", 1000);
    assert_eq!(all.len(), 1);
    assert_eq!(all[0].content, "fresh");
}

#[test]
fn malformed_stored_record_reads_as_empty_history() {
    let good = encode_message(&msg(Role::User, "fine"));
    let decoded = decode_history(&vec![good.clone()]);
    assert_eq!(decoded.len(), 1);

    let with_garbage = vec![good, "not a record".to_string()];
    assert!(decode_history(&with_garbage).is_empty());

    assert!(decode_history(&Vec::new()).is_empty());
}

#[test]
fn redis_provider_builds_keys_from_base_path() {
    let provider = RedisProvider::new("LCL", 86400);
    assert_eq!(provider.get_key("abc-123"), "LCL:abc-123");
    assert_eq!(provider.ttl(), 86400);
}
