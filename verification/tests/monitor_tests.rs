use argvus_storage::monitor::{watch_step, WatchAction, WatchEvent, DEBOUNCE_MS};
use argvus_storage::string_map::StringMap;

#[test]
fn a_burst_of_changes_refreshes_once() {
    let mut pending = false;
    let mut refreshes = 0;
    let events = [
        WatchEvent::Message(false),
        WatchEvent::Message(true),
        WatchEvent::Message(true),
        WatchEvent::MessageError,
        WatchEvent::Quiet,
        WatchEvent::Quiet,
        WatchEvent::Message(true),
        WatchEvent::Quiet,
    ];
    for e in events {
        let (p, action) = watch_step(pending, e);
        pending = p;
        if action == WatchAction::Refresh {
            refreshes += 1;
        }
        assert_ne!(action, WatchAction::Stop);
    }
    assert_eq!(refreshes, 2);
    assert!(!pending);
    assert_eq!(DEBOUNCE_MS, 150);
}

#[test]
fn signals_and_stream_end_stop() {
    assert_eq!(watch_step(true, WatchEvent::Signal), (true, WatchAction::Stop));
    assert_eq!(watch_step(false, WatchEvent::StreamEnd), (false, WatchAction::Stop));
    assert_eq!(watch_step(false, WatchEvent::Quiet), (false, WatchAction::Wait));
    assert_eq!(watch_step(false, WatchEvent::Message(true)), (true, WatchAction::Wait));
    assert_eq!(watch_step(true, WatchEvent::Quiet), (false, WatchAction::Refresh));
}

#[test]
fn string_map_insert_get_len() {
    let mut m: StringMap<u64> = StringMap::new();
    assert_eq!(m.len(), 0);
    assert_eq!(m.get("a"), None);
    m.insert("a", 1);
    m.insert("b", 2);
    m.insert("a", 3);
    assert_eq!(m.len(), 2);
    assert_eq!(m.get("a"), Some(3));
    assert_eq!(m.get("b"), Some(2));
    assert_eq!(m.get("c"), None);
}
