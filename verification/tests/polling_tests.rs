use std::collections::HashMap;
use sherpresent::adapters::{LiveStatus, SlideInfo};
use sherpresent::canva_remote::{cache_batch_notes, cache_page_notes, session_from_query, CanvaRemote};
use sherpresent::adapters::ConnectionStatus;
use sherpresent::polling::{begin_notes_scan, merge_notes, notes_source, NotesSource, store_scanned_notes, PollState, ScanStep};

fn status(presenting: bool, slide: i32, notes: Option<&str>) -> LiveStatus {
    LiveStatus {
        is_open: true,
        is_presenting: presenting,
        current_slide: slide,
        total_slides: 10,
        zoom_level: None,
        presenter_notes: notes.map(|s| s.to_string()),
        current_build: None,
        total_builds: None,
    }
}

#[test]
fn poll_fetches_notes_once_when_presenting_starts() {
    let mut p = PollState::new();
    let mut cache = HashMap::new();
    let a = p.on_status(&status(false, 0, None), false, &mut cache);
    assert!(!a.fetch_all_notes && a.broadcast && !a.notes_cached);
    let a = p.on_status(&status(true, 2, Some("hi")), false, &mut cache);
    assert!(a.fetch_all_notes && a.broadcast && a.notes_cached);
    assert_eq!(cache[&2], "hi");
    let a = p.on_status(&status(true, 2, Some("hi")), false, &mut cache);
    assert!(!a.fetch_all_notes && !a.broadcast);
    let mut q = PollState::new();
    let a = q.on_status(&status(true, 0, Some("x")), true, &mut cache);
    assert!(!a.fetch_all_notes && !a.notes_cached);
}

#[test]
fn bulk_notes_win_over_cached_ones() {
    let mut cache = HashMap::new();
    cache.insert(1, "old".to_string());
    cache.insert(2, "keep".to_string());
    merge_notes(&mut cache, vec![(1, "new".to_string()), (3, "three".to_string())]);
    assert_eq!(cache[&1], "new");
    assert_eq!(cache[&2], "keep");
    assert_eq!(cache[&3], "three");
}

#[test]
fn notes_scan_steps() {
    assert_eq!(begin_notes_scan(true, SlideInfo { current: 1, total: 3 }).unwrap_err(), "Scan already in progress");
    assert_eq!(
        begin_notes_scan(false, SlideInfo { current: 1, total: 0 }).unwrap_err(),
        "Cannot scan: total slides unknown"
    );
    let mut s = begin_notes_scan(false, SlideInfo { current: 2, total: 2 }).unwrap();
    assert_eq!(s.step(true), ScanStep::Visit(1));
    assert_eq!(s.step(true), ScanStep::Visit(2));
    assert_eq!(s.step(true), ScanStep::Done(2));
    let mut c = begin_notes_scan(false, SlideInfo { current: 1, total: 5 }).unwrap();
    assert_eq!(c.step(true), ScanStep::Visit(1));
    assert_eq!(c.step(false), ScanStep::Cancelled(2));
    let mut cache = HashMap::new();
    store_scanned_notes(&mut cache, 1, Some(String::new()));
    store_scanned_notes(&mut cache, 2, None);
    assert!(cache.is_empty());
    store_scanned_notes(&mut cache, 3, Some("n".to_string()));
    assert_eq!(cache[&3], "n");
}

#[test]
fn canva_session_and_navigation() {
    let q = vec![("a".to_string(), "1".to_string()), ("id2".to_string(), "S".to_string())];
    assert_eq!(session_from_query(&q).unwrap(), "S");
    assert_eq!(
        session_from_query(&vec![]).unwrap_err(),
        "URL must contain an id2 query parameter"
    );
    let mut r = CanvaRemote::new();
    assert_eq!(r.navigate_script(1).unwrap_err(), "No Canva session open");
    assert!(matches!(r.connection_status(false), ConnectionStatus::Disconnected));
    r.open("S".to_string());
    assert!(matches!(r.connection_status(true), ConnectionStatus::Connected));
    assert_eq!(r.navigate_script(3).unwrap(), "window.__canvaNavigate('S', 3);");
    assert_eq!(r.next_page(), 1);
    assert_eq!(r.prev_page(), None);
    assert_eq!(r.prev_slide_info().current, 1);
    r.update_state(4, 9);
    assert_eq!(r.slide_info(), SlideInfo { current: 5, total: 9 });
    assert_eq!(r.prev_page(), Some(3));
    assert_eq!(r.open_presentations(true), vec!["Canva Presentation".to_string()]);
    assert!(r.open_presentations(false).is_empty());
    r.close();
    assert!(r.session_id.is_none());
}

#[test]
fn canva_notes_are_cached_one_indexed() {
    let mut cache = HashMap::new();
    assert!(cache_page_notes(&mut cache, 0, Some("first".to_string())));
    assert!(!cache_page_notes(&mut cache, -1, Some("x".to_string())));
    assert!(!cache_page_notes(&mut cache, 2, Some(String::new())));
    assert_eq!(cache[&1], "first");
    assert!(cache_batch_notes(&mut cache, vec![(1, "two".to_string()), (-5, "no".to_string())]));
    assert_eq!(cache[&2], "two");
    assert!(!cache_batch_notes(&mut cache, vec![(3, String::new())]));
    assert_eq!(cache.len(), 2);
}

#[test]
fn notes_come_from_cache_first() {
    assert_eq!(notes_source(3, "keynote"), NotesSource::Cache);
    assert_eq!(notes_source(0, "canva"), NotesSource::Nothing);
    assert_eq!(notes_source(0, "powerpoint"), NotesSource::Bulk);
}
