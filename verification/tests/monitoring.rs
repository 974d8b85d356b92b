use audio_server::gui::{fonts_directory, images_directory, Log};

#[test]
fn log_keeps_newest_first() {
    let mut log: Log<u32> = Log::with_limit(3);
    log.push_msg(1);
    log.push_msg(2);
    log.push_msg(3);
    let entries: Vec<u32> = log.deque.iter().copied().collect();
    assert_eq!(entries, vec![3, 2, 1]);
    assert_eq!(log.start_index, 0);
}

#[test]
fn log_drops_oldest_beyond_limit() {
    let mut log: Log<u32> = Log::with_limit(2);
    log.push_msg(1);
    log.push_msg(2);
    log.push_msg(3);
    let entries: Vec<u32> = log.deque.iter().copied().collect();
    assert_eq!(entries, vec![3, 2]);
    // One message was dropped, so the oldest stored message has index 1.
    assert_eq!(log.start_index, 1);
    log.push_msg(4);
    let entries: Vec<u32> = log.deque.iter().copied().collect();
    assert_eq!(entries, vec![4, 3]);
    assert_eq!(log.start_index, 2);
}

#[test]
fn log_with_zero_limit_stores_nothing() {
    let mut log: Log<u32> = Log::with_limit(0);
    log.push_msg(1);
    assert!(log.deque.is_empty());
    assert_eq!(log.start_index, 1);
}

#[test]
fn asset_directories() {
    assert_eq!(fonts_directory("assets"), "assets/fonts");
    assert_eq!(images_directory("assets"), "assets/images");
    assert_eq!(fonts_directory(""), "/fonts");
}
