use twtgui::feed::BATCH_SIZE;
use twtgui::feed::INITIAL_LOAD;
use twtgui::feed::VirtualTimeline;
use twtgui::feed::is_twtxt_link;

#[test]
fn reset_reveals_initial_load() {
    let mut w = VirtualTimeline::new(0);
    assert_eq!(w.visible_count, 0);
    w.reset(100);
    assert_eq!(w.visible_count, INITIAL_LOAD.min(100));
    w.reset(5);
    assert_eq!(w.visible_count, 5);
}

#[test]
fn near_bottom_grows_by_batch_capped_at_total() {
    let mut w = VirtualTimeline::new(100);
    assert_eq!(w.visible_count, 30);
    w.update(false, true, 100);
    assert_eq!(w.visible_count, 30 + BATCH_SIZE);
    w.update(false, true, 100);
    assert_eq!(w.visible_count, 80);
    w.update(false, true, 100);
    assert_eq!(w.visible_count, 100);
    w.update(false, true, 100);
    assert_eq!(w.visible_count, 100);
}

#[test]
fn near_top_collapses_window() {
    let mut w = VirtualTimeline::new(100);
    w.update(false, true, 100);
    w.update(false, true, 100);
    assert_eq!(w.visible_count, 80);
    w.update(true, false, 100);
    assert_eq!(w.visible_count, 30);
}

#[test]
fn plain_scroll_changes_nothing() {
    let mut w = VirtualTimeline::new(100);
    w.update(false, true, 100);
    let before = w.visible_count;
    w.update(false, false, 100);
    assert_eq!(w.visible_count, before);
    assert!(w.visible_count >= before);
}

#[test]
fn near_top_and_near_bottom_collapse_then_grow() {
    let mut w = VirtualTimeline::new(100);
    w.update(false, true, 100);
    w.update(false, true, 100);
    w.update(true, true, 100);
    assert_eq!(w.visible_count, 30 + BATCH_SIZE);
}

#[test]
fn twtxt_links_redirect() {
    assert!(is_twtxt_link("https://example.com/twtxt.txt"));
    assert!(is_twtxt_link("https://twtxt.example/feed.txt"));
    assert!(!is_twtxt_link("https://example.com/page.html"));
    assert!(!is_twtxt_link("https://example.com/file.txt"));
    assert!(!is_twtxt_link("https://example.com/twtxt.json"));
}
