use std::collections::VecDeque;

use super_v::common::{item_from_reads, ClipboardErr, ClipboardItem};
use super_v::emoji::{matching_emojis, occurs, search_filter, select_emojis, EmojiEntry};
use super_v::history::{history_or_empty, ClipboardHistory};
use super_v::picker::{
    content_preview, delete_index, fold_end_ms, fold_start_ms, is_whitespace, plan_clear_all,
    should_paste, tab_layout, ClearAll, Tab,
};
use super_v::poller::{PollAction, Poller, TextMonitor};
use super_v::text::decimal_string;

fn text(s: &str) -> ClipboardItem {
    ClipboardItem::Text(s.to_string())
}

fn image(w: usize, h: usize, bytes: Vec<u8>) -> ClipboardItem {
    ClipboardItem::Image { width: w, height: h, bytes }
}

fn items(h: &ClipboardHistory) -> Vec<ClipboardItem> {
    h.get_items().iter().cloned().collect()
}

#[test]
fn new_history_is_empty() {
    let h = ClipboardHistory::new(3);
    assert!(h.get_items().is_empty());
}

#[test]
fn adding_twice_is_adding_once() {
    let mut once = ClipboardHistory::new(3);
    once.add(text("a"));
    once.add(text("b"));
    let mut twice = ClipboardHistory::new(3);
    twice.add(text("a"));
    twice.add(text("b"));
    twice.add(text("b"));
    assert_eq!(items(&once), items(&twice));
}

#[test]
fn added_item_is_newest() {
    let mut h = ClipboardHistory::new(3);
    h.add(text("a"));
    h.add(text("b"));
    h.add(text("c"));
    h.add(text("a"));
    assert_eq!(items(&h), vec![text("a"), text("c"), text("b")]);
}

#[test]
fn existing_item_keeps_entries() {
    let mut h = ClipboardHistory::new(3);
    h.add(text("a"));
    h.add(text("b"));
    h.add(text("c"));
    h.add(text("b"));
    assert_eq!(items(&h), vec![text("b"), text("c"), text("a")]);
}

#[test]
fn full_history_evicts_oldest() {
    let mut h = ClipboardHistory::new(2);
    h.add(text("a"));
    h.add(text("b"));
    h.add(text("c"));
    assert_eq!(items(&h), vec![text("c"), text("b")]);
}

#[test]
fn zero_limit_keeps_nothing() {
    let mut h = ClipboardHistory::new(0);
    h.add(text("a"));
    assert!(h.get_items().is_empty());
}

#[test]
fn images_compare_by_content() {
    let mut h = ClipboardHistory::new(3);
    h.add(image(1, 1, vec![1, 2, 3, 4]));
    h.add(text("x"));
    h.add(image(1, 1, vec![1, 2, 3, 4]));
    assert_eq!(items(&h), vec![image(1, 1, vec![1, 2, 3, 4]), text("x")]);
    h.add(image(1, 1, vec![1, 2, 3, 5]));
    assert_eq!(h.get_items().len(), 3);
}

#[test]
fn promote_last_to_front() {
    let mut h = ClipboardHistory::new(4);
    h.add(text("a"));
    h.add(text("b"));
    h.add(text("c"));
    h.promote(2);
    assert_eq!(h.get_items(), &VecDeque::from([text("a"), text("c"), text("b")]));
}

#[test]
fn clear_empties() {
    let mut h = ClipboardHistory::new(4);
    h.add(text("a"));
    h.clear();
    assert!(h.get_items().is_empty());
    h.add(text("b"));
    assert_eq!(items(&h), vec![text("b")]);
}

#[test]
fn history_table() {
    let mut h = ClipboardHistory::new(20);
    h.add(text("miaow"));
    h.add(image(12, 7, vec![0; 4]));
    assert_eq!(
        h.to_display_string(),
        "POS     | ITEM     \r\n---------------\r\n0       | Image (12, 7)     \r\n1       | miaow     "
    );
}

#[test]
fn empty_history_table() {
    let h = ClipboardHistory::new(20);
    assert_eq!(h.to_display_string(), "POS     | ITEM     \r\n---------------");
}

#[test]
fn item_display() {
    assert_eq!(text("a\nb\n").to_display_string(), "a\r\nb\r\n");
    assert_eq!(image(640, 480, vec![]).to_display_string(), "[Image: 640x480]");
}

#[test]
fn error_message() {
    assert_eq!(
        ClipboardErr::ClipboardEmpty.message(),
        "Clipboard is empty. Please add copy something before trying again."
    );
}

#[test]
fn decimals() {
    assert_eq!(decimal_string(0), "0");
    assert_eq!(decimal_string(9), "9");
    assert_eq!(decimal_string(10), "10");
    assert_eq!(decimal_string(1234567), "1234567");
}

#[test]
fn reads_prefer_image() {
    let r = item_from_reads(Some((2, 3, vec![9])), Some("t".to_string()));
    assert_eq!(r, Ok(image(2, 3, vec![9])));
    let r = item_from_reads(None, Some("t".to_string()));
    assert_eq!(r, Ok(text("t")));
    let r = item_from_reads(None, None);
    assert_eq!(r, Err(ClipboardErr::ClipboardEmpty));
}

#[test]
fn poller_records_only_changes() {
    let mut h = ClipboardHistory::new(5);
    let mut p = Poller::start(Ok(text("old")));
    assert!(matches!(p.on_read(Ok(text("old"))), PollAction::Ignore));
    match p.on_read(Ok(text("new"))) {
        PollAction::Record(item) => {
            assert_eq!(item, text("new"));
            p.record(&mut h, item);
        }
        PollAction::Ignore => panic!("a new item was ignored"),
    }
    assert_eq!(items(&h), vec![text("new")]);
    assert!(matches!(p.on_read(Ok(text("new"))), PollAction::Ignore));
}

#[test]
fn poller_counts_failed_read_as_empty_text() {
    let p = Poller::start(Err(ClipboardErr::ClipboardEmpty));
    assert!(matches!(p.on_read(Ok(text(""))), PollAction::Ignore));
    match p.on_read(Err(ClipboardErr::ClipboardEmpty)) {
        PollAction::Ignore => {}
        PollAction::Record(_) => panic!("an empty read was recorded"),
    }
    let q = Poller::start(Ok(text("x")));
    match q.on_read(Err(ClipboardErr::ClipboardEmpty)) {
        PollAction::Record(item) => assert_eq!(item, text("")),
        PollAction::Ignore => panic!("a change to empty was ignored"),
    }
}

#[test]
fn previews() {
    assert_eq!(content_preview(&text("short")), "short");
    let long = "a".repeat(61);
    assert_eq!(content_preview(&text(&long)), format!("{}...", "a".repeat(60)));
    let exact = "b".repeat(60);
    assert_eq!(content_preview(&text(&exact)), exact);
    let wide = "é".repeat(40);
    assert_eq!(content_preview(&text(&wide)), format!("{}...", "é".repeat(30)));
    assert_eq!(content_preview(&image(3, 4, vec![])), "3x4");
}

#[test]
fn paste_decision() {
    assert!(!should_paste(&text("  \n\t")));
    assert!(!should_paste(&text("")));
    assert!(should_paste(&text(" a ")));
    assert!(!should_paste(&image(1, 1, vec![0])));
}

#[test]
fn fold_delays() {
    assert_eq!(fold_start_ms(0), 0);
    assert_eq!(fold_start_ms(3), 48);
    assert_eq!(fold_end_ms(0), 240);
    assert_eq!(fold_end_ms(5), 320);
}

#[test]
fn substring_search() {
    let v = |s: &str| s.chars().collect::<Vec<char>>();
    assert!(occurs(&v("nin"), &v("grinning")));
    assert!(occurs(&v(""), &v("abc")));
    assert!(occurs(&v("abc"), &v("abc")));
    assert!(!occurs(&v("abd"), &v("abc")));
    assert!(!occurs(&v("abcd"), &v("abc")));
}

#[test]
fn emoji_selection_from_entries() {
    let entries = vec![
        EmojiEntry { glyph: "A".to_string(), name: "Grinning Face".to_string(), shortcode: None },
        EmojiEntry { glyph: "B".to_string(), name: "cat".to_string(), shortcode: Some("Kitty".to_string()) },
        EmojiEntry { glyph: "🧑‍🩰".to_string(), name: "dancer".to_string(), shortcode: None },
    ];
    assert_eq!(select_emojis(&entries, None), vec!["A".to_string(), "B".to_string()]);
    assert_eq!(select_emojis(&entries, Some("FACE")), vec!["A".to_string()]);
    assert_eq!(select_emojis(&entries, Some("kit")), vec!["B".to_string()]);
    assert!(select_emojis(&entries, Some("danc")).is_empty());
}

#[test]
fn emoji_search_in_catalog() {
    let all = matching_emojis(None);
    assert!(all.len() > 1000);
    assert_eq!(all[0], "😀");
    assert!(!all.contains(&"🧑‍🩰".to_string()));
    let grinning = matching_emojis(Some("GRINNING FACE"));
    assert!(grinning.contains(&"😀".to_string()));
    let thinking = matching_emojis(Some("thinking"));
    assert!(thinking.contains(&"🤔".to_string()));
    assert!(matching_emojis(Some("no emoji has this name")).is_empty());
}

#[test]
fn whitespace_matches_std() {
    for u in 0u32..=0x10ffff {
        if let Some(c) = char::from_u32(u) {
            assert_eq!(is_whitespace(c), c.is_whitespace(), "U+{:04X}", u);
        }
    }
}

#[test]
fn search_filters() {
    assert_eq!(search_filter(""), None);
    assert_eq!(search_filter("   "), Some("   ".to_string()));
    assert_eq!(search_filter("Cat"), Some("cat".to_string()));
    assert_eq!(search_filter("ÉCLAIR"), Some("éclair".to_string()));
}

#[test]
fn clear_all_plans() {
    assert!(matches!(plan_clear_all(0), ClearAll::Immediately));
    assert!(matches!(plan_clear_all(3), ClearAll::Animated { end_ms: 288 }));
}

#[test]
fn snapshot_fallback() {
    let mut h = ClipboardHistory::new(2);
    h.add(text("kept"));
    let shown = history_or_empty(Some(h));
    assert_eq!(items(&shown), vec![text("kept")]);
    let mut empty = history_or_empty(None);
    assert!(empty.get_items().is_empty());
    for k in 0..30 {
        empty.add(text(&k.to_string()));
    }
    assert_eq!(empty.get_items().len(), 25);
}

#[test]
fn text_monitor_reports_changes() {
    let mut m = TextMonitor::start("a".to_string());
    assert!(!m.on_text("a".to_string()));
    assert!(m.on_text("b".to_string()));
    assert!(!m.on_text("b".to_string()));
    assert!(m.on_text("a".to_string()));
}

#[test]
fn tab_layouts() {
    let c = tab_layout(Tab::Clipboard);
    assert!(c.clipboard_active && !c.emojis_active && !c.search_visible && c.clear_all_visible);
    let e = tab_layout(Tab::Emojis);
    assert!(!e.clipboard_active && e.emojis_active && e.search_visible && !e.clear_all_visible);
}

#[test]
fn delete_positions() {
    assert_eq!(delete_index(Some(4)), 4);
    assert_eq!(delete_index(None), 0);
}

#[test]
fn poll_run_records_changes_only() {
    // (read, whether the history could be locked) per round
    let rounds = vec![
        (text("start"), true),
        (text("a"), false),
        (text("a"), true),
        (text("a"), true),
        (text("b"), true),
        (text("a"), true),
    ];
    let mut h = ClipboardHistory::new(10);
    let mut p = Poller::start(Ok(text("start")));
    let mut recorded = Vec::new();
    for (read, locked) in rounds {
        if let PollAction::Record(item) = p.on_read(Ok(read)) {
            if locked {
                recorded.push(item.clone());
                p.record(&mut h, item);
            }
        }
    }
    assert_eq!(recorded, vec![text("a"), text("b"), text("a")]);
    assert_eq!(items(&h), vec![text("a"), text("b")]);
}
