use clipball::history::{
    classify_content, compute_hash, format_relative_time, fresh_id, make_item_id, HistoryItem,
    HistoryStore,
};
use std::collections::hash_map::DefaultHasher;
use std::hash::{Hash, Hasher};

fn std_hash(content: &str) -> String {
    let mut hasher = DefaultHasher::new();
    content.hash(&mut hasher);
    format!("{:x}", hasher.finish())
}

fn item(id: &str, body: &str, created_at: u64) -> HistoryItem {
    HistoryItem {
        id: id.to_string(),
        item_type: "text".to_string(),
        type_label: "文本".to_string(),
        icon: "📝".to_string(),
        time_label: "刚刚".to_string(),
        body: body.to_string(),
        hash: "0".to_string(),
        created_at,
    }
}

#[test]
fn hash_is_lower_hex_of_default_hasher() {
    assert_eq!(compute_hash("hello"), std_hash("hello"));
    assert_eq!(compute_hash(""), std_hash(""));
    assert_eq!(compute_hash("hello"), compute_hash("hello"));
    assert_ne!(compute_hash("hello"), compute_hash("hello!"));
    assert!(compute_hash("x").chars().all(|c| c.is_ascii_hexdigit() && !c.is_ascii_uppercase()));
}

#[test]
fn links_are_classified() {
    let link = (
        "link".to_string(),
        "链接".to_string(),
        "🔗".to_string(),
    );
    let text = (
        "text".to_string(),
        "文本".to_string(),
        "📝".to_string(),
    );
    assert_eq!(classify_content("https://example.com"), link);
    assert_eq!(classify_content("  http://a.b  "), link);
    assert_eq!(classify_content("hello"), text);
    assert_eq!(classify_content("ftp://x"), text);
    assert_eq!(classify_content("HTTP://X"), text);
    assert_eq!(classify_content("see https://x"), text);
    assert_eq!(classify_content("http:/"), text);
    assert_eq!(classify_content(""), text);
}

#[test]
fn ids_take_eight_hash_characters() {
    assert_eq!(make_item_id("text", "abcdef0123456789"), "text-abcdef01");
    assert_eq!(make_item_id("link", "ab"), "link-ab");
    assert_eq!(make_item_id("text", ""), "text-");
}

#[test]
fn relative_time_labels() {
    let t = 1_000_000_000u64;
    assert_eq!(format_relative_time(t, t), "刚刚");
    assert_eq!(format_relative_time(t, t + 59_999), "刚刚");
    assert_eq!(format_relative_time(t, t + 60_000), "1 分钟前");
    assert_eq!(format_relative_time(t, t + 120_000), "2 分钟前");
    assert_eq!(format_relative_time(t, t + 59 * 60_000), "59 分钟前");
    assert_eq!(format_relative_time(t, t + 60 * 60_000), "1 小时前");
    assert_eq!(format_relative_time(t, t + 23 * 3_600_000), "23 小时前");
    assert_eq!(format_relative_time(t, t + 24 * 3_600_000), "1 天前");
    assert_eq!(format_relative_time(t, t + 29 * 86_400_000), "29 天前");
    assert_eq!(format_relative_time(t, t + 30 * 86_400_000), "很久以前");
}

#[test]
fn future_times_count_as_just_now() {
    assert_eq!(format_relative_time(5_000_000, 0), "刚刚");
}

#[test]
fn add_records_a_new_entry_first() {
    let mut store = HistoryStore::new();
    let a = store.add("first", 1000, 100).expect("new entry");
    assert_eq!(a.body, "first");
    assert_eq!(a.item_type, "text");
    assert_eq!(a.type_label, "文本");
    assert_eq!(a.icon, "📝");
    assert_eq!(a.time_label, "刚刚");
    assert_eq!(a.created_at, 1000);
    assert_eq!(a.hash, std_hash("first"));
    assert_eq!(a.id, format!("text-{}", &a.hash[..8.min(a.hash.len())]));
    let b = store.add("https://x.y", 2000, 100).expect("new entry");
    assert_eq!(b.item_type, "link");
    assert!(b.id.starts_with("link-"));
    let all = store.items();
    assert_eq!(all.len(), 2);
    assert_eq!(all[0].body, "https://x.y");
    assert_eq!(all[1].body, "first");
}

#[test]
fn adding_the_same_text_twice_keeps_one_entry() {
    let mut store = HistoryStore::new();
    assert!(store.add("same", 1, 100).is_some());
    assert!(store.add("same", 2, 100).is_none());
    assert_eq!(store.len(), 1);
    assert_eq!(store.items()[0].created_at, 1);
}

#[test]
fn only_the_newest_entry_counts_as_a_repeat() {
    let mut store = HistoryStore::new();
    store.add("a", 1, 100);
    store.add("b", 2, 100);
    assert!(store.add("a", 3, 100).is_some());
    assert_eq!(store.len(), 3);
}

#[test]
fn re_added_text_gets_a_distinct_id() {
    let mut store = HistoryStore::new();
    let first = store.add("a", 1, 100).unwrap();
    store.add("b", 2, 100);
    let again = store.add("a", 3, 100).unwrap();
    assert_eq!(again.id, format!("{}-2", first.id));
    store.add("c", 4, 100);
    let third = store.add("a", 5, 100).unwrap();
    assert_eq!(third.id, format!("{}-3", first.id));
    let ids: Vec<&str> = store.items().iter().map(|it| it.id.as_str()).collect();
    for i in 0..ids.len() {
        for j in 0..ids.len() {
            if i != j {
                assert_ne!(ids[i], ids[j]);
            }
        }
    }
}

#[test]
fn deleting_one_id_removes_one_entry() {
    let mut store = HistoryStore::new();
    let first = store.add("a", 1, 100).unwrap();
    store.add("b", 2, 100);
    store.add("a", 3, 100);
    store.delete(&first.id);
    let bodies: Vec<&str> = store.items().iter().map(|it| it.body.as_str()).collect();
    assert_eq!(bodies, vec!["a", "b"]);
}

#[test]
fn fresh_ids() {
    let items = vec![item("x", "1", 1), item("x-2", "2", 2), item("y", "3", 3)];
    assert_eq!(fresh_id(&items, "z"), "z");
    assert_eq!(fresh_id(&items, "x"), "x-3");
    assert_eq!(fresh_id(&items, "y"), "y-2");
    assert_eq!(fresh_id(&Vec::new(), "x"), "x");
}

#[test]
fn add_keeps_at_most_max_count_entries() {
    let mut store = HistoryStore::new();
    for (i, body) in ["a", "b", "c", "d"].iter().enumerate() {
        store.add(body, i as u64, 2);
        assert!(store.len() <= 2);
    }
    let bodies: Vec<&str> = store.items().iter().map(|it| it.body.as_str()).collect();
    assert_eq!(bodies, vec!["d", "c"]);
}

#[test]
fn insert_entry_uses_the_given_hash() {
    let mut store = HistoryStore::new();
    let it = store
        .insert_entry("body", "0123456789abcdef".to_string(), 5, 10)
        .expect("new entry");
    assert_eq!(it.id, "text-01234567");
    assert!(store
        .insert_entry("other body", "0123456789abcdef".to_string(), 6, 10)
        .is_none());
}

#[test]
fn loaded_repeated_ids_are_renamed_and_delete_removes_one() {
    let mut store = HistoryStore::from_items(vec![
        item("x", "1", 1),
        item("y", "2", 2),
        item("x", "3", 3),
        item("z", "4", 4),
    ]);
    let ids: Vec<&str> = store.items().iter().map(|it| it.id.as_str()).collect();
    assert_eq!(ids, vec!["x", "y", "x-2", "z"]);
    store.delete("x");
    let bodies: Vec<&str> = store.items().iter().map(|it| it.body.as_str()).collect();
    assert_eq!(bodies, vec!["2", "3", "4"]);
    store.delete("x");
    assert_eq!(store.len(), 3);
    store.delete("missing");
    assert_eq!(store.len(), 3);
}

#[test]
fn loading_distinct_ids_keeps_them() {
    let store = HistoryStore::from_items(vec![item("p", "1", 1), item("q", "2", 2)]);
    let ids: Vec<&str> = store.items().iter().map(|it| it.id.as_str()).collect();
    assert_eq!(ids, vec!["p", "q"]);
}

#[test]
fn older_entries_never_read_newer() {
    let now = 100 * 86_400_000u64;
    let ages = [0u64, 30_000, 60_000, 3_540_000, 3_600_000, 86_399_999, 86_400_000, 2_591_999_999, 2_592_000_000];
    let rank = |label: &str| -> (u32, u64) {
        if label == "刚刚" {
            (0, 0)
        } else if label == "很久以前" {
            (4, 0)
        } else {
            let (n, unit) = label.split_once(' ').unwrap();
            let r = match unit {
                "分钟前" => 1,
                "小时前" => 2,
                _ => 3,
            };
            (r, n.parse().unwrap())
        }
    };
    for w in ages.windows(2) {
        let newer = rank(&format_relative_time(now - w[0], now));
        let older = rank(&format_relative_time(now - w[1], now));
        assert!(older >= newer, "{:?} {:?}", older, newer);
    }
}

#[test]
fn surrounding_whitespace_does_not_change_the_type() {
    for body in ["https://a", "http://b c", "text", ""].iter() {
        let padded = format!(" \t\u{3000}{}\n ", body);
        assert_eq!(classify_content(&padded), classify_content(body));
        assert_eq!(classify_content(body.trim()), classify_content(body));
    }
}

#[test]
fn clear_empties_the_history() {
    let mut store = HistoryStore::from_items(vec![item("x", "1", 1), item("y", "2", 2)]);
    store.clear();
    assert_eq!(store.len(), 0);
    assert!(store.get_all(0).is_empty());
}

#[test]
fn get_all_relabels_times_only() {
    let store = HistoryStore::from_items(vec![item("x", "1", 0), item("y", "2", 3_600_000)]);
    let all = store.get_all(2 * 3_600_000);
    assert_eq!(all.len(), 2);
    assert_eq!(all[0].time_label, "2 小时前");
    assert_eq!(all[1].time_label, "1 小时前");
    assert_eq!(all[0].id, "x");
    assert_eq!(all[1].body, "2");
    assert_eq!(store.items()[0].time_label, "刚刚");
}
