//! The clipboard history: its items, how a new entry is classified, named and
//! hashed, and the operations on the list (add with de-duplication and a size
//! cap, delete by id, clear, list with relative time labels).
use vstd::prelude::*;

use crate::text::{
    append_decimal, chars_of, decimal_spec, format_decimal, format_lower_hex, has_prefix, has_prefix_spec,
    all_whitespace, lemma_radix_injective, lemma_radix_len, lemma_trim_idempotent,
    lemma_trim_keeps_prefix, lemma_trim_surrounding, lower_hex_spec, is_whitespace_spec, text_eq, trim, trim_spec,
};

verus! {

/// One entry of the clipboard history.
pub struct HistoryItem {
    pub id: String,
    /// `"link"` or `"text"`.
    pub item_type: String,
    pub type_label: String,
    pub icon: String,
    pub time_label: String,
    pub body: String,
    pub hash: String,
    /// Milliseconds since the Unix epoch.
    pub created_at: u64,
}

/// A history entry as plain values.
pub struct HistoryItemView {
    pub id: Seq<char>,
    pub item_type: Seq<char>,
    pub type_label: Seq<char>,
    pub icon: Seq<char>,
    pub time_label: Seq<char>,
    pub body: Seq<char>,
    pub hash: Seq<char>,
    pub created_at: u64,
}

impl View for HistoryItem {
    type V = HistoryItemView;

    open spec fn view(&self) -> HistoryItemView {
        HistoryItemView {
            id: self.id@,
            item_type: self.item_type@,
            type_label: self.type_label@,
            icon: self.icon@,
            time_label: self.time_label@,
            body: self.body@,
            hash: self.hash@,
            created_at: self.created_at,
        }
    }
}

impl Clone for HistoryItem {
    fn clone(&self) -> (r: Self)
        ensures
            r == *self,
    {
        HistoryItem {
            id: self.id.clone(),
            item_type: self.item_type.clone(),
            type_label: self.type_label.clone(),
            icon: self.icon.clone(),
            time_label: self.time_label.clone(),
            body: self.body.clone(),
            hash: self.hash.clone(),
            created_at: self.created_at,
        }
    }
}

/// The views of a list of items.
pub open spec fn item_views(items: Seq<HistoryItem>) -> Seq<HistoryItemView> {
    items.map_values(|it: HistoryItem| it@)
}

/// A trimmed text that begins with `http://` or `https://` is a link.
pub open spec fn is_link_spec(body: Seq<char>) -> bool {
    has_prefix_spec(trim_spec(body), "http://"@) || has_prefix_spec(trim_spec(body), "https://"@)
}

/// Type, label and icon of an entry with text `body`.
pub open spec fn classification_spec(body: Seq<char>) -> (Seq<char>, Seq<char>, Seq<char>) {
    if is_link_spec(body) {
        ("link"@, "链接"@, "🔗"@)
    } else {
        ("text"@, "文本"@, "📝"@)
    }
}

/// Whitespace around a text does not change its classification, and neither
/// does trimming it.
pub proof fn lemma_classification_ignores_surrounding_whitespace(
    w1: Seq<char>,
    body: Seq<char>,
    w2: Seq<char>,
)
    requires
        all_whitespace(w1),
        all_whitespace(w2),
    ensures
        classification_spec(w1 + body + w2) == classification_spec(body),
        classification_spec(trim_spec(body)) == classification_spec(body),
{
    lemma_trim_surrounding(w1, body, w2);
    lemma_trim_idempotent(body);
}

/// A trimmed text is a link exactly when it begins with `http://` or
/// `https://`, and then it is one whatever follows the prefix and whatever
/// whitespace comes before it.
pub proof fn lemma_link_exactly_by_prefix(body: Seq<char>, w: Seq<char>, rest: Seq<char>)
    requires
        all_whitespace(w),
    ensures
        (classification_spec(body).0 == "link"@) == (has_prefix_spec(trim_spec(body), "http://"@)
            || has_prefix_spec(trim_spec(body), "https://"@)),
        classification_spec(w + "https://"@ + rest) == ("link"@, "链接"@, "🔗"@),
        classification_spec(w + "http://"@ + rest) == ("link"@, "链接"@, "🔗"@),
{
    reveal_strlit("link");
    reveal_strlit("text");
    reveal_strlit("https://");
    reveal_strlit("http://");
    assert("link"@[0] != "text"@[0]);
    assert(!is_whitespace_spec('h'));
    assert(!is_whitespace_spec('/'));
    lemma_trim_keeps_prefix(w, "https://"@, rest);
    lemma_trim_keeps_prefix(w, "http://"@, rest);
}

/// A name for what `DefaultHasher::new()` gives from `finish()` after the
/// text with characters `content` was hashed into it.
pub uninterp spec fn default_hash_of(content: Seq<char>) -> u64;

/// The hash text of an entry: the hasher's value in lower-case hexadecimal.
pub open spec fn content_hash_spec(content: Seq<char>) -> Seq<char> {
    lower_hex_spec(default_hash_of(content) as nat)
}

/// The hash text is taken over the whole text: texts whose hashes differ get
/// different hash texts.
pub proof fn lemma_hash_text_of_whole_content(c1: Seq<char>, c2: Seq<char>)
    requires
        default_hash_of(c1) != default_hash_of(c2),
    ensures
        content_hash_spec(c1) != content_hash_spec(c2),
{
    if content_hash_spec(c1) == content_hash_spec(c2) {
        lemma_radix_injective(default_hash_of(c1) as nat, default_hash_of(c2) as nat, 16);
    }
}

/// After an entry for `earlier` was added, a text whose hash differs from
/// that of `earlier` is not a repeat and is recorded.
pub proof fn lemma_different_text_is_not_a_repeat(
    items: Seq<HistoryItemView>,
    earlier: Seq<char>,
    created_at: u64,
    max_count: nat,
    later: Seq<char>,
)
    requires
        max_count >= 1,
        default_hash_of(earlier) != default_hash_of(later),
    ensures
        !is_repeat_spec(
            insert_front_spec(
                items,
                new_entry_spec(items, earlier, content_hash_spec(earlier), created_at),
                max_count,
            ),
            content_hash_spec(later),
        ),
{
    lemma_insert_front(
        items,
        new_entry_spec(items, earlier, content_hash_spec(earlier), created_at),
        max_count,
    );
    lemma_hash_text_of_whole_content(earlier, later);
}

/// The id of an entry: its type, `-`, and the first eight characters of its hash.
pub open spec fn item_id_spec(item_type: Seq<char>, hash: Seq<char>) -> Seq<char> {
    let n: int = if hash.len() < 8 {
        hash.len() as int
    } else {
        8
    };
    item_type + "-"@ + hash.take(n)
}

/// Some entry of `items` has id `id`.
pub open spec fn has_id(items: Seq<HistoryItemView>, id: Seq<char>) -> bool {
    exists|i: int| 0 <= i < items.len() && #[trigger] items[i].id == id
}

/// No two entries of `items` share an id.
pub open spec fn ids_distinct(items: Seq<HistoryItemView>) -> bool {
    forall|i: int, j: int|
        0 <= i < items.len() && 0 <= j < items.len() && i != j ==> #[trigger] items[i].id
            != #[trigger] items[j].id
}

/// The `k`-th candidate id from `base`: `base` itself for `k <= 1`, else
/// `base`, `-` and `k` in decimal.
pub open spec fn suffixed_id(base: Seq<char>, k: nat) -> Seq<char> {
    if k <= 1 {
        base
    } else {
        base + "-"@ + decimal_spec(k)
    }
}

/// `k` is the first candidate, counting from 1, whose id no entry has.
pub open spec fn is_first_free(items: Seq<HistoryItemView>, base: Seq<char>, k: nat) -> bool {
    &&& k >= 1
    &&& !has_id(items, suffixed_id(base, k))
    &&& forall|j: nat| 1 <= j < k ==> has_id(items, #[trigger] suffixed_id(base, j))
}

/// The id given to a new entry whose plain id is `base`: `base` if no entry
/// has it, else the first of `base-2`, `base-3`, ... that no entry has.
pub open spec fn fresh_id_spec(items: Seq<HistoryItemView>, base: Seq<char>) -> Seq<char> {
    suffixed_id(base, choose|k: nat| is_first_free(items, base, k))
}

proof fn lemma_suffixed_injective(base: Seq<char>, k1: nat, k2: nat)
    requires
        k1 >= 1,
        k2 >= 1,
        suffixed_id(base, k1) == suffixed_id(base, k2),
    ensures
        k1 == k2,
{
    reveal_strlit("-");
    if k1 >= 2 && k2 >= 2 {
        let n: int = base.len() as int + 1;
        let s1 = suffixed_id(base, k1);
        assert(s1.subrange(n, s1.len() as int) =~= decimal_spec(k1));
        assert(suffixed_id(base, k2).subrange(n, s1.len() as int) =~= decimal_spec(k2));
        lemma_radix_injective(k1, k2, 10);
    } else if k1 >= 2 {
        lemma_radix_len(k1, 10);
    } else if k2 >= 2 {
        lemma_radix_len(k2, 10);
    }
}

/// Among the first `items.len() + 1` candidates one is free.
proof fn lemma_free_candidate(items: Seq<HistoryItemView>, base: Seq<char>)
    ensures
        exists|k: nat| 1 <= k <= items.len() + 1 && !has_id(items, #[trigger] suffixed_id(base, k)),
{
    let n: int = items.len() as int;
    if forall|k: nat| 1 <= k <= n + 1 ==> has_id(items, #[trigger] suffixed_id(base, k)) {
        let x = vstd::set_lib::set_int_range(1, n + 2);
        let f = |k: int| suffixed_id(base, k as nat);
        vstd::set_lib::lemma_int_range(1, n + 2);
        assert forall|a: int, b: int| x.contains(a) && x.contains(b) && f(a) == f(b) implies a
            == b by {
            lemma_suffixed_injective(base, a as nat, b as nat);
        }
        assert(vstd::relations::injective_on(f, x));
        let y = x.map(f);
        vstd::set_lib::lemma_map_size(x, y, f);
        let ids = items.map_values(|it: HistoryItemView| it.id);
        assert forall|v: Seq<char>| y.contains(v) implies ids.to_set().contains(v) by {
            let k = choose|k: int| x.contains(k) && f(k) == v;
            assert(has_id(items, suffixed_id(base, k as nat)));
            let i = choose|i: int| 0 <= i < items.len() && #[trigger] items[i].id == suffixed_id(
                base,
                k as nat,
            );
            assert(ids[i] == v);
        }
        ids.lemma_cardinality_of_set();
        vstd::set_lib::lemma_len_subset(y, ids.to_set());
        assert(false);
    }
}

proof fn lemma_first_free_from(items: Seq<HistoryItemView>, base: Seq<char>, k: nat, m: nat)
    requires
        1 <= k <= m,
        forall|j: nat| 1 <= j < k ==> has_id(items, #[trigger] suffixed_id(base, j)),
        !has_id(items, suffixed_id(base, m)),
    ensures
        exists|f: nat| is_first_free(items, base, f),
    decreases m - k,
{
    if !has_id(items, suffixed_id(base, k)) {
        assert(is_first_free(items, base, k));
    } else {
        assert(forall|j: nat| 1 <= j < k + 1 ==> has_id(items, #[trigger] suffixed_id(base, j)));
        lemma_first_free_from(items, base, k + 1, m);
    }
}

/// A first free candidate exists, is one of the first `items.len() + 1`, and
/// is the only one.
pub proof fn lemma_fresh_id(items: Seq<HistoryItemView>, base: Seq<char>)
    ensures
        exists|k: nat| is_first_free(items, base, k),
        forall|k: nat| is_first_free(items, base, k) ==> k <= items.len() + 1,
        forall|k1: nat, k2: nat|
            is_first_free(items, base, k1) && is_first_free(items, base, k2) ==> k1 == k2,
        !has_id(items, fresh_id_spec(items, base)),
        !has_id(items, base) ==> fresh_id_spec(items, base) == base,
{
    lemma_free_candidate(items, base);
    let m0 = choose|m: nat| 1 <= m <= items.len() + 1 && !has_id(items, #[trigger] suffixed_id(base, m));
    lemma_first_free_from(items, base, 1, m0);
    assert forall|k: nat| is_first_free(items, base, k) implies k <= items.len() + 1 by {
        let m = choose|m: nat| 1 <= m <= items.len() + 1 && !has_id(items, #[trigger] suffixed_id(base, m));
        if k > items.len() + 1 {
            assert(has_id(items, suffixed_id(base, m)));
        }
    }
    assert forall|k1: nat, k2: nat|
        is_first_free(items, base, k1) && is_first_free(items, base, k2) implies k1 == k2 by {
        if k1 < k2 {
            assert(has_id(items, suffixed_id(base, k1)));
        }
        if k2 < k1 {
            assert(has_id(items, suffixed_id(base, k2)));
        }
    }
    if !has_id(items, base) {
        assert(is_first_free(items, base, 1));
    }
}

/// The label shown for an entry made `now - created_at` milliseconds ago.
pub open spec fn relative_time_spec(created_at: u64, now: u64) -> Seq<char> {
    let diff_ms: int = if now >= created_at {
        now - created_at
    } else {
        0
    };
    let minutes = diff_ms / 60000;
    let hours = minutes / 60;
    let days = hours / 24;
    if minutes < 1 {
        "刚刚"@
    } else if minutes < 60 {
        decimal_spec(minutes as nat) + " 分钟前"@
    } else if hours < 24 {
        decimal_spec(hours as nat) + " 小时前"@
    } else if days < 30 {
        decimal_spec(days as nat) + " 天前"@
    } else {
        "很久以前"@
    }
}

/// Whole minutes from `created_at` to `now` (none when `now` is earlier).
pub open spec fn age_minutes(created_at: u64, now: u64) -> int {
    let diff_ms: int = if now >= created_at {
        now - created_at
    } else {
        0
    };
    diff_ms / 60000
}

/// Which kind of label an age in minutes gets: 0 just now, 1 minutes,
/// 2 hours, 3 days, 4 long ago.
pub open spec fn time_rank(minutes: int) -> int {
    if minutes < 1 {
        0
    } else if minutes < 60 {
        1
    } else if minutes / 60 < 24 {
        2
    } else if minutes / 60 / 24 < 30 {
        3
    } else {
        4
    }
}

/// The number a label of that kind shows (0 for the kinds without one).
pub open spec fn time_count(minutes: int) -> int {
    let r = time_rank(minutes);
    if r == 1 {
        minutes
    } else if r == 2 {
        minutes / 60
    } else if r == 3 {
        minutes / 60 / 24
    } else {
        0
    }
}

/// The label of a kind and number.
pub open spec fn time_label_spec(rank: int, count: int) -> Seq<char> {
    if rank == 0 {
        "刚刚"@
    } else if rank == 1 {
        decimal_spec(count as nat) + " 分钟前"@
    } else if rank == 2 {
        decimal_spec(count as nat) + " 小时前"@
    } else if rank == 3 {
        decimal_spec(count as nat) + " 天前"@
    } else {
        "很久以前"@
    }
}

/// A label is fixed by its kind and number, and an older entry never reads
/// as newer: at one time `now`, an entry made earlier gets a later kind of
/// label, or the same kind with a number at least as large.
pub proof fn lemma_older_never_newer(c1: u64, c2: u64, now: u64)
    requires
        c1 <= c2,
    ensures
        relative_time_spec(c1, now) == time_label_spec(
            time_rank(age_minutes(c1, now)),
            time_count(age_minutes(c1, now)),
        ),
        time_rank(age_minutes(c1, now)) > time_rank(age_minutes(c2, now)) || (time_rank(
            age_minutes(c1, now),
        ) == time_rank(age_minutes(c2, now)) && time_count(age_minutes(c1, now)) >= time_count(
            age_minutes(c2, now),
        )),
{
    let d1: int = if now >= c1 {
        now - c1
    } else {
        0
    };
    let d2: int = if now >= c2 {
        now - c2
    } else {
        0
    };
    assert(d2 <= d1);
    let m1 = d1 / 60000;
    let m2 = d2 / 60000;
    vstd::arithmetic::div_mod::lemma_div_is_ordered(d2, d1, 60000);
    vstd::arithmetic::div_mod::lemma_div_is_ordered(m2, m1, 60);
    vstd::arithmetic::div_mod::lemma_div_is_ordered(m2 / 60, m1 / 60, 24);
}

/// An entry made less than a minute ago (or stamped in the future) is shown as
/// made just now.
pub proof fn lemma_recent_is_just_now(created_at: u64, now: u64)
    requires
        now < created_at + 60000,
    ensures
        relative_time_spec(created_at, now) == "刚刚"@,
{
}

/// The entry made for `body`, whose hash text is `hash`, at time `created_at`,
/// when the history holds `items`: its id is the plain id made fresh.
pub open spec fn new_entry_spec(
    items: Seq<HistoryItemView>,
    body: Seq<char>,
    hash: Seq<char>,
    created_at: u64,
) -> HistoryItemView {
    let c = classification_spec(body);
    HistoryItemView {
        id: fresh_id_spec(items, item_id_spec(c.0, hash)),
        item_type: c.0,
        type_label: c.1,
        icon: c.2,
        time_label: "刚刚"@,
        body,
        hash,
        created_at,
    }
}

/// The newest entry already has hash text `hash`.
pub open spec fn is_repeat_spec(items: Seq<HistoryItemView>, hash: Seq<char>) -> bool {
    items.len() > 0 && items[0].hash == hash
}

/// `entry` put first, then the list cut to at most `max_count` entries.
pub open spec fn insert_front_spec(
    items: Seq<HistoryItemView>,
    entry: HistoryItemView,
    max_count: nat,
) -> Seq<HistoryItemView> {
    let grown = seq![entry] + items;
    if grown.len() > max_count {
        grown.take(max_count as int)
    } else {
        grown
    }
}

/// `item` with its time label replaced.
pub open spec fn with_time_label(item: HistoryItemView, label: Seq<char>) -> HistoryItemView {
    HistoryItemView { time_label: label, ..item }
}

/// Adding puts the new entry first, keeps the older entries after it in their
/// order, and leaves `min(len + 1, max_count)` entries, so a history within its
/// size limit stays within it.
pub proof fn lemma_insert_front(items: Seq<HistoryItemView>, entry: HistoryItemView, max_count: nat)
    requires
        max_count >= 1,
    ensures
        insert_front_spec(items, entry, max_count).len() == (if items.len() + 1 <= max_count {
            items.len() + 1
        } else {
            max_count
        }),
        insert_front_spec(items, entry, max_count).len() <= max_count,
        insert_front_spec(items, entry, max_count)[0] == entry,
        forall|i: int|
            0 <= i < insert_front_spec(items, entry, max_count).len() - 1 ==> #[trigger] insert_front_spec(
                items,
                entry,
                max_count,
            )[i + 1] == items[i],
{
    let grown = seq![entry] + items;
    assert(grown[0] == entry);
    assert forall|i: int| 0 <= i < grown.len() - 1 implies grown[i + 1] == items[i] by {}
}

/// Once an entry for a text has been added, adding the same text (with the
/// same hash) again right after is a repeat: nothing is added.
pub proof fn lemma_add_same_twice(
    items: Seq<HistoryItemView>,
    body: Seq<char>,
    hash: Seq<char>,
    created_at: u64,
    max_count: nat,
)
    requires
        max_count >= 1,
    ensures
        is_repeat_spec(
            insert_front_spec(items, new_entry_spec(items, body, hash, created_at), max_count),
            hash,
        ),
{
    lemma_insert_front(items, new_entry_spec(items, body, hash, created_at), max_count);
}

/// The entries kept by deleting `id`.
pub open spec fn delete_spec(items: Seq<HistoryItemView>, id: Seq<char>) -> Seq<HistoryItemView> {
    items.filter(|it: HistoryItemView| it.id != id)
}

/// After deleting `id` no entry has that id, every other entry is still
/// there, and deleting `id` again changes nothing.
pub proof fn lemma_delete(items: Seq<HistoryItemView>, id: Seq<char>)
    ensures
        forall|i: int| 0 <= i < delete_spec(items, id).len() ==> #[trigger] delete_spec(items, id)[i].id != id,
        forall|i: int| 0 <= i < items.len() && items[i].id != id ==> #[trigger] delete_spec(items, id).contains(items[i]),
        delete_spec(delete_spec(items, id), id) == delete_spec(items, id),
    decreases items.len(),
{
    let pred = |it: HistoryItemView| it.id != id;
    broadcast use vstd::seq_lib::group_filter_ensures;
    assert forall|i: int| 0 <= i < items.filter(pred).len() implies #[trigger] items.filter(pred)[i].id != id by {
        items.lemma_filter_pred(pred, i);
    }
    assert forall|i: int| 0 <= i < items.len() && items[i].id != id implies #[trigger] items.filter(pred).contains(items[i]) by {
        items.lemma_filter_contains(pred, i);
    }
    reveal_with_fuel(Seq::<_>::filter, 1);
    if items.len() > 0 {
        lemma_delete(items.drop_last(), id);
        let rest = items.drop_last().filter(pred);
        if pred(items.last()) {
            assert(rest.push(items.last()).drop_last() =~= rest);
        }
    }
}

/// The hash of `content`, as the text kept in an entry.
pub fn compute_hash(content: &str) -> (r: String)
    ensures
        r@ == content_hash_spec(content@),
{
    let h = hash_text(content);
    format_lower_hex(h)
}

/// The hash of the text `content`.
///
/// Trusted: a `std::collections::hash_map::DefaultHasher` made by `new()` (which
/// uses fixed keys, so equal texts give equal values within one build) is fed
/// the text through `Hash for str` and read with `Hasher::finish`. The result
/// is named, not stated.
#[verifier::external_body]
fn hash_text(content: &str) -> (h: u64)
    ensures
        h == default_hash_of(content@),
{
    let mut hasher = std::collections::hash_map::DefaultHasher::new();
    std::hash::Hash::hash(content, &mut hasher);
    std::hash::Hasher::finish(&hasher)
}

/// Type, label and icon for an entry with text `body`.
pub fn classify_content(body: &str) -> (r: (String, String, String))
    ensures
        (r.0@, r.1@, r.2@) == classification_spec(body@),
{
    let trimmed = trim(body);
    let v = chars_of(trimmed.as_str());
    if has_prefix(v.as_slice(), "http://") || has_prefix(v.as_slice(), "https://") {
        ("link".to_owned(), "链接".to_owned(), "🔗".to_owned())
    } else {
        ("text".to_owned(), "文本".to_owned(), "📝".to_owned())
    }
}

/// The id of an entry of type `item_type` with hash text `hash`.
pub fn make_item_id(item_type: &str, hash: &str) -> (r: String)
    ensures
        r@ == item_id_spec(item_type@, hash@),
{
    let len = hash.unicode_len();
    let n = if len < 8 {
        len
    } else {
        8
    };
    let mut id = item_type.to_owned();
    id.append("-");
    id.append(hash.substring_char(0, n));
    assert(hash@.subrange(0, n as int) =~= hash@.take(n as int));
    id
}

/// How long ago `created_at` was at time `now`, as shown in the list.
pub fn format_relative_time(created_at: u64, now: u64) -> (r: String)
    ensures
        r@ == relative_time_spec(created_at, now),
{
    let diff_ms = if now >= created_at {
        now - created_at
    } else {
        0
    };
    let diff_min = diff_ms / 60000;
    let diff_hour = diff_min / 60;
    let diff_day = diff_hour / 24;
    if diff_min < 1 {
        "刚刚".to_owned()
    } else if diff_min < 60 {
        let mut s = format_decimal(diff_min);
        s.append(" 分钟前");
        s
    } else if diff_hour < 24 {
        let mut s = format_decimal(diff_hour);
        s.append(" 小时前");
        s
    } else if diff_day < 30 {
        let mut s = format_decimal(diff_day);
        s.append(" 天前");
        s
    } else {
        "很久以前".to_owned()
    }
}

/// Whether some entry of `items` has id `id`.
fn id_in_use(items: &Vec<HistoryItem>, id: &str) -> (r: bool)
    ensures
        r == has_id(item_views(items@), id@),
{
    let n = items.len();
    for i in 0..n
        invariant
            n == items@.len(),
            forall|k: int| 0 <= k < i ==> items@[k]@.id != id@,
    {
        if text_eq(items[i].id.as_str(), id) {
            assert(item_views(items@)[i as int].id == id@);
            return true;
        }
    }
    assert forall|k: int| 0 <= k < item_views(items@).len() implies #[trigger] item_views(
        items@,
    )[k].id != id@ by {
        assert(item_views(items@)[k] == items@[k]@);
    }
    false
}

/// `base`, `-` and `k` in decimal.
fn suffixed(base: &str, k: u128) -> (r: String)
    requires
        k >= 2,
    ensures
        r@ == suffixed_id(base@, k as nat),
{
    let mut s = base.to_owned();
    s.append("-");
    append_decimal(k, &mut s);
    s
}

/// The id for a new entry with plain id `base` among `items`: `base` if it is
/// not in use, else the first of `base-2`, `base-3`, ... that is not.
pub fn fresh_id(items: &Vec<HistoryItem>, base: &str) -> (r: String)
    ensures
        r@ == fresh_id_spec(item_views(items@), base@),
        !has_id(item_views(items@), r@),
{
    let ghost view = item_views(items@);
    proof {
        lemma_fresh_id(view, base@);
    }
    if !id_in_use(items, base) {
        return base.to_owned();
    }
    let ghost ff = choose|k: nat| is_first_free(view, base@, k);
    assert(ff != 1);
    let n = items.len();
    let mut k: u128 = 2;
    loop
        invariant
            view == item_views(items@),
            2 <= k <= ff,
            ff <= view.len() + 1,
            view.len() == n,
            is_first_free(view, base@, ff),
            forall|k1: nat, k2: nat|
                is_first_free(view, base@, k1) && is_first_free(view, base@, k2) ==> k1 == k2,
            forall|j: nat| 1 <= j < k ==> has_id(view, #[trigger] suffixed_id(base@, j)),
            fresh_id_spec(view, base@) == suffixed_id(base@, ff),
        decreases ff - k,
    {
        let cand = suffixed(base, k);
        if !id_in_use(items, cand.as_str()) {
            assert(is_first_free(view, base@, k as nat));
            return cand;
        }
        assert(k != ff);
        k = k + 1;
    }
}

/// The entries with ids made distinct: each entry, in order, keeps its id
/// unless an earlier one has it, in which case it gets the first free
/// `id-2`, `id-3`, ... .
pub open spec fn unique_ids_spec(items: Seq<HistoryItemView>) -> Seq<HistoryItemView>
    decreases items.len(),
{
    if items.len() == 0 {
        Seq::empty()
    } else {
        let prev = unique_ids_spec(items.drop_last());
        let it = items.last();
        prev.push(HistoryItemView { id: fresh_id_spec(prev, it.id), ..it })
    }
}

/// Entries whose ids are already distinct keep them.
pub proof fn lemma_unique_ids_keeps_distinct(items: Seq<HistoryItemView>)
    requires
        ids_distinct(items),
    ensures
        unique_ids_spec(items) == items,
    decreases items.len(),
{
    if items.len() > 0 {
        let d = items.drop_last();
        assert(ids_distinct(d)) by {
            assert forall|i: int, j: int|
                0 <= i < d.len() && 0 <= j < d.len() && i != j implies #[trigger] d[i].id
                    != #[trigger] d[j].id by {
                assert(d[i] == items[i] && d[j] == items[j]);
            }
        }
        lemma_unique_ids_keeps_distinct(d);
        lemma_fresh_id(d, items.last().id);
        if has_id(d, items.last().id) {
            let i = choose|i: int| 0 <= i < d.len() && #[trigger] d[i].id == items.last().id;
            assert(items[i].id == items[items.len() - 1].id);
        }
        assert(d.push(items.last()) =~= items);
    }
}

/// Ids stay distinct when an entry with an unused id is put first and the
/// list is cut.
pub proof fn lemma_insert_keeps_ids_distinct(
    items: Seq<HistoryItemView>,
    entry: HistoryItemView,
    max_count: nat,
)
    requires
        ids_distinct(items),
        !has_id(items, entry.id),
    ensures
        ids_distinct(insert_front_spec(items, entry, max_count)),
{
    let grown = seq![entry] + items;
    assert forall|i: int, j: int|
        0 <= i < grown.len() && 0 <= j < grown.len() && i != j implies #[trigger] grown[i].id
            != #[trigger] grown[j].id by {
        if i == 0 {
            assert(grown[j] == items[j - 1]);
        } else if j == 0 {
            assert(grown[i] == items[i - 1]);
        } else {
            assert(grown[i] == items[i - 1] && grown[j] == items[j - 1]);
        }
    }
    let r = insert_front_spec(items, entry, max_count);
    assert forall|i: int, j: int|
        0 <= i < r.len() && 0 <= j < r.len() && i != j implies #[trigger] r[i].id
            != #[trigger] r[j].id by {
        assert(r[i] == grown[i] && r[j] == grown[j]);
    }
}

proof fn lemma_insert_back_keeps_ids_distinct(items: Seq<HistoryItemView>, entry: HistoryItemView)
    requires
        ids_distinct(items),
        !has_id(items, entry.id),
    ensures
        ids_distinct(items.push(entry)),
{
    let r = items.push(entry);
    assert forall|i: int, j: int|
        0 <= i < r.len() && 0 <= j < r.len() && i != j implies #[trigger] r[i].id
            != #[trigger] r[j].id by {
        if i == r.len() - 1 {
            assert(r[j] == items[j]);
        } else if j == r.len() - 1 {
            assert(r[i] == items[i]);
        } else {
            assert(r[i] == items[i] && r[j] == items[j]);
        }
    }
}

/// Deleting keeps ids distinct.
pub proof fn lemma_delete_keeps_ids_distinct(items: Seq<HistoryItemView>, id: Seq<char>)
    requires
        ids_distinct(items),
    ensures
        ids_distinct(delete_spec(items, id)),
    decreases items.len(),
{
    let pred = |it: HistoryItemView| it.id != id;
    reveal_with_fuel(Seq::<_>::filter, 1);
    if items.len() > 0 {
        let d = items.drop_last();
        assert(ids_distinct(d)) by {
            assert forall|i: int, j: int|
                0 <= i < d.len() && 0 <= j < d.len() && i != j implies #[trigger] d[i].id
                    != #[trigger] d[j].id by {
                assert(d[i] == items[i] && d[j] == items[j]);
            }
        }
        lemma_delete_keeps_ids_distinct(d, id);
        let rest = d.filter(pred);
        if pred(items.last()) {
            let r = rest.push(items.last());
            assert forall|i: int, j: int|
                0 <= i < r.len() && 0 <= j < r.len() && i != j implies #[trigger] r[i].id
                    != #[trigger] r[j].id by {
                if i == r.len() - 1 || j == r.len() - 1 {
                    let o = if i == r.len() - 1 { j } else { i };
                    assert(rest.contains(r[o]));
                    d.lemma_filter_contains_rev(pred, r[o]);
                    let m = choose|m: int| 0 <= m < d.len() && d[m] == r[o];
                    assert(items[m] == d[m]);
                } else {
                    assert(r[i] == rest[i] && r[j] == rest[j]);
                }
            }
        }
    }
}

/// With distinct ids, deleting the id of one entry removes that entry only.
pub proof fn lemma_delete_single(items: Seq<HistoryItemView>, i: int)
    requires
        ids_distinct(items),
        0 <= i < items.len(),
    ensures
        delete_spec(items, items[i].id) == items.remove(i),
    decreases items.len(),
{
    let id = items[i].id;
    let pred = |it: HistoryItemView| it.id != id;
    reveal_with_fuel(Seq::<_>::filter, 1);
    let d = items.drop_last();
    assert(ids_distinct(d)) by {
        assert forall|a: int, b: int|
            0 <= a < d.len() && 0 <= b < d.len() && a != b implies #[trigger] d[a].id
                != #[trigger] d[b].id by {
            assert(d[a] == items[a] && d[b] == items[b]);
        }
    }
    if i == items.len() - 1 {
        lemma_filter_all_pass(d, pred);
        assert(items.remove(i) =~= d);
    } else {
        lemma_delete_single(d, i);
        assert(pred(items.last()));
        assert(items.remove(i) =~= d.remove(i).push(items.last()));
    }
}

proof fn lemma_filter_all_pass(items: Seq<HistoryItemView>, pred: spec_fn(HistoryItemView) -> bool)
    requires
        forall|k: int| 0 <= k < items.len() ==> pred(#[trigger] items[k]),
    ensures
        items.filter(pred) == items,
    decreases items.len(),
{
    reveal_with_fuel(Seq::<_>::filter, 1);
    if items.len() > 0 {
        let d = items.drop_last();
        assert forall|k: int| 0 <= k < d.len() implies pred(#[trigger] d[k]) by {
            assert(d[k] == items[k]);
        }
        lemma_filter_all_pass(d, pred);
        assert(d.push(items.last()) =~= items);
    }
}

/// The list of history entries, newest first; no two entries share an id.
pub struct HistoryStore {
    items: Vec<HistoryItem>,
}

impl View for HistoryStore {
    type V = Seq<HistoryItemView>;

    closed spec fn view(&self) -> Seq<HistoryItemView> {
        item_views(self.items@)
    }
}

impl HistoryStore {
    #[verifier::type_invariant]
    spec fn inv(self) -> bool {
        ids_distinct(item_views(self.items@))
    }

    /// An empty history.
    pub fn new() -> (r: Self)
        ensures
            r@ == Seq::<HistoryItemView>::empty(),
            ids_distinct(r@),
    {
        let r = HistoryStore { items: Vec::new() };
        assert(r@ =~= Seq::<HistoryItemView>::empty());
        r
    }

    /// A history holding `items`, as loaded from storage; an entry whose id an
    /// earlier entry already has gets the first free `id-2`, `id-3`, ... .
    pub fn from_items(items: Vec<HistoryItem>) -> (r: Self)
        ensures
            r@ == unique_ids_spec(item_views(items@)),
            ids_distinct(r@),
    {
        let ghost all = item_views(items@);
        let mut kept: Vec<HistoryItem> = Vec::new();
        let n = items.len();
        for i in 0..n
            invariant
                n == items@.len(),
                all == item_views(items@),
                item_views(kept@) == unique_ids_spec(all.take(i as int)),
                ids_distinct(item_views(kept@)),
        {
            let mut it = items[i].clone();
            let id = fresh_id(&kept, it.id.as_str());
            it.id = id;
            proof {
                assert(all.take(i + 1).drop_last() =~= all.take(i as int));
                assert(all.take(i + 1).last() == all[i as int]);
                lemma_insert_back_keeps_ids_distinct(item_views(kept@), it@);
            }
            let ghost prev = kept@;
            kept.push(it);
            assert(item_views(kept@) =~= item_views(prev).push(it@));
        }
        assert(all.take(n as int) =~= all);
        HistoryStore { items: kept }
    }

    /// The stored entries, as they are to be saved.
    pub fn items(&self) -> (r: &Vec<HistoryItem>)
        ensures
            item_views(r@) == self@,
    {
        &self.items
    }

    /// The number of entries.
    pub fn len(&self) -> (r: usize)
        ensures
            r == self@.len(),
    {
        self.items.len()
    }

    /// All entries, each with its time label computed for time `now`.
    pub fn get_all(&self, now: u64) -> (r: Vec<HistoryItem>)
        ensures
            r@.len() == self@.len(),
            forall|i: int|
                0 <= i < r@.len() ==> #[trigger] r@[i]@ == with_time_label(
                    self@[i],
                    relative_time_spec(self@[i].created_at, now),
                ),
    {
        let mut out: Vec<HistoryItem> = Vec::new();
        let n = self.items.len();
        for i in 0..n
            invariant
                n == self.items@.len(),
                out@.len() == i,
                forall|k: int|
                    0 <= k < i ==> #[trigger] out@[k]@ == with_time_label(
                        self.items@[k]@,
                        relative_time_spec(self.items@[k].created_at, now),
                    ),
        {
            let mut item = self.items[i].clone();
            item.time_label = format_relative_time(item.created_at, now);
            out.push(item);
        }
        out
    }

    /// Puts a new entry for `body`, whose hash text is `hash`, first, unless
    /// the newest entry has the same hash; then keeps at most `max_count`
    /// entries. Returns the new entry.
    pub fn insert_entry(&mut self, body: &str, hash: String, created_at: u64, max_count: usize) -> (r:
        Option<HistoryItem>)
        ensures
            is_repeat_spec(old(self)@, hash@) ==> r is None && final(self)@ == old(self)@,
            !is_repeat_spec(old(self)@, hash@) ==> (r matches Some(item) && item@ == new_entry_spec(
                old(self)@,
                body@,
                hash@,
                created_at,
            ) && !has_id(old(self)@, item@.id) && final(self)@ == insert_front_spec(
                old(self)@,
                item@,
                max_count as nat,
            )),
            ids_distinct(final(self)@),
    {
        proof {
            use_type_invariant(&*self);
        }
        if self.items.len() > 0 && self.items[0].hash == hash {
            return None;
        }
        let (item_type, type_label, icon) = classify_content(body);
        let base = make_item_id(item_type.as_str(), hash.as_str());
        let id = fresh_id(&self.items, base.as_str());
        let item = HistoryItem {
            id,
            item_type,
            type_label,
            icon,
            time_label: "刚刚".to_owned(),
            body: body.to_owned(),
            hash,
            created_at,
        };
        let mut items: Vec<HistoryItem> = Vec::new();
        std::mem::swap(&mut items, &mut self.items);
        let ghost before = items@;
        items.insert(0, item.clone());
        assert(items@ =~= seq![item] + before);
        if items.len() > max_count {
            items.truncate(max_count);
        }
        proof {
            let grown = seq![item@] + item_views(before);
            assert(item_views(seq![item] + before) =~= grown);
            if grown.len() > max_count {
                assert(item_views((seq![item] + before).subrange(0, max_count as int))
                    =~= grown.take(max_count as int));
            }
            lemma_insert_keeps_ids_distinct(item_views(before), item@, max_count as nat);
        }
        self.items = items;
        Some(item)
    }

    /// Records `body` at time `created_at`: a new first entry unless the
    /// newest entry has the same hash, then at most `max_count` entries are
    /// kept. Returns the new entry, or `None` for a repeat.
    pub fn add(&mut self, body: &str, created_at: u64, max_count: usize) -> (r: Option<HistoryItem>)
        ensures
            is_repeat_spec(old(self)@, content_hash_spec(body@)) ==> r is None && final(self)@
                == old(self)@,
            !is_repeat_spec(old(self)@, content_hash_spec(body@)) ==> (r matches Some(item)
                && item@ == new_entry_spec(old(self)@, body@, content_hash_spec(body@), created_at)
                && !has_id(old(self)@, item@.id)
                && final(self)@ == insert_front_spec(old(self)@, item@, max_count as nat)),
            ids_distinct(final(self)@),
    {
        let hash = compute_hash(body);
        self.insert_entry(body, hash, created_at, max_count)
    }

    /// Removes every entry whose id is `id`, keeping the others in order.
    pub fn delete(&mut self, id: &str)
        ensures
            final(self)@ == delete_spec(old(self)@, id@),
            ids_distinct(final(self)@),
    {
        proof {
            use_type_invariant(&*self);
        }
        let ghost pred = |it: HistoryItemView| it.id != id@;
        let ghost all = item_views(self.items@);
        let mut kept: Vec<HistoryItem> = Vec::new();
        let n = self.items.len();
        for i in 0..n
            invariant
                n == self.items@.len(),
                all == item_views(self.items@),
                pred == (|it: HistoryItemView| it.id != id@),
                item_views(kept@) =~= all.take(i as int).filter(pred),
        {
            reveal_with_fuel(Seq::<_>::filter, 1);
            let keep = !text_eq(self.items[i].id.as_str(), id);
            if keep {
                kept.push(self.items[i].clone());
            }
            assert(all.take(i + 1).drop_last() =~= all.take(i as int));
            assert(item_views(kept@) =~= all.take(i + 1).filter(pred));
        }
        assert(all.take(n as int) =~= all);
        proof {
            lemma_delete_keeps_ids_distinct(all, id@);
        }
        self.items = kept;
    }

    /// Removes every entry.
    pub fn clear(&mut self)
        ensures
            final(self)@ == Seq::<HistoryItemView>::empty(),
    {
        self.items = Vec::new();
        assert(item_views(self.items@) =~= Seq::<HistoryItemView>::empty());
    }
}

} // verus!
