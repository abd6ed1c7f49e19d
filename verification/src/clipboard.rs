use vstd::prelude::*;

use crate::instant::{
    chrono_instant, days_before, days_before_in_range, earlier, minus_days, parse_rfc3339, rfc3339_instant,
    rfc3339_of, rfc3339_text, valid_instant, UtcInstant,
};
use crate::subsequence::{
    is_subsequence, lemma_subsequence_elements, lemma_subsequence_len, lemma_subsequence_of_tail,
    lemma_subsequence_reflexive, lemma_subsequence_transitive,
};
use crate::digest::{hex_lower, sha256, sha256_hex};
use crate::text::{
    blank, collapse_whitespace, is_blank, join, same, concat, decimal, decimal_text, file_name, joined, owned, path_file_name,
    string_of, views, words,
};
use vstd::arithmetic::power::pow;
use vstd::utf8::encode_utf8;

verus! {

/// One entry of the clipboard history.
#[derive(Clone, Debug, PartialEq, Eq)]
pub struct ClipboardItem {
    pub id: String,
    pub kind: String,
    pub text: String,
    pub preview: String,
    pub copied_at: String,
    pub favorite: bool,
    pub image_path: String,
    pub width: usize,
    pub height: usize,
    pub file_paths: Vec<String>,
}

/// What the clipboard history records and how long it keeps it.
#[derive(Clone, Copy, Debug, PartialEq, Eq, Structural)]
pub struct ClipboardSettings {
    pub enabled: bool,
    pub retention_days: u32,
    pub max_items: usize,
    pub capture_text: bool,
    pub capture_images: bool,
    pub capture_files: bool,
}

/// Recording is on unless the user turns it off.
pub fn default_clipboard_enabled() -> (r: bool)
    ensures
        r,
{
    true
}

/// The history keeps 200 entries unless the user chooses otherwise.
pub fn default_clipboard_max_items() -> (r: usize)
    ensures
        r == 200,
{
    200
}

/// Text, images and files are captured unless the user turns them off.
pub fn default_clipboard_capture() -> (r: bool)
    ensures
        r,
{
    true
}

/// The settings of a fresh installation.
pub open spec fn default_settings() -> ClipboardSettings {
    ClipboardSettings {
        enabled: true,
        retention_days: 0,
        max_items: 200,
        capture_text: true,
        capture_images: true,
        capture_files: true,
    }
}

impl Default for ClipboardSettings {
    fn default() -> (r: Self)
        ensures
            r == default_settings(),
    {
        ClipboardSettings {
            enabled: default_clipboard_enabled(),
            retention_days: 0,
            max_items: default_clipboard_max_items(),
            capture_text: default_clipboard_capture(),
            capture_images: default_clipboard_capture(),
            capture_files: default_clipboard_capture(),
        }
    }
}

/// The longest retention the user may choose, in days.
pub const MAX_RETENTION_DAYS: u32 = 3650;

/// The fewest entries the history may be limited to.
pub const MIN_MAX_ITEMS: usize = 10;

/// The most entries the history may be limited to.
pub const MAX_MAX_ITEMS: usize = 5000;

/// Settings brought within bounds: retention at most 3650 days, between 10
/// and 5000 entries.
pub open spec fn normalized_settings(s: ClipboardSettings) -> ClipboardSettings {
    ClipboardSettings {
        retention_days: if s.retention_days > MAX_RETENTION_DAYS {
            MAX_RETENTION_DAYS
        } else {
            s.retention_days
        },
        max_items: if s.max_items < MIN_MAX_ITEMS {
            MIN_MAX_ITEMS
        } else if s.max_items > MAX_MAX_ITEMS {
            MAX_MAX_ITEMS
        } else {
            s.max_items
        },
        ..s
    }
}

/// Brings the retention and capacity settings within bounds; the other
/// settings are kept.
pub fn normalize_clipboard_settings(settings: ClipboardSettings) -> (r: ClipboardSettings)
    ensures
        r == normalized_settings(settings),
{
    let mut s = settings;
    if s.retention_days > MAX_RETENTION_DAYS {
        s.retention_days = MAX_RETENTION_DAYS;
    }
    if s.max_items < MIN_MAX_ITEMS {
        s.max_items = MIN_MAX_ITEMS;
    } else if s.max_items > MAX_MAX_ITEMS {
        s.max_items = MAX_MAX_ITEMS;
    }
    s
}

/// Normalized settings lie within the bounds and normalizing them again
/// changes nothing: settings that were saved normalized read back as they
/// were saved.
pub proof fn law_normalize_settings_idempotent(s: ClipboardSettings)
    ensures
        normalized_settings(s).retention_days <= MAX_RETENTION_DAYS,
        MIN_MAX_ITEMS <= normalized_settings(s).max_items <= MAX_MAX_ITEMS,
        normalized_settings(normalized_settings(s)) == normalized_settings(s),
        s.retention_days <= MAX_RETENTION_DAYS && MIN_MAX_ITEMS <= s.max_items <= MAX_MAX_ITEMS
            ==> normalized_settings(s) == s,
{
}

/// An entry survives the retention period when it is a favorite, when
/// retention is off (0 days), when its copy time cannot be read, or when it
/// was copied no earlier than `days` days before `now`.
pub open spec fn survives_retention(item: ClipboardItem, days: u32, now: UtcInstant) -> bool {
    item.favorite || days == 0 || match rfc3339_instant(item.copied_at@) {
        None => true,
        Some(t) => !earlier((t.0 as int, t.1 as int), days_before(now, days)),
    }
}

/// The entries of `h` that survive the retention period, in order.
pub open spec fn retained(h: Seq<ClipboardItem>, days: u32, now: UtcInstant) -> Seq<ClipboardItem>
    decreases h.len(),
{
    if h.len() == 0 {
        h
    } else {
        let rest = retained(h.drop_first(), days, now);
        if survives_retention(h[0], days, now) {
            seq![h[0]] + rest
        } else {
            rest
        }
    }
}

/// The number of favorites in `h`.
pub open spec fn favorite_count(h: Seq<ClipboardItem>) -> nat
    decreases h.len(),
{
    if h.len() == 0 {
        0
    } else {
        (if h[0].favorite {
            1nat
        } else {
            0nat
        }) + favorite_count(h.drop_first())
    }
}

/// The first `favorites` favorites and the first `others` other entries of
/// `h`, in their order in `h`.
pub open spec fn first_entries(h: Seq<ClipboardItem>, favorites: nat, others: nat) -> Seq<
    ClipboardItem,
>
    decreases h.len(),
{
    if h.len() == 0 {
        h
    } else if h[0].favorite {
        if favorites > 0 {
            seq![h[0]] + first_entries(h.drop_first(), (favorites - 1) as nat, others)
        } else {
            first_entries(h.drop_first(), favorites, others)
        }
    } else {
        if others > 0 {
            seq![h[0]] + first_entries(h.drop_first(), favorites, (others - 1) as nat)
        } else {
            first_entries(h.drop_first(), favorites, others)
        }
    }
}

/// `h` limited to `max` entries: all of it when it fits; otherwise as many
/// favorites as fit (the earliest first), the remaining room filled with
/// the earliest other entries, the chosen entries kept in their order.
pub open spec fn capped(h: Seq<ClipboardItem>, max: nat) -> Seq<ClipboardItem> {
    if h.len() <= max {
        h
    } else {
        let favorites = if favorite_count(h) < max {
            favorite_count(h)
        } else {
            max
        };
        first_entries(h, favorites, (max - favorites) as nat)
    }
}

/// The history after pruning: the entries that survive the retention
/// period, limited to the configured number of entries.
pub open spec fn pruned_history(h: Seq<ClipboardItem>, settings: ClipboardSettings, now: UtcInstant) -> Seq<
    ClipboardItem,
> {
    capped(retained(h, settings.retention_days, now), settings.max_items as nat)
}

/// `favorite_count` is at most the length.
pub proof fn lemma_favorite_count_bound(h: Seq<ClipboardItem>)
    ensures
        favorite_count(h) <= h.len(),
    decreases h.len(),
{
    if h.len() > 0 {
        lemma_favorite_count_bound(h.drop_first());
    }
}

/// Whether an entry survives the retention period; `cutoff` is the instant
/// `days` days before `now`.
fn survives(item: &ClipboardItem, days: u32, cutoff: UtcInstant, Ghost(now): Ghost<UtcInstant>) -> (r:
    bool)
    requires
        days > 0 ==> (cutoff.secs as int, cutoff.nanos as int) == days_before(now, days),
    ensures
        r == survives_retention(*item, days, now),
{
    if item.favorite || days == 0 {
        return true;
    }
    kept_by_retention(parse_rfc3339(item.copied_at.as_str()), cutoff)
}

/// Whether an entry copied at `copied` (`None` when its copy time cannot
/// be read) is kept by a retention period that starts at `cutoff`: an
/// unreadable time is kept, a readable one when it is not before `cutoff`.
pub fn kept_by_retention(copied: Option<(i64, u32)>, cutoff: UtcInstant) -> (r: bool)
    ensures
        r == match copied {
            None => true,
            Some(t) => !earlier((t.0 as int, t.1 as int), (cutoff.secs as int, cutoff.nanos as int)),
        },
{
    match copied {
        None => true,
        Some((secs, nanos)) => !(secs < cutoff.secs || (secs == cutoff.secs && nanos
            < cutoff.nanos)),
    }
}

/// Prunes the clipboard history: drops the non-favorite entries copied
/// more than `retention_days` days before `now` (when retention is on),
/// then, when more than `max_items` entries remain, keeps favorites first
/// and fills the remaining room with the newest others, without reordering.
pub fn prune_clipboard_history(
    history: Vec<ClipboardItem>,
    settings: &ClipboardSettings,
    now: UtcInstant,
) -> (r: Vec<ClipboardItem>)
    requires
        valid_instant(now),
        days_before_in_range(now, settings.retention_days),
    ensures
        r@ == pruned_history(history@, *settings, now),
{
    let days = settings.retention_days;
    let cutoff = if days > 0 {
        minus_days(now, days)
    } else {
        now
    };
    let ghost orig = history@;
    let ghost goal = retained(orig, days, now);
    let mut rest = history;
    let mut filtered: Vec<ClipboardItem> = Vec::new();
    let ghost mut i: int = 0;
    assert(orig.skip(0) =~= orig);
    while rest.len() > 0
        invariant
            0 <= i <= orig.len(),
            rest@ == orig.skip(i),
            goal == retained(orig, days, now),
            goal == filtered@ + retained(orig.skip(i), days, now),
            days > 0 ==> (cutoff.secs as int, cutoff.nanos as int) == days_before(now, days),
        decreases rest.len(),
    {
        let item = rest.remove(0);
        proof {
            assert(orig.skip(i)[0] == item);
            assert(orig.skip(i).drop_first() =~= orig.skip(i + 1));
        }
        let keep = survives(&item, days, cutoff, Ghost(now));
        let ghost before = filtered@;
        if keep {
            filtered.push(item);
            assert(filtered@ =~= before + seq![item]);
        }
        proof {
            i = i + 1;
        }
    }
    assert(orig.skip(i) =~= Seq::<ClipboardItem>::empty());
    assert(filtered@ =~= goal);
    let max = settings.max_items;
    if filtered.len() <= max {
        return filtered;
    }
    let mut favorites: usize = 0;
    let mut k: usize = 0;
    assert(filtered@.skip(0) =~= filtered@);
    while k < filtered.len()
        invariant
            k <= filtered.len(),
            favorites + favorite_count(filtered@.skip(k as int)) == favorite_count(filtered@),
            favorites <= k,
        decreases filtered.len() - k,
    {
        proof {
            assert(filtered@.skip(k as int)[0] == filtered@[k as int]);
            assert(filtered@.skip(k as int).drop_first() =~= filtered@.skip(k + 1));
        }
        if filtered[k].favorite {
            favorites = favorites + 1;
        }
        k = k + 1;
    }
    assert(filtered@.skip(k as int) =~= Seq::<ClipboardItem>::empty());
    let fav_quota: usize = if favorites < max {
        favorites
    } else {
        max
    };
    let other_quota: usize = max - fav_quota;
    let ghost all = filtered@;
    let ghost target = first_entries(all, fav_quota as nat, other_quota as nat);
    let mut pending = filtered;
    let mut chosen: Vec<ClipboardItem> = Vec::new();
    let mut f: usize = fav_quota;
    let mut o: usize = other_quota;
    let ghost mut j: int = 0;
    assert(all.skip(0) =~= all);
    while pending.len() > 0
        invariant
            0 <= j <= all.len(),
            pending@ == all.skip(j),
            target == chosen@ + first_entries(all.skip(j), f as nat, o as nat),
        decreases pending.len(),
    {
        let item = pending.remove(0);
        proof {
            assert(all.skip(j)[0] == item);
            assert(all.skip(j).drop_first() =~= all.skip(j + 1));
        }
        let ghost before = chosen@;
        if item.favorite {
            if f > 0 {
                f = f - 1;
                chosen.push(item);
                assert(chosen@ =~= before + seq![item]);
            }
        } else {
            if o > 0 {
                o = o - 1;
                chosen.push(item);
                assert(chosen@ =~= before + seq![item]);
            }
        }
        proof {
            j = j + 1;
        }
    }
    assert(all.skip(j) =~= Seq::<ClipboardItem>::empty());
    assert(chosen@ =~= target);
    chosen
}

/// The favorites of `h`, in order.
pub open spec fn favorites_of(h: Seq<ClipboardItem>) -> Seq<ClipboardItem>
    decreases h.len(),
{
    if h.len() == 0 {
        h
    } else if h[0].favorite {
        seq![h[0]] + favorites_of(h.drop_first())
    } else {
        favorites_of(h.drop_first())
    }
}

proof fn lemma_favorites_of_len(h: Seq<ClipboardItem>)
    ensures
        favorites_of(h).len() == favorite_count(h),
    decreases h.len(),
{
    if h.len() > 0 {
        lemma_favorites_of_len(h.drop_first());
    }
}

proof fn lemma_retained_subsequence(h: Seq<ClipboardItem>, days: u32, now: UtcInstant)
    ensures
        is_subsequence(retained(h, days, now), h),
        forall|i: int|
            0 <= i < retained(h, days, now).len() ==> survives_retention(
                #[trigger] retained(h, days, now)[i],
                days,
                now,
            ),
        favorites_of(retained(h, days, now)) == favorites_of(h),
    decreases h.len(),
{
    if h.len() > 0 {
        let t = h.drop_first();
        let r = retained(t, days, now);
        lemma_retained_subsequence(t, days, now);
        if survives_retention(h[0], days, now) {
            let s = seq![h[0]] + r;
            assert(s.drop_first() =~= r);
            assert(s[0] == h[0]);
            assert forall|i: int| 0 <= i < s.len() implies survives_retention(
                #[trigger] s[i],
                days,
                now,
            ) by {
                if i > 0 {
                    assert(s[i] == r[i - 1]);
                }
            }
        } else {
            lemma_subsequence_of_tail(r, h);
        }
    }
}

proof fn lemma_all_survive(s: Seq<ClipboardItem>, days: u32, now: UtcInstant)
    requires
        forall|i: int| 0 <= i < s.len() ==> survives_retention(#[trigger] s[i], days, now),
    ensures
        retained(s, days, now) == s,
    decreases s.len(),
{
    if s.len() > 0 {
        let t = s.drop_first();
        assert forall|i: int| 0 <= i < t.len() implies survives_retention(
            #[trigger] t[i],
            days,
            now,
        ) by {
            assert(t[i] == s[i + 1]);
        }
        lemma_all_survive(t, days, now);
        assert(survives_retention(s[0], days, now));
        assert(seq![s[0]] + t =~= s);
    }
}

proof fn lemma_first_entries(h: Seq<ClipboardItem>, f: nat, o: nat)
    requires
        f <= favorite_count(h),
    ensures
        is_subsequence(first_entries(h, f, o), h),
        first_entries(h, f, o).len() <= f + o,
        favorites_of(first_entries(h, f, o)) == favorites_of(h).take(f as int),
    decreases h.len(),
{
    lemma_favorites_of_len(h);
    if h.len() == 0 {
        assert(favorites_of(h).take(0) =~= Seq::<ClipboardItem>::empty());
    } else {
        let t = h.drop_first();
        lemma_favorites_of_len(t);
        if h[0].favorite {
            if f > 0 {
                lemma_first_entries(t, (f - 1) as nat, o);
                let r = first_entries(t, (f - 1) as nat, o);
                let s = seq![h[0]] + r;
                assert(s.drop_first() =~= r);
                assert(s[0] == h[0]);
                assert(favorites_of(h).take(f as int) =~= seq![h[0]] + favorites_of(t).take(
                    f - 1,
                ));
            } else {
                lemma_first_entries(t, f, o);
                lemma_subsequence_of_tail(first_entries(t, f, o), h);
                assert(favorites_of(h).take(0) =~= favorites_of(t).take(0));
            }
        } else {
            if o > 0 {
                lemma_first_entries(t, f, (o - 1) as nat);
                let r = first_entries(t, f, (o - 1) as nat);
                let s = seq![h[0]] + r;
                assert(s.drop_first() =~= r);
                assert(s[0] == h[0]);
            } else {
                lemma_first_entries(t, f, o);
                lemma_subsequence_of_tail(first_entries(t, f, o), h);
            }
        }
    }
}

proof fn lemma_capped(h: Seq<ClipboardItem>, max: nat)
    ensures
        is_subsequence(capped(h, max), h),
        capped(h, max).len() <= max || capped(h, max) == h,
        h.len() > max ==> capped(h, max).len() <= max,
        favorites_of(capped(h, max)) == favorites_of(h).take(
            if favorite_count(h) < max {
                favorite_count(h) as int
            } else {
                max as int
            },
        ),
{
    lemma_favorites_of_len(h);
    lemma_favorite_count_bound(h);
    if h.len() <= max {
        lemma_subsequence_reflexive(h);
        assert(favorites_of(h).take(favorite_count(h) as int) =~= favorites_of(h));
        if favorite_count(h) >= max {
            assert(favorites_of(h).take(max as int) =~= favorites_of(h));
        }
    } else {
        let f = if favorite_count(h) < max {
            favorite_count(h)
        } else {
            max
        };
        lemma_first_entries(h, f, (max - f) as nat);
    }
}

/// Pruning never reorders the history: the pruned history is the history
/// with some entries left out.
pub proof fn law_prune_keeps_order(h: Seq<ClipboardItem>, settings: ClipboardSettings, now: UtcInstant)
    ensures
        is_subsequence(pruned_history(h, settings, now), h),
{
    let r = retained(h, settings.retention_days, now);
    lemma_retained_subsequence(h, settings.retention_days, now);
    lemma_capped(r, settings.max_items as nat);
    lemma_subsequence_transitive(pruned_history(h, settings, now), r, h);
}

/// The pruned history holds at most `max_items` entries once more entries
/// than that survive the retention period, and never more than the
/// history.
pub proof fn law_prune_capacity(h: Seq<ClipboardItem>, settings: ClipboardSettings, now: UtcInstant)
    ensures
        pruned_history(h, settings, now).len() <= h.len(),
        retained(h, settings.retention_days, now).len() > settings.max_items ==> pruned_history(
            h,
            settings,
            now,
        ).len() == settings.max_items,
        pruned_history(h, settings, now).len() <= settings.max_items || pruned_history(
            h,
            settings,
            now,
        ) == retained(h, settings.retention_days, now),
{
    law_prune_keeps_order(h, settings, now);
    lemma_subsequence_len(pruned_history(h, settings, now), h);
    let r = retained(h, settings.retention_days, now);
    lemma_capped(r, settings.max_items as nat);
    if r.len() > settings.max_items {
        let max = settings.max_items as nat;
        let f = if favorite_count(r) < max {
            favorite_count(r)
        } else {
            max
        };
        lemma_favorite_count_bound(r);
        lemma_first_entries_fill(r, f, (max - f) as nat);
    }
}

proof fn lemma_first_entries_fill(h: Seq<ClipboardItem>, f: nat, o: nat)
    requires
        f <= favorite_count(h),
        f + o <= h.len(),
        o <= h.len() - favorite_count(h),
    ensures
        first_entries(h, f, o).len() == f + o,
    decreases h.len(),
{
    lemma_favorite_count_bound(h);
    if h.len() > 0 {
        let t = h.drop_first();
        lemma_favorite_count_bound(t);
        if h[0].favorite {
            if f > 0 {
                lemma_first_entries_fill(t, (f - 1) as nat, o);
            } else {
                lemma_first_entries_fill(t, f, o);
            }
        } else {
            if o > 0 {
                lemma_first_entries_fill(t, f, (o - 1) as nat);
            } else {
                lemma_first_entries_fill(t, f, o);
            }
        }
    }
}

/// Every entry of the pruned history survives the retention period: no
/// non-favorite entry older than the retention period is kept.
pub proof fn law_prune_retention(h: Seq<ClipboardItem>, settings: ClipboardSettings, now: UtcInstant)
    ensures
        forall|i: int|
            0 <= i < pruned_history(h, settings, now).len() ==> survives_retention(
                #[trigger] pruned_history(h, settings, now)[i],
                settings.retention_days,
                now,
            ),
{
    let r = retained(h, settings.retention_days, now);
    let p = pruned_history(h, settings, now);
    lemma_retained_subsequence(h, settings.retention_days, now);
    lemma_capped(r, settings.max_items as nat);
    lemma_subsequence_elements(p, r);
    assert forall|i: int| 0 <= i < p.len() implies survives_retention(
        #[trigger] p[i],
        settings.retention_days,
        now,
    ) by {
        assert(r.contains(p[i]));
        let k = choose|k: int| 0 <= k < r.len() && r[k] == p[i];
        assert(survives_retention(r[k], settings.retention_days, now));
    }
}

/// Favorites outlive the retention period and come first when the history
/// is over capacity: the favorites of the pruned history are the earliest
/// `min(favorites, max_items)` favorites of the history, so all of them
/// while they fit.
pub proof fn law_prune_keeps_favorites(
    h: Seq<ClipboardItem>,
    settings: ClipboardSettings,
    now: UtcInstant,
)
    ensures
        favorites_of(pruned_history(h, settings, now)) == favorites_of(h).take(
            if favorite_count(h) < settings.max_items {
                favorite_count(h) as int
            } else {
                settings.max_items as int
            },
        ),
        favorite_count(h) <= settings.max_items ==> favorites_of(pruned_history(h, settings, now))
            == favorites_of(h),
{
    let r = retained(h, settings.retention_days, now);
    lemma_retained_subsequence(h, settings.retention_days, now);
    lemma_capped(r, settings.max_items as nat);
    lemma_favorites_of_len(h);
    lemma_favorites_of_len(r);
    assert(favorites_of(h).take(favorite_count(h) as int) =~= favorites_of(h));
}

/// Pruning a pruned history changes nothing.
pub proof fn law_prune_idempotent(
    h: Seq<ClipboardItem>,
    settings: ClipboardSettings,
    now: UtcInstant,
)
    ensures
        pruned_history(pruned_history(h, settings, now), settings, now) == pruned_history(
            h,
            settings,
            now,
        ),
{
    let p = pruned_history(h, settings, now);
    law_prune_retention(h, settings, now);
    lemma_all_survive(p, settings.retention_days, now);
    let r = retained(h, settings.retention_days, now);
    lemma_capped(r, settings.max_items as nat);
    if p.len() > settings.max_items {
        assert(p == r);
        assert(r.len() <= settings.max_items);
    }
}

/// The pruned history equals the history exactly when it is as long: so
/// whether pruning removed anything is told by the length alone.
pub proof fn law_prune_unchanged_iff_same_length(
    h: Seq<ClipboardItem>,
    settings: ClipboardSettings,
    now: UtcInstant,
)
    ensures
        (pruned_history(h, settings, now) == h) <==> (pruned_history(h, settings, now).len()
            == h.len()),
{
    law_prune_keeps_order(h, settings, now);
    lemma_subsequence_len(pruned_history(h, settings, now), h);
}

/// How many characters of the text the preview of an entry shows.
pub const CLIPBOARD_PREVIEW_LIMIT: usize = 160;

/// The preview of a text entry: its words joined by single spaces, cut
/// after 160 characters.
pub open spec fn preview_of(text: Seq<char>) -> Seq<char> {
    let j = joined(words(text), seq![' ']);
    if j.len() <= CLIPBOARD_PREVIEW_LIMIT {
        j
    } else {
        j.take(CLIPBOARD_PREVIEW_LIMIT as int)
    }
}

/// The preview shown for a text entry.
pub fn clipboard_preview(text: &str) -> (r: String)
    ensures
        r@ == preview_of(text@),
{
    let mut chars = collapse_whitespace(text);
    chars.truncate(CLIPBOARD_PREVIEW_LIMIT);
    proof {
        let j = joined(words(text@), seq![' ']);
        if j.len() > CLIPBOARD_PREVIEW_LIMIT {
            assert(j.subrange(0, CLIPBOARD_PREVIEW_LIMIT as int) =~= j.take(
                CLIPBOARD_PREVIEW_LIMIT as int,
            ));
        }
    }
    string_of(&chars)
}

/// The file names of the paths that have one, in order.
pub open spec fn file_names(paths: Seq<String>) -> Seq<Seq<char>>
    decreases paths.len(),
{
    if paths.len() == 0 {
        Seq::empty()
    } else {
        let prev = file_names(paths.drop_last());
        match path_file_name(paths.last()@) {
            Some(n) => prev.push(n),
            None => prev,
        }
    }
}

/// The preview of a file entry with the given file names: the one name,
/// `文件` when there is none, or the first name and the number of names.
pub open spec fn names_preview(names: Seq<Seq<char>>) -> Seq<char> {
    if names.len() == 0 {
        "文件"@
    } else if names.len() == 1 {
        names[0]
    } else {
        names[0] + " 等 "@ + decimal(names.len()) + " 个文件"@
    }
}

/// The preview of a file entry: that of the names of its paths.
pub open spec fn files_preview(paths: Seq<String>) -> Seq<char> {
    names_preview(file_names(paths))
}

/// The preview of a file entry with the given file names.
pub fn file_names_preview(names: &Vec<String>) -> (r: String)
    ensures
        r@ == names_preview(views(names@)),
{
    if names.len() == 0 {
        owned("文件")
    } else if names.len() == 1 {
        names[0].clone()
    } else {
        let mut r = concat(names[0].as_str(), " 等 ");
        let count = decimal_text(names.len());
        r.append(count.as_str());
        r.append(" 个文件");
        r
    }
}

/// The preview shown for a file entry.
pub fn clipboard_files_preview(file_paths: &Vec<String>) -> (r: String)
    ensures
        r@ == files_preview(file_paths@),
{
    let mut names: Vec<String> = Vec::new();
    let mut i: usize = 0;
    while i < file_paths.len()
        invariant
            i <= file_paths.len(),
            views(names@) == file_names(file_paths@.take(i as int)),
        decreases file_paths.len() - i,
    {
        proof {
            let t = file_paths@.take(i + 1);
            assert(t.drop_last() =~= file_paths@.take(i as int));
            assert(t.last() == file_paths@[i as int]);
        }
        match file_name(file_paths[i].as_str()) {
            Some(n) => {
                let ghost before = names@;
                names.push(n);
                assert(views(names@) =~= views(before).push(names@.last()@));
            },
            None => {},
        }
        i = i + 1;
    }
    assert(file_paths@.take(file_paths.len() as int) =~= file_paths@);
    file_names_preview(&names)
}

/// The strings of a JSON array of strings held in `bytes`, as `serde_json`
/// reads them; the text of its error when the bytes are not such an array.
pub uninterp spec fn json_string_list(bytes: Seq<u8>) -> Result<Seq<Seq<char>>, Seq<char>>;

/// `serde_json::from_slice::<Vec<String>>`. The parse is named, not stated:
/// JSON's grammar with its escapes takes pages. An error of the crate gives
/// its text.
#[verifier::external_body]
pub(crate) fn parse_string_list(bytes: &[u8]) -> (r: Result<Vec<String>, String>)
    ensures
        match r {
            Ok(v) => json_string_list(bytes@) == Ok::<Seq<Seq<char>>, Seq<char>>(views(v@)),
            Err(msg) => json_string_list(bytes@) == Err::<Seq<Seq<char>>, Seq<char>>(msg@),
        },
{
    serde_json::from_slice::<Vec<String>>(bytes).map_err(|e| e.to_string())
}

/// The copied files, from the output of the query that lists them (a JSON
/// array of paths): none when the query failed, otherwise the paths it
/// printed, or the parse error's text when its output is not such an
/// array.
pub fn clipboard_file_paths(succeeded: bool, stdout: &[u8]) -> (r: Result<Vec<String>, String>)
    ensures
        !succeeded ==> (r matches Ok(v) && v@.len() == 0),
        succeeded ==> match r {
            Ok(v) => json_string_list(stdout@) == Ok::<Seq<Seq<char>>, Seq<char>>(views(v@)),
            Err(msg) => json_string_list(stdout@) == Err::<Seq<Seq<char>>, Seq<char>>(msg@),
        },
{
    if !succeeded {
        return Ok(Vec::new());
    }
    parse_string_list(stdout)
}

/// The id of a text entry: the SHA-256 digest of its UTF-8 bytes, in
/// lower-case hexadecimal.
pub open spec fn text_id(text: Seq<char>) -> Seq<char> {
    hex_lower(sha256(encode_utf8(text)))
}

/// The id of the entry for a copied text.
pub fn clipboard_item_id(text: &str) -> (r: String)
    ensures
        r@ == text_id(text@),
{
    sha256_hex(text.as_bytes())
}

/// The bytes digested for a file entry: each path's UTF-8 bytes followed
/// by a zero byte.
pub open spec fn files_digest_input(paths: Seq<String>) -> Seq<u8>
    decreases paths.len(),
{
    if paths.len() == 0 {
        Seq::empty()
    } else {
        files_digest_input(paths.drop_last()) + encode_utf8(paths.last()@) + seq![0u8]
    }
}

/// Appends the bytes of `more` to `out`.
fn push_bytes(out: &mut Vec<u8>, more: &[u8])
    ensures
        final(out)@ == old(out)@ + more@,
{
    let mut i: usize = 0;
    while i < more.len()
        invariant
            i <= more.len(),
            out@ == old(out)@ + more@.take(i as int),
        decreases more.len() - i,
    {
        out.push(more[i]);
        assert(more@.take(i + 1) =~= more@.take(i as int).push(more@[i as int]));
        i = i + 1;
    }
    assert(more@.take(more.len() as int) =~= more@);
}

/// The id of the entry for a set of copied files.
pub fn clipboard_files_id(file_paths: &Vec<String>) -> (r: String)
    ensures
        r@ == hex_lower(sha256(files_digest_input(file_paths@))),
{
    let mut bytes: Vec<u8> = Vec::new();
    let mut i: usize = 0;
    while i < file_paths.len()
        invariant
            i <= file_paths.len(),
            bytes@ == files_digest_input(file_paths@.take(i as int)),
        decreases file_paths.len() - i,
    {
        proof {
            let t = file_paths@.take(i + 1);
            assert(t.drop_last() =~= file_paths@.take(i as int));
            assert(t.last() == file_paths@[i as int]);
        }
        push_bytes(&mut bytes, file_paths[i].as_str().as_bytes());
        bytes.push(0u8);
        i = i + 1;
    }
    assert(file_paths@.take(file_paths.len() as int) =~= file_paths@);
    sha256_hex(bytes.as_slice())
}

/// Byte `k` of `x` in little-endian order.
pub open spec fn le_byte(x: usize, k: int) -> int {
    (x as int / pow(256, k as nat)) % 256
}

/// `usize::to_le_bytes`: the bytes of `x`, least significant first, as many
/// as a `usize` has on this machine.
#[verifier::external_body]
pub(crate) fn usize_le_bytes(x: usize) -> (r: Vec<u8>)
    ensures
        r@.len() * 8 == usize::BITS,
        forall|k: int| 0 <= k < r@.len() ==> r@[k] as int == le_byte(x, k),
{
    x.to_le_bytes().to_vec()
}

/// The id of the entry for a copied image: the SHA-256 digest of its width
/// and height (each as the little-endian bytes of a `usize`) and its RGBA
/// bytes, in lower-case hexadecimal.
pub fn clipboard_image_id(width: usize, height: usize, rgba: &[u8]) -> (r: String)
    ensures
        exists|w: Seq<u8>, h: Seq<u8>|
            {
                &&& w.len() * 8 == usize::BITS
                &&& h.len() * 8 == usize::BITS
                &&& forall|k: int| 0 <= k < w.len() ==> #[trigger] w[k] as int == le_byte(width, k)
                &&& forall|k: int| 0 <= k < h.len() ==> #[trigger] h[k] as int == le_byte(height, k)
                &&& r@ == hex_lower(sha256(w + h + rgba@))
            },
{
    let w = usize_le_bytes(width);
    let h = usize_le_bytes(height);
    let mut bytes: Vec<u8> = Vec::new();
    push_bytes(&mut bytes, w.as_slice());
    push_bytes(&mut bytes, h.as_slice());
    push_bytes(&mut bytes, rgba);
    assert(bytes@ =~= w@ + h@ + rgba@);
    sha256_hex(bytes.as_slice())
}

/// The entries of `h` whose id is not `id`, in order.
pub open spec fn without_id(h: Seq<ClipboardItem>, id: Seq<char>) -> Seq<ClipboardItem>
    decreases h.len(),
{
    if h.len() == 0 {
        h
    } else if h[0].id@ == id {
        without_id(h.drop_first(), id)
    } else {
        seq![h[0]] + without_id(h.drop_first(), id)
    }
}

/// The history with `item` recorded: it comes first, and any older entry
/// with its id is dropped.
pub open spec fn remembered(h: Seq<ClipboardItem>, item: ClipboardItem) -> Seq<ClipboardItem> {
    seq![item] + without_id(h, item.id@)
}

/// The entries of `h` whose id is not `id`.
fn drop_id(history: Vec<ClipboardItem>, id: &str) -> (r: Vec<ClipboardItem>)
    ensures
        r@ == without_id(history@, id@),
{
    let ghost orig = history@;
    let ghost goal = without_id(orig, id@);
    let mut rest = history;
    let mut kept: Vec<ClipboardItem> = Vec::new();
    let ghost mut i: int = 0;
    assert(orig.skip(0) =~= orig);
    while rest.len() > 0
        invariant
            0 <= i <= orig.len(),
            rest@ == orig.skip(i),
            goal == without_id(orig, id@),
            goal == kept@ + without_id(orig.skip(i), id@),
        decreases rest.len(),
    {
        let item = rest.remove(0);
        proof {
            assert(orig.skip(i)[0] == item);
            assert(orig.skip(i).drop_first() =~= orig.skip(i + 1));
        }
        let ghost before = kept@;
        if !same(item.id.as_str(), id) {
            kept.push(item);
            assert(kept@ =~= before + seq![item]);
        }
        proof {
            i = i + 1;
        }
    }
    assert(orig.skip(i) =~= Seq::<ClipboardItem>::empty());
    assert(kept@ =~= goal);
    kept
}

/// Puts `item` first in the history and drops any older entry with its id.
pub fn remember_entry(history: Vec<ClipboardItem>, item: ClipboardItem) -> (r: Vec<ClipboardItem>)
    ensures
        r@ == remembered(history@, item),
{
    let mut rest = drop_id(history, item.id.as_str());
    let ghost tail = rest@;
    let mut out: Vec<ClipboardItem> = Vec::new();
    out.push(item);
    out.append(&mut rest);
    assert(out@ =~= seq![item] + tail);
    out
}

/// An entry for a copied text, with the given copy time.
pub open spec fn is_text_entry(item: ClipboardItem, text: Seq<char>, copied_at: Seq<char>) -> bool {
    &&& item.id@ == text_id(text)
    &&& item.kind@ == "text"@
    &&& item.text@ == text
    &&& item.preview@ == preview_of(text)
    &&& item.copied_at@ == copied_at
    &&& !item.favorite
    &&& item.image_path@.len() == 0
    &&& item.width == 0
    &&& item.height == 0
    &&& item.file_paths@.len() == 0
}

/// Records a copied text: unless recording or text capture is off, the
/// history with a new text entry first (and no older entry with its id).
pub fn record_clipboard_text(
    history: Vec<ClipboardItem>,
    settings: &ClipboardSettings,
    text: &str,
    now: UtcInstant,
) -> (r: Option<Vec<ClipboardItem>>)
    requires
        chrono_instant(now),
    ensures
        !(settings.enabled && settings.capture_text) ==> r is None,
        settings.enabled && settings.capture_text ==> exists|item: ClipboardItem|
            #[trigger] is_text_entry(item, text@, rfc3339_of(now.secs, now.nanos)) && (r matches Some(
                v,
            ) && v@ == remembered(history@, item)),
        settings.enabled && settings.capture_text ==> (r matches Some(v) && v@.len() > 0
            && v@[0].text@ == text@ && v@[0].kind@ == "text"@ && v@[0].preview@ == preview_of(text@)
            && v@[0].id@ == text_id(text@) && !v@[0].favorite),
{
    if !settings.enabled || !settings.capture_text {
        return None;
    }
    let copied_at = rfc3339_text(now);
    let item = ClipboardItem {
        id: clipboard_item_id(text),
        kind: owned("text"),
        text: owned(text),
        preview: clipboard_preview(text),
        copied_at,
        favorite: false,
        image_path: String::new(),
        width: 0,
        height: 0,
        file_paths: Vec::new(),
    };
    assert(is_text_entry(item, text@, copied_at@));
    let r = remember_entry(history, item);
    proof {
        reveal_strlit("text");
    }
    Some(r)
}

/// An entry for a copied image saved at `image_path`.
pub open spec fn is_image_entry(
    item: ClipboardItem,
    id: Seq<char>,
    width: usize,
    height: usize,
    image_path: Seq<char>,
    copied_at: Seq<char>,
) -> bool {
    &&& item.id@ == id
    &&& item.kind@ == "image"@
    &&& item.text@.len() == 0
    &&& item.preview@ == decimal(width as nat) + " x "@ + decimal(height as nat) + " 图片"@
    &&& item.copied_at@ == copied_at
    &&& !item.favorite
    &&& item.image_path@ == image_path
    &&& item.width == width
    &&& item.height == height
    &&& item.file_paths@.len() == 0
}

/// Image entries are recorded only when recording and image capture are on
/// (the image file is saved only then).
pub open spec fn captures_images(settings: ClipboardSettings) -> bool {
    settings.enabled && settings.capture_images
}

/// Records a copied image already saved at `image_path`: unless recording
/// or image capture is off, the history with a new image entry first (and
/// no older entry with its id).
pub fn record_clipboard_image(
    history: Vec<ClipboardItem>,
    settings: &ClipboardSettings,
    id: String,
    width: usize,
    height: usize,
    image_path: String,
    now: UtcInstant,
) -> (r: Option<Vec<ClipboardItem>>)
    requires
        chrono_instant(now),
    ensures
        !captures_images(*settings) ==> r is None,
        captures_images(*settings) ==> exists|item: ClipboardItem|
            #[trigger] is_image_entry(
                item,
                id@,
                width,
                height,
                image_path@,
                rfc3339_of(now.secs, now.nanos),
            ) && (r matches Some(v) && v@ == remembered(history@, item)),
{
    if !settings.enabled || !settings.capture_images {
        return None;
    }
    let copied_at = rfc3339_text(now);
    let mut preview = decimal_text(width);
    preview.append(" x ");
    let h = decimal_text(height);
    preview.append(h.as_str());
    preview.append(" 图片");
    let ghost id_view = id@;
    let ghost path_view = image_path@;
    let item = ClipboardItem {
        id,
        kind: owned("image"),
        text: String::new(),
        preview,
        copied_at,
        favorite: false,
        image_path,
        width,
        height,
        file_paths: Vec::new(),
    };
    assert(is_image_entry(item, id_view, width, height, path_view, copied_at@));
    Some(remember_entry(history, item))
}

/// An entry for a set of copied files.
pub open spec fn is_files_entry(
    item: ClipboardItem,
    id: Seq<char>,
    file_paths: Seq<String>,
    copied_at: Seq<char>,
) -> bool {
    &&& item.id@ == id
    &&& item.kind@ == "file"@
    &&& item.text@ == joined(views(file_paths), seq!['\n'])
    &&& item.preview@ == files_preview(file_paths)
    &&& item.copied_at@ == copied_at
    &&& !item.favorite
    &&& item.image_path@.len() == 0
    &&& item.width == 0
    &&& item.height == 0
    &&& item.file_paths@ == file_paths
}

/// Records a set of copied files: unless recording or file capture is off,
/// the history with a new file entry first (and no older entry with its
/// id). The entry's text lists the paths one per line.
pub fn record_clipboard_files(
    history: Vec<ClipboardItem>,
    settings: &ClipboardSettings,
    file_paths: Vec<String>,
    id: String,
    now: UtcInstant,
) -> (r: Option<Vec<ClipboardItem>>)
    requires
        chrono_instant(now),
    ensures
        !(settings.enabled && settings.capture_files) ==> r is None,
        settings.enabled && settings.capture_files ==> exists|item: ClipboardItem|
            #[trigger] is_files_entry(item, id@, file_paths@, rfc3339_of(now.secs, now.nanos)) && (
            r matches Some(v) && v@ == remembered(history@, item)),
{
    if !settings.enabled || !settings.capture_files {
        return None;
    }
    let copied_at = rfc3339_text(now);
    let text = join(&file_paths, "\n");
    proof {
        reveal_strlit("\n");
        assert("\n"@ =~= seq!['\n']);
    }
    let preview = clipboard_files_preview(&file_paths);
    let ghost id_view = id@;
    let ghost paths = file_paths@;
    let item = ClipboardItem {
        id,
        kind: owned("file"),
        text,
        preview,
        copied_at,
        favorite: false,
        image_path: String::new(),
        width: 0,
        height: 0,
        file_paths,
    };
    assert(is_files_entry(item, id_view, paths, copied_at@));
    Some(remember_entry(history, item))
}

/// Whether copying an entry back records it again: image entries when
/// image capture is on, file entries when file capture is on (recording
/// itself being on).
pub open spec fn restores(settings: ClipboardSettings, kind: Seq<char>) -> bool {
    settings.enabled && if kind == "file"@ {
        settings.capture_files
    } else {
        settings.capture_images
    }
}

/// Records an image or file entry copied back from the history: unless
/// recording or the capture of its kind is off, the history with the entry
/// first again under the new copy time (its other fields, favorite mark
/// included, kept) and no older entry with its id.
pub fn record_restored_entry(
    history: Vec<ClipboardItem>,
    settings: &ClipboardSettings,
    item: ClipboardItem,
    now: UtcInstant,
) -> (r: Option<Vec<ClipboardItem>>)
    requires
        chrono_instant(now),
    ensures
        !restores(*settings, item.kind@) ==> r is None,
        restores(*settings, item.kind@) ==> exists|copied_at: String|
            #![trigger copied_at@]
            copied_at@ == rfc3339_of(now.secs, now.nanos) && (r matches Some(v) && v@ == remembered(
                history@,
                (ClipboardItem { copied_at, ..item }),
            )),
{
    let is_file = same(item.kind.as_str(), "file");
    proof {
        reveal_strlit("file");
    }
    let capture = if is_file {
        settings.capture_files
    } else {
        settings.capture_images
    };
    if !settings.enabled || !capture {
        return None;
    }
    let mut restored = item;
    restored.copied_at = rfc3339_text(now);
    Some(remember_entry(history, restored))
}

/// The position of the first entry of `h` with id `id`, if any.
pub open spec fn first_with_id(h: Seq<ClipboardItem>, id: Seq<char>) -> Option<int> {
    if exists|i: int| 0 <= i < h.len() && (#[trigger] h[i]).id@ == id {
        Some(
            choose|i: int|
                0 <= i < h.len() && (#[trigger] h[i]).id@ == id && forall|k: int|
                    0 <= k < i ==> (#[trigger] h[k]).id@ != id,
        )
    } else {
        None
    }
}

proof fn lemma_first_with_id(h: Seq<ClipboardItem>, id: Seq<char>, i: int)
    requires
        0 <= i < h.len(),
        h[i].id@ == id,
        forall|k: int| 0 <= k < i ==> (#[trigger] h[k]).id@ != id,
    ensures
        first_with_id(h, id) == Some(i),
{
    let j = choose|j: int|
        0 <= j < h.len() && (#[trigger] h[j]).id@ == id && forall|k: int|
            0 <= k < j ==> (#[trigger] h[k]).id@ != id;
    assert(h[i].id@ == id);
    if j < i {
        assert(h[j].id@ != id);
    }
    if j > i {
        assert(h[i].id@ != id);
    }
}

/// Finds the first entry with the given id.
pub fn find_entry(history: &Vec<ClipboardItem>, id: &str) -> (r: Option<usize>)
    ensures
        match r {
            Some(i) => i < history.len() && first_with_id(history@, id@) == Some(i as int),
            None => first_with_id(history@, id@) is None,
        },
{
    let mut i: usize = 0;
    while i < history.len()
        invariant
            i <= history.len(),
            forall|k: int| 0 <= k < i ==> (#[trigger] history@[k]).id@ != id@,
        decreases history.len() - i,
    {
        if same(history[i].id.as_str(), id) {
            proof {
                lemma_first_with_id(history@, id@, i as int);
            }
            return Some(i);
        }
        i = i + 1;
    }
    None
}

/// The text shown when no entry has the requested id.
pub open spec fn missing_entry_text() -> Seq<char> {
    "剪贴板记录不存在"@
}

/// The position of the first entry with the given id, to copy it back;
/// refused with `missing_entry_text` when no entry has that id.
pub fn entry_to_copy(history: &Vec<ClipboardItem>, id: &str) -> (r: Result<usize, String>)
    ensures
        match r {
            Ok(i) => i < history.len() && first_with_id(history@, id@) == Some(i as int),
            Err(msg) => first_with_id(history@, id@) is None && msg@ == missing_entry_text(),
        },
{
    match find_entry(history, id) {
        Some(i) => Ok(i),
        None => Err(owned("剪贴板记录不存在")),
    }
}

/// Marks the first entry with the given id as a favorite, or unmarks it;
/// refuses when no entry has that id.
pub fn toggle_favorite(history: Vec<ClipboardItem>, id: &str) -> (r: Result<
    Vec<ClipboardItem>,
    String,
>)
    ensures
        match toggled(history@, id@) {
            Some(h) => r matches Ok(v) && v@ == h,
            None => r matches Err(msg) && msg@ == missing_entry_text(),
        },
{
    match find_entry(&history, id) {
        None => Err(owned("剪贴板记录不存在")),
        Some(i) => {
            let mut history = history;
            let mut item = history.remove(i);
            item.favorite = !item.favorite;
            let ghost before = history@;
            history.insert(i, item);
            Ok(history)
        },
    }
}

/// The position of the first image entry of `h` with id `id`, if any.
pub open spec fn first_image_with_id(h: Seq<ClipboardItem>, id: Seq<char>) -> Option<int> {
    if exists|i: int| 0 <= i < h.len() && (#[trigger] h[i]).id@ == id && h[i].kind@ == "image"@ {
        Some(
            choose|i: int|
                0 <= i < h.len() && (#[trigger] h[i]).id@ == id && h[i].kind@ == "image"@
                    && forall|k: int|
                    0 <= k < i ==> !((#[trigger] h[k]).id@ == id && h[k].kind@ == "image"@),
        )
    } else {
        None
    }
}

/// The saved image of the first image entry with the given id.
fn first_image_path(history: &Vec<ClipboardItem>, id: &str) -> (r: Option<String>)
    ensures
        match first_image_with_id(history@, id@) {
            Some(i) => r matches Some(p) && p == history@[i].image_path,
            None => r is None,
        },
{
    proof {
        reveal_strlit("image");
    }
    let mut i: usize = 0;
    while i < history.len()
        invariant
            i <= history.len(),
            forall|k: int|
                0 <= k < i ==> !((#[trigger] history@[k]).id@ == id@ && history@[k].kind@
                    == "image"@),
        decreases history.len() - i,
    {
        if same(history[i].id.as_str(), id) && same(history[i].kind.as_str(), "image") {
            proof {
                let h = history@;
                let j = choose|j: int|
                    0 <= j < h.len() && (#[trigger] h[j]).id@ == id@ && h[j].kind@ == "image"@
                        && forall|k: int|
                        0 <= k < j ==> !((#[trigger] h[k]).id@ == id@ && h[k].kind@ == "image"@);
                assert(h[i as int].id@ == id@ && h[i as int].kind@ == "image"@);
                if j < i {
                    assert(!(h[j].id@ == id@ && h[j].kind@ == "image"@));
                }
                if j > i {
                    assert(!(h[i as int].id@ == id@ && h[i as int].kind@ == "image"@));
                }
            }
            return Some(history[i].image_path.clone());
        }
        i = i + 1;
    }
    None
}

/// Deletes the entries with the given id. Also returns the saved image of
/// the first image entry with that id, which is to be removed from disk.
pub fn delete_entry(history: Vec<ClipboardItem>, id: &str) -> (r: (Vec<ClipboardItem>, Option<
    String,
>))
    ensures
        r.0@ == without_id(history@, id@),
        match first_image_with_id(history@, id@) {
            Some(i) => r.1 matches Some(p) && p == history@[i].image_path,
            None => r.1 is None,
        },
{
    let image = first_image_path(&history, id);
    (drop_id(history, id), image)
}

/// The saved images of the image entries of `original` that no entry of
/// `kept` refers to, in order.
pub open spec fn discarded_images(original: Seq<ClipboardItem>, kept: Seq<ClipboardItem>) -> Seq<
    Seq<char>,
>
    decreases original.len(),
{
    if original.len() == 0 {
        Seq::empty()
    } else {
        let prev = discarded_images(original.drop_last(), kept);
        let item = original.last();
        if item.kind@ == "image"@ && item.image_path@.len() > 0 && !(exists|k: int|
            0 <= k < kept.len() && (#[trigger] kept[k]).image_path@ == item.image_path@) {
            prev.push(item.image_path@)
        } else {
            prev
        }
    }
}

fn refers_to(kept: &Vec<ClipboardItem>, path: &str) -> (r: bool)
    ensures
        r == exists|k: int| 0 <= k < kept@.len() && (#[trigger] kept@[k]).image_path@ == path@,
{
    let mut k: usize = 0;
    while k < kept.len()
        invariant
            k <= kept.len(),
            forall|m: int| 0 <= m < k ==> (#[trigger] kept@[m]).image_path@ != path@,
        decreases kept.len() - k,
    {
        if same(kept[k].image_path.as_str(), path) {
            return true;
        }
        k = k + 1;
    }
    false
}

/// The saved images that pruning left without an entry: they are removed
/// from disk.
pub fn discarded_image_paths(original: &Vec<ClipboardItem>, kept: &Vec<ClipboardItem>) -> (r: Vec<
    String,
>)
    ensures
        views(r@) == discarded_images(original@, kept@),
{
    proof {
        reveal_strlit("image");
    }
    let mut out: Vec<String> = Vec::new();
    let mut i: usize = 0;
    while i < original.len()
        invariant
            i <= original.len(),
            views(out@) == discarded_images(original@.take(i as int), kept@),
        decreases original.len() - i,
    {
        let item = &original[i];
        proof {
            let t = original@.take(i + 1);
            assert(t.drop_last() =~= original@.take(i as int));
            assert(t.last() == *item);
        }
        if same(item.kind.as_str(), "image") && !item.image_path.as_str().is_empty() && !refers_to(
            kept,
            item.image_path.as_str(),
        ) {
            let ghost before = out@;
            out.push(item.image_path.clone());
            assert(views(out@) =~= views(before).push(item.image_path@));
        }
        i = i + 1;
    }
    assert(original@.take(original.len() as int) =~= original@);
    out
}

/// The number of image entries of `h`.
pub open spec fn image_count(h: Seq<ClipboardItem>) -> nat
    decreases h.len(),
{
    if h.len() == 0 {
        0
    } else {
        image_count(h.drop_last()) + if h.last().kind@ == "image"@ {
            1nat
        } else {
            0nat
        }
    }
}

/// Where the clipboard history is stored and how much it holds.
#[derive(Clone, Debug, PartialEq, Eq)]
pub struct ClipboardStorageInfo {
    pub directory: String,
    pub total_bytes: u64,
    pub item_count: usize,
    pub image_count: usize,
}

/// The storage summary of a history kept in `directory`, which takes
/// `total_bytes` on disk.
pub fn clipboard_storage_info(directory: String, total_bytes: u64, history: &Vec<ClipboardItem>) -> (r:
    ClipboardStorageInfo)
    ensures
        r.directory == directory,
        r.total_bytes == total_bytes,
        r.item_count == history.len(),
        r.image_count == image_count(history@),
{
    proof {
        reveal_strlit("image");
    }
    let mut count: usize = 0;
    let mut i: usize = 0;
    while i < history.len()
        invariant
            i <= history.len(),
            count == image_count(history@.take(i as int)),
            count <= i,
        decreases history.len() - i,
    {
        proof {
            let t = history@.take(i + 1);
            assert(t.drop_last() =~= history@.take(i as int));
            assert(t.last() == history@[i as int]);
        }
        if same(history[i].kind.as_str(), "image") {
            count = count + 1;
        }
        i = i + 1;
    }
    assert(history@.take(history.len() as int) =~= history@);
    ClipboardStorageInfo {
        directory,
        total_bytes,
        item_count: history.len(),
        image_count: count,
    }
}

/// The request to copy an entry back to the clipboard.
#[derive(Clone, Debug, PartialEq, Eq)]
pub struct ClipboardCopyRequest {
    pub id: String,
}

/// How an entry is put back on the clipboard.
#[derive(Clone, Copy, Debug, PartialEq, Eq, Structural)]
pub enum CopyTarget {
    Files,
    Image,
    Text,
}

/// File entries go back as files, image entries as images, anything else
/// as text.
pub open spec fn copy_target_of(kind: Seq<char>) -> CopyTarget {
    if kind == "file"@ {
        CopyTarget::Files
    } else if kind == "image"@ {
        CopyTarget::Image
    } else {
        CopyTarget::Text
    }
}

/// How an entry of the given kind is put back on the clipboard.
pub fn copy_target(kind: &str) -> (r: CopyTarget)
    ensures
        r == copy_target_of(kind@),
{
    if same(kind, "file") {
        CopyTarget::Files
    } else if same(kind, "image") {
        CopyTarget::Image
    } else {
        CopyTarget::Text
    }
}

/// No two entries of `h` share an id.
pub open spec fn unique_ids(h: Seq<ClipboardItem>) -> bool {
    forall|i: int, j: int| 0 <= i < j < h.len() ==> (#[trigger] h[i]).id@ != (#[trigger] h[j]).id@
}

proof fn lemma_without_id(h: Seq<ClipboardItem>, id: Seq<char>)
    ensures
        forall|i: int|
            0 <= i < without_id(h, id).len() ==> (#[trigger] without_id(h, id)[i]).id@ != id
                && h.contains(without_id(h, id)[i]),
        unique_ids(h) ==> unique_ids(without_id(h, id)),
    decreases h.len(),
{
    if h.len() > 0 {
        let t = h.drop_first();
        let w = without_id(t, id);
        lemma_without_id(t, id);
        assert forall|i: int| 0 <= i < w.len() implies h.contains(#[trigger] w[i]) by {
            assert(t.contains(w[i]));
            let k = choose|k: int| 0 <= k < t.len() && t[k] == w[i];
            assert(h[k + 1] == w[i]);
        }
        if h[0].id@ != id {
            let s = seq![h[0]] + w;
            assert forall|i: int| 0 <= i < s.len() implies (#[trigger] s[i]).id@ != id && h.contains(
                s[i],
            ) by {
                if i == 0 {
                    assert(h[0] == s[0]);
                } else {
                    assert(s[i] == w[i - 1]);
                }
            }
            if unique_ids(h) {
                assert(unique_ids(t)) by {
                    assert forall|a: int, b: int| 0 <= a < b < t.len() implies (#[trigger] t[a]).id@
                        != (#[trigger] t[b]).id@ by {
                        assert(t[a] == h[a + 1] && t[b] == h[b + 1]);
                    }
                }
                assert forall|a: int, b: int| 0 <= a < b < s.len() implies (#[trigger] s[a]).id@
                    != (#[trigger] s[b]).id@ by {
                    if a == 0 {
                        assert(s[b] == w[b - 1]);
                        let k = choose|k: int| 0 <= k < h.len() && h[k] == w[b - 1];
                        if k == 0 {
                            // w holds no entry with h[0]'s id only when that id is not `id`;
                            // it may still hold h[0] itself only if h[0] occurs later in h
                            assert(t.contains(w[b - 1]));
                            let m = choose|m: int| 0 <= m < t.len() && t[m] == w[b - 1];
                            assert(h[m + 1] == h[0]);
                        } else {
                            assert(h[0].id@ != h[k].id@);
                        }
                    } else {
                        assert(s[a] == w[a - 1] && s[b] == w[b - 1]);
                    }
                }
            }
        } else {
            if unique_ids(h) {
                assert(unique_ids(t)) by {
                    assert forall|a: int, b: int| 0 <= a < b < t.len() implies (#[trigger] t[a]).id@
                        != (#[trigger] t[b]).id@ by {
                        assert(t[a] == h[a + 1] && t[b] == h[b + 1]);
                    }
                }
            }
        }
    }
}

/// Recording an entry puts it first and leaves no other entry with its id;
/// a history without repeated ids keeps that property.
pub proof fn law_remember_entry(h: Seq<ClipboardItem>, item: ClipboardItem)
    ensures
        remembered(h, item)[0] == item,
        forall|i: int|
            1 <= i < remembered(h, item).len() ==> (#[trigger] remembered(h, item)[i]).id@
                != item.id@,
        unique_ids(h) ==> unique_ids(remembered(h, item)),
{
    let w = without_id(h, item.id@);
    let r = remembered(h, item);
    lemma_without_id(h, item.id@);
    assert forall|i: int| 1 <= i < r.len() implies (#[trigger] r[i]).id@ != item.id@ by {
        assert(r[i] == w[i - 1]);
    }
    if unique_ids(h) {
        assert forall|a: int, b: int| 0 <= a < b < r.len() implies (#[trigger] r[a]).id@
            != (#[trigger] r[b]).id@ by {
            if a == 0 {
                assert(r[b] == w[b - 1]);
            } else {
                assert(r[a] == w[a - 1] && r[b] == w[b - 1]);
            }
        }
    }
}

/// The history with the first entry of id `id` marked or unmarked as a
/// favorite; `None` when no entry has that id.
pub open spec fn toggled(h: Seq<ClipboardItem>, id: Seq<char>) -> Option<Seq<ClipboardItem>> {
    match first_with_id(h, id) {
        Some(i) => Some(h.update(i, (ClipboardItem { favorite: !h[i].favorite, ..h[i] }))),
        None => None,
    }
}

proof fn lemma_least_with_id(h: Seq<ClipboardItem>, id: Seq<char>, i: int) -> (m: int)
    requires
        0 <= i < h.len(),
        h[i].id@ == id,
    ensures
        0 <= m <= i,
        h[m].id@ == id,
        forall|k: int| 0 <= k < m ==> (#[trigger] h[k]).id@ != id,
    decreases i,
{
    if exists|k: int| 0 <= k < i && (#[trigger] h[k]).id@ == id {
        let k = choose|k: int| 0 <= k < i && (#[trigger] h[k]).id@ == id;
        lemma_least_with_id(h, id, k)
    } else {
        i
    }
}

proof fn lemma_first_with_id_found(h: Seq<ClipboardItem>, id: Seq<char>)
    requires
        first_with_id(h, id) is Some,
    ensures
        0 <= first_with_id(h, id)->0 < h.len(),
        h[first_with_id(h, id)->0].id@ == id,
        forall|k: int| 0 <= k < first_with_id(h, id)->0 ==> (#[trigger] h[k]).id@ != id,
{
    let i = choose|i: int| 0 <= i < h.len() && (#[trigger] h[i]).id@ == id;
    let m = lemma_least_with_id(h, id, i);
    lemma_first_with_id(h, id, m);
}

/// Toggling the favorite mark of an entry twice restores the history.
pub proof fn law_toggle_favorite_twice(h: Seq<ClipboardItem>, id: Seq<char>)
    ensures
        toggled(h, id) matches Some(once) ==> toggled(once, id) == Some(h),
{
    if first_with_id(h, id) is Some {
        lemma_first_with_id_found(h, id);
        let i = first_with_id(h, id)->0;
        let x = h[i];
        let y = ClipboardItem { favorite: !x.favorite, ..x };
        let once = h.update(i, y);
        assert(once[i] == y);
        assert forall|k: int| 0 <= k < i implies (#[trigger] once[k]).id@ != id by {
            assert(once[k] == h[k]);
        }
        lemma_first_with_id(once, id, i);
        let z = ClipboardItem { favorite: !y.favorite, ..y };
        assert(z == x);
        assert(once.update(i, z) =~= h);
    }
}

/// What the clipboard watcher last saw, so that it records each copy once.
#[derive(Clone, Debug, PartialEq, Eq)]
pub struct WatcherState {
    pub last_text: String,
    pub last_image_id: String,
    pub last_file_id: String,
}

impl WatcherState {
    /// A watcher that has seen nothing yet.
    pub fn new() -> (r: Self)
        ensures
            r.last_text@.len() == 0,
            r.last_image_id@.len() == 0,
            r.last_file_id@.len() == 0,
    {
        WatcherState {
            last_text: String::new(),
            last_image_id: String::new(),
            last_file_id: String::new(),
        }
    }

    /// Files on the clipboard: whether to record them. They are recorded
    /// when file capture is on and they differ from the files last
    /// recorded; those then become the last files seen.
    pub fn observe_files(&mut self, settings: &ClipboardSettings, file_id: &str) -> (r: bool)
        ensures
            r == (settings.capture_files && file_id@ != old(self).last_file_id@),
            r ==> final(self).last_file_id@ == file_id@ && final(self).last_text
                == old(self).last_text && final(self).last_image_id == old(self).last_image_id,
            !r ==> *final(self) == *old(self),
    {
        if settings.capture_files && !same(file_id, self.last_file_id.as_str()) {
            self.last_file_id = owned(file_id);
            true
        } else {
            false
        }
    }

    /// Text on the clipboard (text capture being on): whether to record it.
    /// It is recorded when it is not blank and differs from the text last
    /// recorded; it then becomes the last text seen.
    pub fn observe_text(&mut self, text: &str) -> (r: bool)
        ensures
            r == (!is_blank(text@) && text@ != old(self).last_text@),
            r ==> final(self).last_text@ == text@ && final(self).last_file_id
                == old(self).last_file_id && final(self).last_image_id == old(self).last_image_id,
            !r ==> *final(self) == *old(self),
    {
        if !blank(text) && !same(text, self.last_text.as_str()) {
            self.last_text = owned(text);
            true
        } else {
            false
        }
    }

    /// An image on the clipboard (image capture being on): whether to
    /// record it. It is recorded when it differs from the image last
    /// recorded; it then becomes the last image seen.
    pub fn observe_image(&mut self, image_id: &str) -> (r: bool)
        ensures
            r == (image_id@ != old(self).last_image_id@),
            r ==> final(self).last_image_id@ == image_id@ && final(self).last_file_id
                == old(self).last_file_id && final(self).last_text == old(self).last_text,
            !r ==> *final(self) == *old(self),
    {
        if !same(image_id, self.last_image_id.as_str()) {
            self.last_image_id = owned(image_id);
            true
        } else {
            false
        }
    }
}


/// Which parts of the system clipboard a watcher tick reads: nothing while
/// recording is off; otherwise the copied files, and the text and the image
/// when their capture is on.
#[derive(Clone, Copy, Debug, PartialEq, Eq, Structural)]
pub struct TickReads {
    pub files: bool,
    pub text: bool,
    pub image: bool,
}

/// What a watcher tick reads, given the settings.
pub fn tick_reads(settings: &ClipboardSettings) -> (r: TickReads)
    ensures
        r.files == settings.enabled,
        r.text == (settings.enabled && settings.capture_text),
        r.image == (settings.enabled && settings.capture_images),
{
    TickReads {
        files: settings.enabled,
        text: settings.enabled && settings.capture_text,
        image: settings.enabled && settings.capture_images,
    }
}

/// What a watcher tick records: the copied files (under the id given), the
/// copied text, the copied image.
#[derive(Clone, Debug, PartialEq, Eq)]
pub struct TickRecord {
    pub files: Option<String>,
    pub text: bool,
    pub image: bool,
}

/// The id of an entry for the given files.
pub open spec fn files_id(paths: Seq<String>) -> Seq<char> {
    hex_lower(sha256(files_digest_input(paths)))
}

/// The view of an optional string.
pub open spec fn opt_view(o: Option<String>) -> Option<Seq<char>> {
    match o {
        Some(s) => Some(s@),
        None => None,
    }
}

/// One tick of the clipboard watcher, given what it last recorded, the
/// settings, and what the clipboard holds (`files` empty when no files are
/// copied or they cannot be read, `text` and `image_id` `None` when not
/// read or unreadable): what it records and what it then remembers.
/// Nothing while recording is off. Copied files take precedence: they are
/// recorded when file capture is on and they differ from the files last
/// recorded, and text and image are then left alone. Otherwise the text is
/// recorded when text capture is on and it is not blank and differs from
/// the text last recorded, and the image when image capture is on and it
/// differs from the image last recorded.
pub open spec fn tick_outcome(
    s: WatcherState,
    settings: ClipboardSettings,
    files: Seq<String>,
    text: Option<Seq<char>>,
    image_id: Option<Seq<char>>,
    record: TickRecord,
    next: WatcherState,
) -> bool {
    if !settings.enabled {
        record == TickRecord { files: None, text: false, image: false } && next == s
    } else if files.len() > 0 {
        let fid = files_id(files);
        let take = settings.capture_files && fid != s.last_file_id@;
        &&& !record.text
        &&& !record.image
        &&& (record.files is Some) == take
        &&& (record.files matches Some(id) ==> id@ == fid)
        &&& (take ==> next.last_file_id@ == fid && next.last_text == s.last_text
            && next.last_image_id == s.last_image_id)
        &&& (!take ==> next == s)
    } else {
        let take_text = settings.capture_text && (text matches Some(t) && !is_blank(t) && t
            != s.last_text@);
        let take_image = settings.capture_images && (image_id matches Some(i) && i
            != s.last_image_id@);
        &&& record.files is None
        &&& record.text == take_text
        &&& record.image == take_image
        &&& next.last_file_id == s.last_file_id
        &&& (if take_text {
            next.last_text@ == text->0
        } else {
            next.last_text == s.last_text
        })
        &&& (if take_image {
            next.last_image_id@ == image_id->0
        } else {
            next.last_image_id == s.last_image_id
        })
    }
}

impl WatcherState {
    /// One tick of the watcher (see `tick_outcome`).
    pub fn tick(
        &mut self,
        settings: &ClipboardSettings,
        files: &Vec<String>,
        text: &Option<String>,
        image_id: &Option<String>,
    ) -> (r: TickRecord)
        ensures
            tick_outcome(*old(self), *settings, files@, opt_view(*text), opt_view(*image_id), r, *final(self)),
            !settings.enabled ==> !r.text && !r.image && r.files is None && *final(self) == *old(self),
            settings.enabled && files@.len() > 0 ==> !r.text && !r.image && final(self).last_text
                == old(self).last_text && final(self).last_image_id == old(self).last_image_id,
            files@.len() == 0 ==> r.files is None && final(self).last_file_id == old(self).last_file_id,
    {
        if !settings.enabled {
            return TickRecord { files: None, text: false, image: false };
        }
        if files.len() > 0 {
            let fid = clipboard_files_id(files);
            if self.observe_files(settings, fid.as_str()) {
                return TickRecord { files: Some(fid), text: false, image: false };
            }
            return TickRecord { files: None, text: false, image: false };
        }
        let mut record = TickRecord { files: None, text: false, image: false };
        if settings.capture_text {
            if let Some(t) = text {
                record.text = self.observe_text(t.as_str());
            }
        }
        if settings.capture_images {
            if let Some(i) = image_id {
                record.image = self.observe_image(i.as_str());
            }
        }
        record
    }
}


/// The entry recorded for a copied text holds that text exactly (the
/// preview is only for display), under the text's id, as a new text entry
/// that is not a favorite; recording puts it first.
pub proof fn law_recorded_text_is_exact(
    h: Seq<ClipboardItem>,
    item: ClipboardItem,
    text: Seq<char>,
    copied_at: Seq<char>,
)
    requires
        is_text_entry(item, text, copied_at),
    ensures
        remembered(h, item)[0].text@ == text,
        remembered(h, item)[0].id@ == hex_lower(sha256(encode_utf8(text))),
        remembered(h, item)[0].kind@ == "text"@,
        remembered(h, item)[0].copied_at@ == copied_at,
        !remembered(h, item)[0].favorite,
{
}

/// While recording is on and files are copied, a watcher tick records
/// neither text nor image and keeps the last text and image it saw,
/// whether or not it records the files; with recording off it records
/// nothing and changes nothing; without files it records no files.
pub proof fn law_tick_copied_files_come_alone(
    s: WatcherState,
    settings: ClipboardSettings,
    files: Seq<String>,
    text: Option<Seq<char>>,
    image_id: Option<Seq<char>>,
    record: TickRecord,
    next: WatcherState,
)
    requires
        tick_outcome(s, settings, files, text, image_id, record, next),
    ensures
        settings.enabled && files.len() > 0 ==> !record.text && !record.image && next.last_text
            == s.last_text && next.last_image_id == s.last_image_id,
        !settings.enabled ==> !record.text && !record.image && record.files is None && next == s,
        files.len() == 0 ==> record.files is None && next.last_file_id == s.last_file_id,
        record.text ==> settings.enabled && settings.capture_text && files.len() == 0 && (text
            matches Some(t) && !is_blank(t) && t != s.last_text@ && next.last_text@ == t),
        record.image ==> settings.enabled && settings.capture_images && files.len() == 0 && (
        image_id matches Some(i) && i != s.last_image_id@ && next.last_image_id@ == i),
{
}
} // verus!
