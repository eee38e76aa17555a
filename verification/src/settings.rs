//! The typed settings accessor: a string key/value store with upsert
//! semantics, and typed getters that fall back to a documented default
//! whenever a key is absent or its stored text does not parse.

use vstd::prelude::*;

use crate::models::Setting;
use crate::models::str_eq;
use crate::text::all_dec_digits;
use crate::text::dec_digit_char;
use crate::text::dec_text;
use crate::text::digit_val;
use crate::text::digits_val;
use crate::text::is_dec_digit;
use crate::text::parse_u64_text;
use crate::text::parse_u64;

verus! {

/// The mapping a sequence of settings rows denotes; a later row with the
/// same key overrides an earlier one.
pub open spec fn map_of_rows(rows: Seq<Setting>) -> Map<Seq<char>, Seq<char>>
    decreases rows.len(),
{
    if rows.len() == 0 {
        Map::empty()
    } else {
        map_of_rows(rows.drop_last()).insert(rows.last().key@, rows.last().value@)
    }
}

/// No two rows share a key.
pub open spec fn unique_keys(rows: Seq<Setting>) -> bool {
    forall|i: int, j: int|
        0 <= i < j < rows.len() ==> #[trigger] rows[i].key@ != #[trigger] rows[j].key@
}

/// An in-memory settings store: the persistence double the scheduler and its
/// tests run against. Keys are unique; `set` is an upsert.
pub struct SettingsStore {
    entries: Vec<Setting>,
}

impl SettingsStore {
    /// The rows currently held, in insertion order.
    pub closed spec fn rows(self) -> Seq<Setting> {
        self.entries@
    }

    /// The key/value mapping this store denotes.
    pub open spec fn map_view(self) -> Map<Seq<char>, Seq<char>> {
        map_of_rows(self.rows())
    }

    /// Internal consistency: every key is held at most once.
    pub open spec fn wf(self) -> bool {
        unique_keys(self.rows())
    }

    /// An empty store: every typed getter then answers with its default.
    pub fn new() -> (r: SettingsStore)
        ensures
            r.wf(),
            r.map_view() == Map::<Seq<char>, Seq<char>>::empty(),
            r.rows() == Seq::<Setting>::empty(),
    {
        SettingsStore { entries: Vec::new() }
    }

    /// A store seeded with the four documented defaults, as a fresh
    /// persistence layer is.
    pub fn with_defaults() -> (r: SettingsStore)
        ensures
            r.wf(),
            r.rows().len() == 4,
            r.map_view() == Map::<Seq<char>, Seq<char>>::empty().insert(
                "interval_minutes"@,
                "15"@,
            ).insert("idle_threshold_minutes"@, "5"@).insert("notification_enabled"@, "true"@)
                .insert("notification_sound"@, "default"@),
    {
        proof {
            reveal_strlit("interval_minutes");
            reveal_strlit("idle_threshold_minutes");
            reveal_strlit("notification_enabled");
            reveal_strlit("notification_sound");
            assert("interval_minutes"@.len() == 16 && "idle_threshold_minutes"@.len() == 22
                && "notification_enabled"@.len() == 20 && "notification_sound"@.len() == 18);
        }
        let mut s = SettingsStore::new();
        s.set("interval_minutes", "15");
        s.set("idle_threshold_minutes", "5");
        s.set("notification_enabled", "true");
        s.set("notification_sound", "default");
        s
    }

    /// Looks a key up; `None` when the store holds no row for it.
    pub fn get(&self, key: &str) -> (r: Option<String>)
        requires
            self.wf(),
        ensures
            (r is Some) == self.map_view().contains_key(key@),
            r matches Some(v) ==> v@ == self.map_view()[key@],
    {
        proof {
            lemma_map_of_rows_props(self.entries@);
        }
        let n: usize = self.entries.len();
        let mut i: usize = 0;
        while i < n
            invariant
                0 <= i <= n,
                n == self.entries@.len(),
                self.wf(),
                forall|j: int| 0 <= j < i ==> #[trigger] self.entries@[j].key@ != key@,
                forall|j: int|
                    0 <= j < self.entries@.len() ==> map_of_rows(self.entries@).contains_key(
                        #[trigger] self.entries@[j].key@,
                    ) && map_of_rows(self.entries@)[self.entries@[j].key@]
                        == self.entries@[j].value@,
                forall|k: Seq<char>|
                    #[trigger] map_of_rows(self.entries@).contains_key(k) ==> exists|j: int|
                        0 <= j < self.entries@.len() && self.entries@[j].key@ == k,
            decreases n - i,
        {
            if str_eq(self.entries[i].key.as_str(), key) {
                return Some(self.entries[i].value.clone());
            }
            i = i + 1;
        }
        None
    }

    /// Upserts a value: the one row with this key is replaced, or a row is
    /// appended when the key was absent. Every other key keeps its value.
    pub fn set(&mut self, key: &str, value: &str)
        requires
            old(self).wf(),
        ensures
            final(self).wf(),
            final(self).map_view() == old(self).map_view().insert(key@, value@),
            old(self).map_view().contains_key(key@) ==> final(self).rows().len() == old(
                self,
            ).rows().len(),
            !old(self).map_view().contains_key(key@) ==> final(self).rows().len() == old(
                self,
            ).rows().len() + 1,
    {
        proof {
            lemma_map_of_rows_props(self.entries@);
        }
        let n: usize = self.entries.len();
        let mut i: usize = 0;
        while i < n
            invariant
                0 <= i <= n,
                n == self.entries@.len(),
                self.entries@ == old(self).entries@,
                self.wf(),
                forall|j: int| 0 <= j < i ==> #[trigger] self.entries@[j].key@ != key@,
                forall|j: int|
                    0 <= j < self.entries@.len() ==> map_of_rows(self.entries@).contains_key(
                        #[trigger] self.entries@[j].key@,
                    ),
                forall|k: Seq<char>|
                    #[trigger] map_of_rows(self.entries@).contains_key(k) ==> exists|j: int|
                        0 <= j < self.entries@.len() && self.entries@[j].key@ == k,
            decreases n - i,
        {
            if str_eq(self.entries[i].key.as_str(), key) {
                let ghost old_rows = self.entries@;
                let new_row = Setting { key: key.to_owned(), value: value.to_owned() };
                self.entries.set(i, new_row);
                proof {
                    lemma_map_of_rows_update(old_rows, i as int, self.entries@[i as int]);
                    assert(self.entries@ =~= old_rows.update(i as int, self.entries@[i as int]));
                    assert forall|a: int, b: int| 0 <= a < b < self.entries@.len() implies
                        #[trigger] self.entries@[a].key@ != #[trigger] self.entries@[b].key@ by {
                        assert(old_rows[a].key@ != old_rows[b].key@);
                    }
                }
                return ;
            }
            i = i + 1;
        }
        let ghost old_rows = self.entries@;
        self.entries.push(Setting { key: key.to_owned(), value: value.to_owned() });
        proof {
            assert(self.entries@.drop_last() =~= old_rows);
            assert forall|a: int, b: int| 0 <= a < b < self.entries@.len() implies
                #[trigger] self.entries@[a].key@ != #[trigger] self.entries@[b].key@ by {
                if b < self.entries@.len() - 1 {
                    assert(old_rows[a].key@ != old_rows[b].key@);
                } else {
                    assert(old_rows[a].key@ != key@);
                }
            }
        }
    }

    /// Every row of the store, in insertion order.
    pub fn get_all(&self) -> (r: Vec<Setting>)
        ensures
            r@.len() == self.rows().len(),
            forall|i: int|
                0 <= i < r@.len() ==> (#[trigger] r@[i]).key@ == self.rows()[i].key@
                    && r@[i].value@ == self.rows()[i].value@,
    {
        let n: usize = self.entries.len();
        let mut out: Vec<Setting> = Vec::new();
        let mut i: usize = 0;
        while i < n
            invariant
                0 <= i <= n,
                n == self.entries@.len(),
                out@.len() == i,
                forall|j: int|
                    0 <= j < i ==> (#[trigger] out@[j]).key@ == self.entries@[j].key@
                        && out@[j].value@ == self.entries@[j].value@,
            decreases n - i,
        {
            out.push(
                Setting {
                    key: self.entries[i].key.clone(),
                    value: self.entries[i].value.clone(),
                },
            );
            i = i + 1;
        }
        out
    }

    /// The configured interval length in minutes; 15 when absent or
    /// unparsable.
    pub fn get_interval_minutes(&self) -> (r: u64)
        requires
            self.wf(),
        ensures
            r == spec_interval_minutes(self.map_view()),
    {
        let v = self.get("interval_minutes");
        interval_minutes_or_default(v.as_ref())
    }

    /// The idle threshold in minutes; 5 when absent or unparsable.
    pub fn get_idle_threshold_minutes(&self) -> (r: u32)
        requires
            self.wf(),
        ensures
            r == spec_idle_threshold_minutes(self.map_view()),
    {
        let v = self.get("idle_threshold_minutes");
        idle_threshold_or_default(v.as_ref())
    }

    /// Whether prompt notifications are enabled; true when the key is
    /// absent, and otherwise exactly when the stored text is `true`.
    pub fn is_notification_enabled(&self) -> (r: bool)
        requires
            self.wf(),
        ensures
            r == spec_notification_enabled(self.map_view()),
    {
        let v = self.get("notification_enabled");
        notification_enabled_or_default(v.as_ref())
    }

    /// The configured notification sound name; `default` when absent.
    pub fn get_notification_sound(&self) -> (r: String)
        requires
            self.wf(),
        ensures
            r@ == spec_notification_sound(self.map_view()),
    {
        let v = self.get("notification_sound");
        notification_sound_or_default(v)
    }
}

/// The stored text under a key, if any.
pub open spec fn stored_of(m: Map<Seq<char>, Seq<char>>, k: Seq<char>) -> Option<Seq<char>> {
    if m.contains_key(k) {
        Some(m[k])
    } else {
        None
    }
}

/// The interval a stored text denotes: its decimal value, or 15 when the
/// text is absent or not a decimal number.
pub open spec fn interval_of_stored(v: Option<Seq<char>>) -> u64 {
    match v {
        Some(s) => match parse_u64_text(s) {
            Some(x) => x,
            None => 15,
        },
        None => 15,
    }
}

/// The idle threshold a stored text denotes: its decimal value when it fits
/// a `u32`, or 5 otherwise.
pub open spec fn idle_threshold_of_stored(v: Option<Seq<char>>) -> u32 {
    match v {
        Some(s) => match parse_u64_text(s) {
            Some(x) => if x <= u32::MAX {
                x as u32
            } else {
                5
            },
            None => 5,
        },
        None => 5,
    }
}

/// Whether a stored text enables notifications: enabled by default, and
/// otherwise exactly when the text is `true`.
pub open spec fn notification_enabled_of_stored(v: Option<Seq<char>>) -> bool {
    match v {
        Some(s) => s == "true"@,
        None => true,
    }
}

/// The sound a stored text denotes: the text itself, or `default`.
pub open spec fn notification_sound_of_stored(v: Option<Seq<char>>) -> Seq<char> {
    match v {
        Some(s) => s,
        None => "default"@,
    }
}

pub open spec fn spec_interval_minutes(m: Map<Seq<char>, Seq<char>>) -> u64 {
    interval_of_stored(stored_of(m, "interval_minutes"@))
}

pub open spec fn spec_idle_threshold_minutes(m: Map<Seq<char>, Seq<char>>) -> u32 {
    idle_threshold_of_stored(stored_of(m, "idle_threshold_minutes"@))
}

pub open spec fn spec_notification_enabled(m: Map<Seq<char>, Seq<char>>) -> bool {
    notification_enabled_of_stored(stored_of(m, "notification_enabled"@))
}

pub open spec fn spec_notification_sound(m: Map<Seq<char>, Seq<char>>) -> Seq<char> {
    notification_sound_of_stored(stored_of(m, "notification_sound"@))
}

/// Applies the interval default to a raw settings read.
pub fn interval_minutes_or_default(stored: Option<&String>) -> (r: u64)
    ensures
        r == interval_of_stored(
            match stored {
                Some(s) => Some(s@),
                None => None,
            },
        ),
{
    match stored {
        Some(s) => match parse_u64(s.as_str()) {
            Some(x) => x,
            None => 15,
        },
        None => 15,
    }
}

/// Applies the idle-threshold default to a raw settings read.
pub fn idle_threshold_or_default(stored: Option<&String>) -> (r: u32)
    ensures
        r == idle_threshold_of_stored(
            match stored {
                Some(s) => Some(s@),
                None => None,
            },
        ),
{
    match stored {
        Some(s) => match parse_u64(s.as_str()) {
            Some(x) => if x <= 0xFFFF_FFFF {
                x as u32
            } else {
                5
            },
            None => 5,
        },
        None => 5,
    }
}

/// Applies the notification-toggle default to a raw settings read.
pub fn notification_enabled_or_default(stored: Option<&String>) -> (r: bool)
    ensures
        r == notification_enabled_of_stored(
            match stored {
                Some(s) => Some(s@),
                None => None,
            },
        ),
{
    match stored {
        Some(s) => str_eq(s.as_str(), "true"),
        None => true,
    }
}

/// Applies the sound default to a raw settings read.
pub fn notification_sound_or_default(stored: Option<String>) -> (r: String)
    ensures
        r@ == notification_sound_of_stored(
            match stored {
                Some(s) => Some(s@),
                None => None,
            },
        ),
{
    match stored {
        Some(s) => s,
        None => "default".to_owned(),
    }
}

/// Setting a key and then reading it back gives exactly the value written,
/// for every store, key and value.
pub proof fn lemma_settings_roundtrip(m: Map<Seq<char>, Seq<char>>, k: Seq<char>, v: Seq<char>)
    ensures
        stored_of(m.insert(k, v), k) == Some(v),
{
}

/// A store that holds none of the four settings keys answers each typed
/// getter with its documented default: 15, 5, enabled, and `default`.
pub proof fn lemma_settings_defaults(m: Map<Seq<char>, Seq<char>>)
    requires
        !m.contains_key("interval_minutes"@),
        !m.contains_key("idle_threshold_minutes"@),
        !m.contains_key("notification_enabled"@),
        !m.contains_key("notification_sound"@),
    ensures
        spec_interval_minutes(m) == 15,
        spec_idle_threshold_minutes(m) == 5,
        spec_notification_enabled(m),
        spec_notification_sound(m) == "default"@,
{
}

/// The decimal rendering of a non-negative integer is a non-empty digit
/// string denoting that same integer.
proof fn lemma_dec_text_props(n: int)
    requires
        n >= 0,
    ensures
        dec_text(n).len() >= 1,
        all_dec_digits(dec_text(n)),
        digits_val(dec_text(n)) == n,
        is_dec_digit(dec_text(n)[0]),
    decreases n,
{
    let t = dec_text(n);
    if n < 10 {
        assert(t =~= seq![dec_digit_char(n)]);
        assert(t.drop_last() =~= Seq::<char>::empty());
        assert(t.last() == dec_digit_char(n));
        assert(digit_val(dec_digit_char(n)) == n);
        assert(digits_val(t) == digits_val(t.drop_last()) * 10 + digit_val(t.last()));
    } else {
        lemma_dec_text_props(n / 10);
        let head = dec_text(n / 10);
        assert(t == head.push(dec_digit_char(n % 10)));
        assert(t.drop_last() =~= head);
        assert(t.last() == dec_digit_char(n % 10));
        assert forall|i: int| 0 <= i < t.len() implies is_dec_digit(#[trigger] t[i]) by {
            if i < t.len() - 1 {
                assert(t[i] == head[i]);
            }
        }
        assert(digit_val(dec_digit_char(n % 10)) == n % 10);
        assert(digits_val(t) == digits_val(head) * 10 + digit_val(dec_digit_char(n % 10)));
        assert(n / 10 * 10 + n % 10 == n);
        assert(t[0] == head[0]);
    }
}

/// Parsing the decimal rendering of a `u64` gives that `u64` back: the
/// stored form of a numeric setting round-trips exactly.
pub proof fn lemma_parse_dec_text_roundtrip(n: u64)
    ensures
        parse_u64_text(dec_text(n as int)) == Some(n),
{
    let t = dec_text(n as int);
    lemma_dec_text_props(n as int);
    assert(!is_dec_digit('+'));
    assert(t[0] != '+');
}

/// Writing an interval as decimal text and reading the typed getter back
/// yields the interval unchanged, whatever else the store holds.
pub proof fn lemma_interval_roundtrip(m: Map<Seq<char>, Seq<char>>, v: u64)
    ensures
        spec_interval_minutes(m.insert("interval_minutes"@, dec_text(v as int))) == v,
{
    lemma_parse_dec_text_roundtrip(v);
}

/// Writing an idle threshold as decimal text and reading the typed getter
/// back yields the threshold unchanged.
pub proof fn lemma_idle_threshold_roundtrip(m: Map<Seq<char>, Seq<char>>, v: u32)
    ensures
        spec_idle_threshold_minutes(m.insert("idle_threshold_minutes"@, dec_text(v as int))) == v,
{
    lemma_parse_dec_text_roundtrip(v as u64);
}

/// In a run of rows with unique keys, the denoted mapping holds exactly the
/// rows' keys, each at its row's value.
proof fn lemma_map_of_rows_props(rows: Seq<Setting>)
    requires
        unique_keys(rows),
    ensures
        forall|j: int|
            0 <= j < rows.len() ==> map_of_rows(rows).contains_key(#[trigger] rows[j].key@)
                && map_of_rows(rows)[rows[j].key@] == rows[j].value@,
        forall|k: Seq<char>|
            #[trigger] map_of_rows(rows).contains_key(k) ==> exists|j: int|
                0 <= j < rows.len() && rows[j].key@ == k,
    decreases rows.len(),
{
    if rows.len() > 0 {
        let head = rows.drop_last();
        lemma_map_of_rows_props(head);
        assert forall|j: int| 0 <= j < rows.len() implies map_of_rows(rows).contains_key(
            #[trigger] rows[j].key@,
        ) && map_of_rows(rows)[rows[j].key@] == rows[j].value@ by {
            if j < rows.len() - 1 {
                assert(head[j] == rows[j]);
                assert(rows[j].key@ != rows[rows.len() - 1].key@);
            }
        }
        assert forall|k: Seq<char>| #[trigger] map_of_rows(rows).contains_key(k) implies exists|
            j: int,
        | 0 <= j < rows.len() && rows[j].key@ == k by {
            if k != rows.last().key@ {
                assert(map_of_rows(head).contains_key(k));
                let j = choose|j: int| 0 <= j < head.len() && head[j].key@ == k;
                assert(rows[j].key@ == k);
            } else {
                assert(rows[rows.len() - 1].key@ == k);
            }
        }
    }
}

/// Replacing the value of the one row that holds a key denotes the same
/// mapping as inserting the new value.
proof fn lemma_map_of_rows_update(rows: Seq<Setting>, j: int, new_row: Setting)
    requires
        0 <= j < rows.len(),
        new_row.key@ == rows[j].key@,
        forall|i: int| 0 <= i < rows.len() && i != j ==> #[trigger] rows[i].key@ != rows[j].key@,
    ensures
        map_of_rows(rows.update(j, new_row)) == map_of_rows(rows).insert(
            new_row.key@,
            new_row.value@,
        ),
    decreases rows.len(),
{
    let updated = rows.update(j, new_row);
    if j == rows.len() - 1 {
        assert(updated.drop_last() =~= rows.drop_last());
        assert(updated.last() == new_row);
        assert(map_of_rows(updated) == map_of_rows(rows.drop_last()).insert(
            new_row.key@,
            new_row.value@,
        ));
        assert(map_of_rows(rows.drop_last()).insert(new_row.key@, new_row.value@)
            =~= map_of_rows(rows).insert(new_row.key@, new_row.value@));
    } else {
        assert(updated.drop_last() =~= rows.drop_last().update(j, new_row));
        assert(updated.last() == rows.last());
        assert forall|i: int|
            0 <= i < rows.drop_last().len() && i != j implies #[trigger] rows.drop_last()[i].key@
            != rows.drop_last()[j].key@ by {
            assert(rows[i].key@ != rows[j].key@);
        }
        lemma_map_of_rows_update(rows.drop_last(), j, new_row);
        assert(rows[rows.len() - 1].key@ != rows[j].key@);
        assert(map_of_rows(rows.drop_last()).insert(new_row.key@, new_row.value@).insert(
            rows.last().key@,
            rows.last().value@,
        ) =~= map_of_rows(rows.drop_last()).insert(rows.last().key@, rows.last().value@).insert(
            new_row.key@,
            new_row.value@,
        ));
    }
}

} // verus!
