//! CSV export of time entries: quoting of note fields, row assembly, and
//! the calendar date labels that only the calendar (behind chrono) can
//! compute.

use vstd::prelude::*;
use vstd::string::StrSliceExecFns;
use vstd::string::StringExecFns;

use crate::models::TimeEntry;
use crate::text::hhmm_text;
use crate::text::i32_to_string;
use crate::text::int_text;
use crate::text::utc_time_label;

verus! {

/// Whether a CSV field needs quoting: it holds a comma, a quote or a
/// newline.
pub open spec fn needs_csv_quoting(s: Seq<char>) -> bool {
    exists|i: int| 0 <= i < s.len() && ((#[trigger] s[i]) == ',' || s[i] == '"' || s[i] == '\n')
}

/// The field with every quote doubled.
pub open spec fn doubled_quotes(s: Seq<char>) -> Seq<char>
    decreases s.len(),
{
    if s.len() == 0 {
        Seq::empty()
    } else {
        doubled_quotes(s.drop_last()) + (if s.last() == '"' {
            seq!['"', '"']
        } else {
            seq![s.last()]
        })
    }
}

/// A field as it stands in the exported CSV: unchanged when harmless, and
/// otherwise wrapped in quotes with every inner quote doubled.
pub open spec fn escaped_csv_text(s: Seq<char>) -> Seq<char> {
    if needs_csv_quoting(s) {
        seq!['"'] + doubled_quotes(s) + seq!['"']
    } else {
        s
    }
}

/// Escapes a field for CSV: quotes it, doubling inner quotes, exactly when
/// it holds a comma, a quote or a newline.
pub fn escape_csv_field(field: &str) -> (r: String)
    ensures
        r@ == escaped_csv_text(field@),
{
    let n: usize = field.unicode_len();
    let mut needs: bool = false;
    let mut i: usize = 0;
    while i < n
        invariant
            0 <= i <= n,
            n == field@.len(),
            needs == exists|j: int|
                0 <= j < i && ((#[trigger] field@[j]) == ',' || field@[j] == '"' || field@[j]
                    == '\n'),
        decreases n - i,
    {
        let c: char = field.get_char(i);
        if c == ',' || c == '"' || c == '\n' {
            needs = true;
        }
        i = i + 1;
    }
    if !needs {
        return field.to_owned();
    }
    let mut out: String = "\"".to_owned();
    proof {
        reveal_strlit("\"");
        reveal_strlit("\"\"");
        assert(out@ =~= seq!['"'] + doubled_quotes(field@.subrange(0, 0)));
    }
    let mut i: usize = 0;
    while i < n
        invariant
            0 <= i <= n,
            n == field@.len(),
            out@ == seq!['"'] + doubled_quotes(field@.subrange(0, i as int)),
        decreases n - i,
    {
        let c: char = field.get_char(i);
        if c == '"' {
            out.append("\"\"");
            proof {
                reveal_strlit("\"\"");
            }
        } else {
            let piece = field.substring_char(i, i + 1);
            out.append(piece);
        }
        proof {
            let pre = field@.subrange(0, i as int);
            let ext = field@.subrange(0, i + 1);
            assert(ext.drop_last() =~= pre);
            assert(ext.last() == field@[i as int]);
            if field@[i as int] == '"' {
                assert(out@ =~= seq!['"'] + doubled_quotes(ext));
            } else {
                assert(field@.subrange(i as int, i + 1) =~= seq![field@[i as int]]);
                assert(out@ =~= seq!['"'] + doubled_quotes(ext));
            }
        }
        i = i + 1;
    }
    out.append("\"");
    proof {
        reveal_strlit("\"");
        assert(field@.subrange(0, n as int) =~= field@);
        assert(out@ =~= seq!['"'] + doubled_quotes(field@) + seq!['"']);
    }
    out
}

/// The text a boolean shows as in the export.
pub open spec fn bool_text(b: bool) -> Seq<char> {
    if b {
        "true"@
    } else {
        "false"@
    }
}

/// The note text of an entry: its notes, or empty when it has none.
pub open spec fn notes_text(n: Option<String>) -> Seq<char> {
    match n {
        Some(s) => s@,
        None => Seq::empty(),
    }
}

/// The calendar date of an epoch second in UTC, as `%Y-%m-%d`: a function
/// of the second alone, computed by the calendar behind chrono.
pub uninterp spec fn utc_date_text(ts: int) -> Seq<char>;

/// Relies on `chrono::DateTime::<Utc>::from_timestamp` and its `%Y-%m-%d`
/// formatting: the calendar date label of an epoch second, `None` only
/// outside chrono's representable range, which holds every second from
/// year 0 through year 9999 and far beyond.
#[verifier::external_body]
fn utc_date_label(ts: i64) -> (r: Option<String>)
    ensures
        r matches Some(s) ==> s@ == utc_date_text(ts as int),
        -62_167_219_200 <= ts <= 253_402_300_799 ==> r is Some,
{
    chrono::DateTime::<chrono::Utc>::from_timestamp(ts, 0).map(
        |dt| dt.format("%Y-%m-%d").to_string(),
    )
}

/// One exported row: date, time, category, duration, the two flags, and
/// the escaped notes, newline-terminated.
pub open spec fn entry_csv_text(e: TimeEntry) -> Seq<char> {
    utc_date_text(e.timestamp as int) + ","@ + hhmm_text(e.timestamp as int % 86400) + ","@
        + e.category@ + ","@ + int_text(e.duration_minutes as int) + ","@ + bool_text(e.is_away)
        + ","@ + bool_text(e.is_retroactive) + ","@ + escaped_csv_text(notes_text(e.notes))
        + "\n"@
}

/// The whole export: the header line, then one row per entry in order.
pub open spec fn csv_text(entries: Seq<TimeEntry>) -> Seq<char>
    decreases entries.len(),
{
    if entries.len() == 0 {
        "Date,Time,Category,Duration (minutes),Is Away,Is Retroactive,Notes\n"@
    } else {
        csv_text(entries.drop_last()) + entry_csv_text(entries.last())
    }
}

/// Every entry's timestamp has a calendar date the export can render.
pub open spec fn all_dates_renderable(entries: Seq<TimeEntry>) -> bool {
    forall|i: int|
        0 <= i < entries.len() ==> -62_167_219_200 <= (#[trigger] entries[i]).timestamp
            <= 253_402_300_799
}

/// Builds one exported row from an entry and its rendered date label.
fn entry_csv_line(e: &TimeEntry, date: &str) -> (r: String)
    requires
        date@ == utc_date_text(e.timestamp as int),
    ensures
        r@ == entry_csv_text(*e),
{
    let time: String = utc_time_label(e.timestamp);
    let duration: String = i32_to_string(e.duration_minutes);
    let mut line: String = date.to_owned();
    line.append(",");
    line.append(time.as_str());
    line.append(",");
    line.append(e.category.as_str());
    line.append(",");
    line.append(duration.as_str());
    line.append(",");
    line.append(if e.is_away {
        "true"
    } else {
        "false"
    });
    line.append(",");
    line.append(if e.is_retroactive {
        "true"
    } else {
        "false"
    });
    line.append(",");
    match &e.notes {
        Some(notes) => {
            let escaped = escape_csv_field(notes.as_str());
            line.append(escaped.as_str());
        },
        None => (),
    }
    line.append("\n");
    proof {
        if e.notes is None {
            assert(escaped_csv_text(notes_text(e.notes)) =~= Seq::<char>::empty());
        }
        assert(line@ =~= entry_csv_text(*e));
    }
    line
}

/// Renders entries as CSV: a header line, then one row per entry in the
/// given order. Fails only when some entry's timestamp has no calendar
/// date; any timestamp from year 0 through year 9999 is accepted.
pub fn export_entries_to_csv(entries: &Vec<TimeEntry>) -> (r: Result<String, String>)
    ensures
        r matches Ok(s) ==> s@ == csv_text(entries@),
        all_dates_renderable(entries@) ==> r is Ok,
        r matches Err(e) ==> e@ == "Invalid timestamp"@,
{
    let mut csv: String = "Date,Time,Category,Duration (minutes),Is Away,Is Retroactive,Notes\n"
        .to_owned();
    proof {
        assert(entries@.subrange(0, 0) =~= Seq::<TimeEntry>::empty());
        assert(csv@ =~= csv_text(entries@.subrange(0, 0)));
    }
    let n: usize = entries.len();
    let mut i: usize = 0;
    while i < n
        invariant
            0 <= i <= n,
            n == entries@.len(),
            csv@ == csv_text(entries@.subrange(0, i as int)),
        decreases n - i,
    {
        let e = &entries[i];
        let date: String = match utc_date_label(e.timestamp) {
            Some(d) => d,
            None => {
                return Err("Invalid timestamp".to_owned());
            },
        };
        let line: String = entry_csv_line(e, date.as_str());
        csv.append(line.as_str());
        proof {
            let pre = entries@.subrange(0, i as int);
            let ext = entries@.subrange(0, i + 1);
            assert(ext.drop_last() =~= pre);
            assert(ext.last() == entries@[i as int]);
            assert(csv@ =~= csv_text(ext));
        }
        i = i + 1;
    }
    proof {
        assert(entries@.subrange(0, n as int) =~= entries@);
    }
    Ok(csv)
}

} // verus!
