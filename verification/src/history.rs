//! Local transcript history (no cloud): which entries are recorded and kept.
//! The file and its JSON lines are handled by the program around the library.
use crate::text::{string_of, trim, trimmed};
use vstd::prelude::*;

verus! {

/// Entries kept in the history file.
pub const MAX_ENTRIES: usize = 500;

/// One recorded transcript: seconds since the epoch, the text, the profile.
pub struct HistoryEntry {
    pub ts: u64,
    pub text: String,
    pub profile: String,
}

/// The entry recorded for finalized text: the trimmed text, unless history
/// is off or the text is blank.
pub fn history_entry(text: &str, profile: &str, enabled: bool, ts: u64) -> (r: Option<HistoryEntry>)
    ensures
        match r {
            None => trim(text@).len() == 0 || !enabled,
            Some(e) => trim(text@).len() > 0 && enabled && e.ts == ts && e.text@ == trim(text@)
                && e.profile@ == profile@,
        },
{
    let t = trimmed(text);
    if t.len() == 0 || !enabled {
        return None;
    }
    Some(HistoryEntry { ts, text: string_of(&t), profile: String::from_str(profile) })
}

/// The last `n` items, or all of them when there are no more than `n`.
pub fn keep_last<T>(items: Vec<T>, n: usize) -> (r: Vec<T>)
    ensures
        r@ == (if items@.len() <= n {
            items@
        } else {
            items@.subrange(items@.len() - n, items@.len() as int)
        }),
{
    let mut items = items;
    if items.len() <= n {
        return items;
    }
    let at = items.len() - n;
    items.split_off(at)
}

/// The lines of the history file after an append: `None` while there are no
/// more than `MAX_ENTRIES`, else the last `MAX_ENTRIES`.
pub fn trimmed_history(lines: Vec<String>) -> (r: Option<Vec<String>>)
    ensures
        match r {
            None => lines@.len() <= MAX_ENTRIES,
            Some(kept) => lines@.len() > MAX_ENTRIES && kept@ == lines@.subrange(
                lines@.len() - MAX_ENTRIES,
                lines@.len() as int,
            ),
        },
{
    if lines.len() <= MAX_ENTRIES {
        return None;
    }
    Some(keep_last(lines, MAX_ENTRIES))
}

/// The entries listed: the last `limit`, or all of them when `limit` is 0.
pub fn last_entries(entries: Vec<HistoryEntry>, limit: usize) -> (r: Vec<HistoryEntry>)
    ensures
        r@ == (if limit > 0 && entries@.len() > limit {
            entries@.subrange(entries@.len() - limit, entries@.len() as int)
        } else {
            entries@
        }),
{
    if limit == 0 {
        return entries;
    }
    keep_last(entries, limit)
}

} // verus!
