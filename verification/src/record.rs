//! What the native index reports of one thread, as plain values.

use crate::text::{all_valid, are_all_valid, decode};
use vstd::prelude::*;
use vstd::utf8::valid_utf8;

verus! {

/// One message of a thread: the address of its native object and its date in
/// seconds since the epoch.
#[derive(Clone, Copy, Debug, PartialEq, Eq, Structural)]
pub struct MessageEntry {
    pub handle: usize,
    pub date: i64,
}

/// The report of one thread. Text is held as the bytes that the index gives.
/// `messages` holds every message of the thread, `toplevel` those without a
/// parent in the reply tree, both in the order in which the index lists them.
/// `authors` is the list of authors as the index joins it, with a comma
/// between each two.
#[derive(Debug)]
pub struct ThreadRecord {
    pub id: Vec<u8>,
    pub subject: Vec<u8>,
    pub authors: Vec<u8>,
    pub total_messages: i32,
    pub total_files: i32,
    pub oldest_date: i64,
    pub newest_date: i64,
    pub messages: Vec<MessageEntry>,
    pub toplevel: Vec<MessageEntry>,
    pub tags: Vec<Vec<u8>>,
}

/// A report as contracts see it.
pub ghost struct RecordView {
    pub id: Seq<u8>,
    pub subject: Seq<u8>,
    pub authors: Seq<u8>,
    pub total_messages: int,
    pub total_files: int,
    pub oldest_date: int,
    pub newest_date: int,
    pub messages: Seq<MessageEntry>,
    pub toplevel: Seq<MessageEntry>,
    pub tags: Seq<Seq<u8>>,
}

/// No message is dated before the one listed just before it.
pub open spec fn oldest_first(messages: Seq<MessageEntry>) -> bool {
    forall|i: int| 0 < i < messages.len() ==> messages[i - 1].date <= #[trigger] messages[i].date
}

/// Every entry of `part` is an entry of `whole`.
pub open spec fn contained_in(part: Seq<MessageEntry>, whole: Seq<MessageEntry>) -> bool {
    forall|i: int| 0 <= i < part.len() ==> whole.contains(#[trigger] part[i])
}

impl RecordView {
    /// What the index promises of every report: its text is valid UTF-8, the
    /// messages come oldest first, the count is that of the messages listed,
    /// and the top-level messages are among them.
    pub open spec fn consistent(self) -> bool {
        &&& valid_utf8(self.id)
        &&& valid_utf8(self.subject)
        &&& valid_utf8(self.authors)
        &&& all_valid(self.tags)
        &&& oldest_first(self.messages)
        &&& self.total_messages == self.messages.len()
        &&& contained_in(self.toplevel, self.messages)
    }
}

impl View for ThreadRecord {
    type V = RecordView;

    open spec fn view(&self) -> RecordView {
        RecordView {
            id: self.id@,
            subject: self.subject@,
            authors: self.authors@,
            total_messages: self.total_messages as int,
            total_files: self.total_files as int,
            oldest_date: self.oldest_date as int,
            newest_date: self.newest_date as int,
            messages: self.messages@,
            toplevel: self.toplevel@,
            tags: self.tags.deep_view(),
        }
    }
}

/// In a list that comes oldest first, an earlier place means an earlier or
/// equal date, however far apart the two places are.
pub proof fn lemma_oldest_first_pairs(messages: Seq<MessageEntry>, i: int, j: int)
    requires
        oldest_first(messages),
        0 <= i <= j < messages.len(),
    ensures
        messages[i].date <= messages[j].date,
    decreases j - i,
{
    if i < j {
        lemma_oldest_first_pairs(messages, i, j - 1);
    }
}

/// Whether the list comes oldest first.
pub fn is_oldest_first(messages: &Vec<MessageEntry>) -> (ok: bool)
    ensures
        ok == oldest_first(messages@),
{
    let n = messages.len();
    let mut i: usize = 1;
    while i < n
        invariant
            n == messages@.len(),
            1 <= i,
            forall|k: int| 0 < k < i && k < n ==> messages@[k - 1].date <= #[trigger] messages@[k].date,
        decreases n - i,
    {
        if messages[i - 1].date > messages[i].date {
            return false;
        }
        i += 1;
    }
    true
}

/// Whether `entry` is one of `whole`.
pub fn holds_entry(whole: &Vec<MessageEntry>, entry: MessageEntry) -> (found: bool)
    ensures
        found == whole@.contains(entry),
{
    let n = whole.len();
    let mut i: usize = 0;
    while i < n
        invariant
            n == whole@.len(),
            i <= n,
            forall|k: int| 0 <= k < i ==> whole@[k] != entry,
        decreases n - i,
    {
        if whole[i] == entry {
            return true;
        }
        i += 1;
    }
    false
}

/// Whether every entry of `part` is one of `whole`.
pub fn is_contained_in(part: &Vec<MessageEntry>, whole: &Vec<MessageEntry>) -> (ok: bool)
    ensures
        ok == contained_in(part@, whole@),
{
    let n = part.len();
    let mut i: usize = 0;
    while i < n
        invariant
            n == part@.len(),
            i <= n,
            forall|k: int| 0 <= k < i ==> whole@.contains(#[trigger] part@[k]),
        decreases n - i,
    {
        if !holds_entry(whole, part[i]) {
            return false;
        }
        i += 1;
    }
    true
}

impl ThreadRecord {
    /// Whether the report keeps what the index promises. A thread is made
    /// only from a report that does.
    pub fn is_consistent(&self) -> (ok: bool)
        ensures
            ok == self@.consistent(),
    {
        let count = self.messages.len();
        decode(self.id.as_slice()).is_some() && decode(self.subject.as_slice()).is_some() && decode(
            self.authors.as_slice(),
        ).is_some() && are_all_valid(&self.tags) && self.total_messages >= 0
            && self.total_messages as usize == count && is_oldest_first(&self.messages)
            && is_contained_in(&self.toplevel, &self.messages)
    }
}

} // verus!
