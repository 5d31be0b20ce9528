//! One item of the clipboard history.

use vstd::prelude::*;
use crate::content::{ClipboardContent, ContentView};

verus! {

/// A moment in time as plain numbers: an instant on the UTC time line and the
/// offset of the local clock that recorded it.
#[derive(Clone, Copy, Debug, PartialEq, Eq, Structural)]
pub struct Timestamp {
    /// Whole non-leap seconds since 1970-01-01T00:00:00Z.
    pub secs: i64,
    /// Nanoseconds since the last whole second; a leap second is written as a
    /// value of 1,000,000,000 or more.
    pub nanos: u32,
    /// Seconds that local time is ahead of UTC.
    pub offset: i32,
}

/// One captured clipboard item.
///
/// The embedding holds each component of the vector as the bit pattern of an
/// IEEE 754 single-precision number, so that storing and loading keep it
/// bit for bit.
#[derive(Debug, PartialEq)]
pub struct ClipboardEntry {
    /// The id that storage assigned; `0` while the entry has not been stored.
    pub id: i64,
    pub content: ClipboardContent,
    /// When the content was captured.
    pub copied_at: Timestamp,
    pub embedding: Option<Vec<u32>>,
}

/// The value of a [`ClipboardEntry`].
pub struct EntryView {
    pub id: i64,
    pub content: ContentView,
    pub copied_at: Timestamp,
    pub embedding: Option<Seq<u32>>,
}

/// The value of an optional embedding.
pub open spec fn embedding_view(embedding: Option<Vec<u32>>) -> Option<Seq<u32>> {
    match embedding {
        Some(v) => Some(v@),
        None => None,
    }
}

impl View for ClipboardEntry {
    type V = EntryView;

    open spec fn view(&self) -> EntryView {
        EntryView {
            id: self.id,
            content: self.content@,
            copied_at: self.copied_at,
            embedding: embedding_view(self.embedding),
        }
    }
}

/// The values of a history, oldest first.
pub open spec fn history_view(history: Seq<ClipboardEntry>) -> Seq<EntryView> {
    history.map_values(|e: ClipboardEntry| e@)
}

impl Clone for ClipboardEntry {
    fn clone(&self) -> (res: Self)
        ensures
            res@ == self@,
    {
        let embedding = match &self.embedding {
            Some(v) => Some(v.clone()),
            None => None,
        };
        ClipboardEntry {
            id: self.id,
            content: self.content.clone(),
            copied_at: self.copied_at,
            embedding,
        }
    }
}

} // verus!
