//! The stored form of an entry: one row of the history table.

use vstd::prelude::*;
use crate::content::{ClipboardContent, ContentView};
use crate::entry::{embedding_view, ClipboardEntry, EntryView, Timestamp};
use crate::timestamp::{format_rfc3339, parse_rfc3339, parsed_timestamp, timestamp_text};

verus! {

/// The columns of a row, but for the id that the store assigns.
#[derive(Debug, PartialEq)]
pub struct Row {
    /// `text`, `image` or `empty`.
    pub content_type: String,
    /// The text, the data URI of the image, or nothing.
    pub content: String,
    /// The time of capture as RFC 3339 text.
    pub copied_at: String,
    /// The embedding, four little-endian bytes for each component.
    pub embedding: Option<Vec<u8>>,
}

/// The value of a [`Row`].
pub struct RowView {
    pub content_type: Seq<char>,
    pub content: Seq<char>,
    pub copied_at: Seq<char>,
    pub embedding: Option<Seq<u8>>,
}

impl View for Row {
    type V = RowView;

    open spec fn view(&self) -> RowView {
        RowView {
            content_type: self.content_type@,
            content: self.content@,
            copied_at: self.copied_at@,
            embedding: match self.embedding {
                Some(bytes) => Some(bytes@),
                None => None,
            },
        }
    }
}

/// Byte `n` of a component, counted from the least significant.
pub open spec fn le_byte(word: u32, n: int) -> u8 {
    if n == 0 {
        (word % 256) as u8
    } else if n == 1 {
        (word / 256 % 256) as u8
    } else if n == 2 {
        (word / 65536 % 256) as u8
    } else {
        (word / 16777216 % 256) as u8
    }
}

/// The component that four bytes stand for, the least significant first.
pub open spec fn le_word(b0: u8, b1: u8, b2: u8, b3: u8) -> u32 {
    (b0 + 256 * b1 + 65536 * b2 + 16777216 * b3) as u32
}

/// The bytes of an embedding: four for each component, in order.
pub open spec fn embedding_bytes(embedding: Seq<u32>) -> Seq<u8> {
    Seq::new(4 * embedding.len(), |k: int| le_byte(embedding[k / 4], k % 4))
}

/// The embedding that a byte sequence stands for: one component for each
/// full group of four bytes; up to three bytes left over are dropped.
pub open spec fn bytes_embedding(bytes: Seq<u8>) -> Seq<u32> {
    Seq::new(
        bytes.len() / 4,
        |k: int| le_word(bytes[4 * k], bytes[4 * k + 1], bytes[4 * k + 2], bytes[4 * k + 3]),
    )
}

/// The type tag of a content.
pub open spec fn content_tag(content: ContentView) -> Seq<char> {
    match content {
        ContentView::Text(_) => "text"@,
        ContentView::Image(_) => "image"@,
        ContentView::Empty => "empty"@,
    }
}

/// The payload of a content.
pub open spec fn content_payload(content: ContentView) -> Seq<char> {
    match content {
        ContentView::Text(t) => t,
        ContentView::Image(uri) => uri,
        ContentView::Empty => Seq::empty(),
    }
}

/// The content that a type tag and a payload stand for. An unknown tag gives
/// an empty content.
pub open spec fn tagged_content(tag: Seq<char>, payload: Seq<char>) -> ContentView {
    if tag == "text"@ {
        ContentView::Text(payload)
    } else if tag == "image"@ {
        ContentView::Image(payload)
    } else {
        ContentView::Empty
    }
}

/// The row that stores an entry whose timestamp is written as `stamp`.
pub open spec fn stamped_row(entry: EntryView, stamp: Seq<char>) -> RowView {
    RowView {
        content_type: content_tag(entry.content),
        content: content_payload(entry.content),
        copied_at: stamp,
        embedding: match entry.embedding {
            Some(e) => Some(embedding_bytes(e)),
            None => None,
        },
    }
}

/// The row that an entry is stored as, or `None` where its timestamp cannot
/// be written.
pub open spec fn encoded_row(entry: EntryView) -> Option<RowView> {
    match timestamp_text(entry.copied_at) {
        Some(stamp) => Some(stamped_row(entry, stamp)),
        None => None,
    }
}

/// The entry that a row with the given id stands for, where its timestamp
/// was read as `copied_at`.
pub open spec fn timed_entry(id: i64, row: RowView, copied_at: Timestamp) -> EntryView {
    EntryView {
        id,
        content: tagged_content(row.content_type, row.content),
        copied_at,
        embedding: match row.embedding {
            Some(bytes) => Some(bytes_embedding(bytes)),
            None => None,
        },
    }
}

/// The entry that a row with the given id stands for. Where the timestamp
/// cannot be read, `now` takes its place.
pub open spec fn decoded_entry(id: i64, row: RowView, now: Timestamp) -> EntryView {
    timed_entry(
        id,
        row,
        match parsed_timestamp(row.copied_at) {
            Some(t) => t,
            None => now,
        },
    )
}

/// Writes an embedding as bytes.
pub fn embedding_to_bytes(embedding: &Vec<u32>) -> (bytes: Vec<u8>)
    ensures
        bytes@ == embedding_bytes(embedding@),
{
    let mut bytes: Vec<u8> = Vec::new();
    let mut i: usize = 0;
    while i < embedding.len()
        invariant
            i <= embedding.len(),
            bytes.len() == 4 * i,
            forall|k: int| 0 <= k < bytes.len() ==> bytes[k] == le_byte(embedding[k / 4], k % 4),
        decreases embedding.len() - i,
    {
        let word: u32 = embedding[i];
        bytes.push((word % 256) as u8);
        bytes.push((word / 256 % 256) as u8);
        bytes.push((word / 65536 % 256) as u8);
        bytes.push((word / 16777216 % 256) as u8);
        i = i + 1;
    }
    bytes
}

/// Reads an embedding from bytes.
pub fn bytes_to_embedding(bytes: &Vec<u8>) -> (embedding: Vec<u32>)
    ensures
        embedding@ == bytes_embedding(bytes@),
{
    let mut embedding: Vec<u32> = Vec::new();
    let mut k: usize = 0;
    while bytes.len() - k >= 4
        invariant
            k <= bytes.len(),
            k == 4 * embedding.len(),
            forall|n: int|
                0 <= n < embedding.len() ==> embedding[n] == le_word(
                    bytes[4 * n],
                    bytes[4 * n + 1],
                    bytes[4 * n + 2],
                    bytes[4 * n + 3],
                ),
        decreases bytes.len() - k,
    {
        let b0: u32 = bytes[k] as u32;
        let b1: u32 = bytes[k + 1] as u32;
        let b2: u32 = bytes[k + 2] as u32;
        let b3: u32 = bytes[k + 3] as u32;
        embedding.push(b0 + 256 * b1 + 65536 * b2 + 16777216 * b3);
        k = k + 4;
    }
    embedding
}

/// Tells whether a text is the given tag.
fn is_tag(text: &String, tag: &str) -> (res: bool)
    ensures
        res == (text@ == tag@),
{
    let owned = tag.to_owned();
    *text == owned
}

impl ClipboardEntry {
    /// Makes the row that stores this entry, with `stamp` as the text of its
    /// timestamp.
    pub fn to_row_stamped(&self, stamp: String) -> (row: Row)
        ensures
            row@ == stamped_row(self@, stamp@),
    {
        let (content_type, content) = match &self.content {
            ClipboardContent::Text(t) => ("text".to_owned(), t.clone()),
            ClipboardContent::Image(uri) => ("image".to_owned(), uri.clone()),
            ClipboardContent::Empty => ("empty".to_owned(), String::new()),
        };
        let embedding = match &self.embedding {
            Some(e) => Some(embedding_to_bytes(e)),
            None => None,
        };
        Row { content_type, content, copied_at: stamp, embedding }
    }

    /// Makes the row that stores this entry. The id is not part of it: the
    /// store assigns one.
    ///
    /// Returns `None` exactly where the timestamp is no date and time that
    /// can be written.
    pub fn to_row(&self) -> (res: Option<Row>)
        ensures
            match res {
                Some(row) => encoded_row(self@) == Some(row@),
                None => encoded_row(self@) is None,
            },
    {
        match format_rfc3339(self.copied_at) {
            Some(stamp) => Some(self.to_row_stamped(stamp)),
            None => None,
        }
    }

    /// Makes the entry that a stored row stands for, with `copied_at` as
    /// what its timestamp was read as.
    pub fn from_row_timed(id: i64, row: &Row, copied_at: Timestamp) -> (res: ClipboardEntry)
        ensures
            res@ == timed_entry(id, row@, copied_at),
    {
        let content = if is_tag(&row.content_type, "text") {
            ClipboardContent::Text(row.content.clone())
        } else if is_tag(&row.content_type, "image") {
            ClipboardContent::Image(row.content.clone())
        } else {
            ClipboardContent::Empty
        };
        let embedding = match &row.embedding {
            Some(bytes) => Some(bytes_to_embedding(bytes)),
            None => None,
        };
        ClipboardEntry { id, content, copied_at, embedding }
    }

    /// Makes the entry that a stored row stands for. `now` is the time of
    /// the call: it stands in for a timestamp that cannot be read.
    pub fn from_row(id: i64, row: &Row, now: Timestamp) -> (res: ClipboardEntry)
        ensures
            res@ == decoded_entry(id, row@, now),
    {
        let copied_at = match parse_rfc3339(row.copied_at.as_str()) {
            Some(t) => t,
            None => now,
        };
        ClipboardEntry::from_row_timed(id, row, copied_at)
    }
}

/// Makes the entries that the rows of the table stand for, in the order of
/// the rows. Each row comes with the id that the store gave it.
pub fn entries_from_rows(rows: &Vec<(i64, Row)>, now: Timestamp) -> (entries: Vec<ClipboardEntry>)
    ensures
        entries.len() == rows.len(),
        forall|k: int|
            0 <= k < entries.len() ==> (#[trigger] entries[k])@ == decoded_entry(
                rows[k].0,
                rows[k].1@,
                now,
            ),
{
    let mut entries: Vec<ClipboardEntry> = Vec::new();
    let mut k: usize = 0;
    while k < rows.len()
        invariant
            k <= rows.len(),
            entries.len() == k,
            forall|n: int|
                0 <= n < entries.len() ==> (#[trigger] entries[n])@ == decoded_entry(
                    rows[n].0,
                    rows[n].1@,
                    now,
                ),
        decreases rows.len() - k,
    {
        let entry = ClipboardEntry::from_row(rows[k].0, &rows[k].1, now);
        entries.push(entry);
        k = k + 1;
    }
    entries
}

/// Writing an embedding as bytes and reading it back gives the same
/// components, bit for bit.
pub proof fn lemma_embedding_round_trip(embedding: Seq<u32>)
    ensures
        bytes_embedding(embedding_bytes(embedding)) == embedding,
{
    let bytes = embedding_bytes(embedding);
    let back = bytes_embedding(bytes);
    assert(back.len() == embedding.len());
    assert forall|k: int| 0 <= k < embedding.len() implies back[k] == embedding[k] by {
        let w = embedding[k];
        assert(bytes[4 * k] == le_byte(w, 0));
        assert(bytes[4 * k + 1] == le_byte(w, 1));
        assert(bytes[4 * k + 2] == le_byte(w, 2));
        assert(bytes[4 * k + 3] == le_byte(w, 3));
    }
    assert(back =~= embedding);
}

/// A stored entry comes back as it was, but for the id, wherever its
/// timestamp is read back as it was written.
pub proof fn lemma_stamped_row_round_trip(
    entry: EntryView,
    stamp: Seq<char>,
    id: i64,
)
    ensures
        timed_entry(id, stamped_row(entry, stamp), entry.copied_at) == (EntryView { id, ..entry }),
{
    reveal_strlit("text");
    reveal_strlit("image");
    reveal_strlit("empty");
    assert("text"@ != "image"@) by {
        assert("text"@.len() == 4 && "image"@.len() == 5);
    }
    assert("text"@ != "empty"@) by {
        assert("text"@.len() == 4 && "empty"@.len() == 5);
    }
    assert("image"@ != "empty"@) by {
        assert("image"@[0] == 'i' && "empty"@[0] == 'e');
    }
    match entry.embedding {
        Some(e) => {
            lemma_embedding_round_trip(e);
        },
        None => {},
    }
}

/// A stored entry comes back as it was, but for the id.
///
/// Content and embedding always come back unchanged. The timestamp comes
/// back as whatever its text is read as, and so unchanged where that is the
/// timestamp that was written.
pub proof fn lemma_row_round_trip(entry: EntryView, id: i64, now: Timestamp)
    requires
        encoded_row(entry) is Some,
    ensures
        ({
            let row = encoded_row(entry)->0;
            let back = decoded_entry(id, row, now);
            &&& back.id == id
            &&& back.content == entry.content
            &&& back.embedding == entry.embedding
            &&& parsed_timestamp(row.copied_at) == Some(entry.copied_at) ==> back == (EntryView {
                id,
                ..entry
            })
        }),
{
    let stamp = timestamp_text(entry.copied_at)->0;
    lemma_stamped_row_round_trip(entry, stamp, id);
}

} // verus!
