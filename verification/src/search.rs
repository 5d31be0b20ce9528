//! Hybrid ranking of the history against a typed query: literal text matches
//! first, then similarity of meaning.

use vstd::prelude::*;
use crate::content::{ClipboardContent, ContentView};
use crate::entry::{history_view, ClipboardEntry, EntryView};
use crate::order::{distinct_positions, ranks_before, sort_by_rank, Scored};
use crate::similarity::{Similarity, SIMILARITY_ONE};
use crate::text::{contains, lowercase, occurs_at, occurs_in, to_lowercase, trim, trimmed};

verus! {

/// What a literal text match adds to a score: two whole units of similarity,
/// more than the similarity of an unscaled entry can make up for. A tunable
/// value, found by trial.
pub const MATCH_BONUS: i64 = 2_000_000;

/// The factor by which the similarity of an image entry is scaled, to make up
/// for the lower similarities between a text query and an image. A tunable
/// value, found by trial.
pub const IMAGE_SCALE: i64 = 10;

/// One line of a search result.
#[derive(Debug, PartialEq)]
pub struct RankedEntry {
    /// Where the entry stands in the history that was searched.
    pub position: usize,
    pub entry: ClipboardEntry,
    /// The similarity to the query as it was counted, before scaling.
    pub similarity: Similarity,
}

/// The value of a [`RankedEntry`].
pub struct RankedView {
    pub position: int,
    pub entry: EntryView,
    pub similarity: Similarity,
}

impl View for RankedEntry {
    type V = RankedView;

    open spec fn view(&self) -> RankedView {
        RankedView {
            position: self.position as int,
            entry: self.entry@,
            similarity: self.similarity,
        }
    }
}

/// The values of a search result, best first.
pub open spec fn ranked_view(ranked: Seq<RankedEntry>) -> Seq<RankedView> {
    ranked.map_values(|r: RankedEntry| r@)
}

/// A query that asks for nothing: it is empty, or empty once trimmed.
pub open spec fn is_blank(query: Seq<char>) -> bool {
    query.len() == 0 || trimmed(query).len() == 0
}

/// The text that a query is matched by: trimmed and in lower case.
pub open spec fn search_text(query: Seq<char>) -> Seq<char> {
    lowercase(trimmed(query))
}

/// The content is text whose lower-case form holds `needle`.
pub open spec fn text_match(content: ContentView, needle: Seq<char>) -> bool {
    content matches ContentView::Text(t) && occurs_in(lowercase(t), needle)
}

/// For each entry of the history, whether it is a text match for `needle`.
pub open spec fn match_flags(history: Seq<EntryView>, needle: Seq<char>) -> Seq<bool> {
    Seq::new(history.len(), |i: int| text_match(history[i].content, needle))
}

/// The entry at position `i` is flagged as a text match. A position beyond
/// the end of the flags is none.
pub open spec fn is_match(matches: Seq<bool>, i: int) -> bool {
    0 <= i < matches.len() && matches[i]
}

/// The similarity that counts for the entry at position `i`: the one that was
/// supplied for it if the entry has an embedding, and zero otherwise.
pub open spec fn counted_similarity(
    entry: EntryView,
    supplied: Seq<Option<Similarity>>,
    i: int,
) -> int {
    if entry.embedding is Some && 0 <= i < supplied.len() && supplied[i] is Some {
        supplied[i]->0.value()
    } else {
        0
    }
}

/// The score of an entry, in millionths.
pub open spec fn score(text_match: bool, is_image: bool, similarity: int) -> int {
    let scaled = if is_image {
        IMAGE_SCALE * similarity
    } else {
        similarity
    };
    if text_match {
        MATCH_BONUS + scaled
    } else {
        scaled
    }
}

/// The score of the entry at position `i`.
pub open spec fn score_at(
    history: Seq<EntryView>,
    matches: Seq<bool>,
    supplied: Seq<Option<Similarity>>,
    i: int,
) -> int {
    score(
        is_match(matches, i),
        history[i].content is Image,
        counted_similarity(history[i], supplied, i),
    )
}

/// The entry at position `i` is listed before the one at `j`: it has the
/// higher score, or the same score and the earlier position.
pub open spec fn outranks(
    history: Seq<EntryView>,
    matches: Seq<bool>,
    supplied: Seq<Option<Similarity>>,
    i: int,
    j: int,
) -> bool {
    let a = score_at(history, matches, supplied, i);
    let b = score_at(history, matches, supplied, j);
    a > b || (a == b && i < j)
}

/// `ranked` has one line for each entry of the history, and each line holds
/// the entry at the position that it names.
pub open spec fn lists_entries(history: Seq<EntryView>, ranked: Seq<RankedView>) -> bool {
    &&& ranked.len() == history.len()
    &&& forall|p: int|
        0 <= p < ranked.len() ==> {
            &&& 0 <= (#[trigger] ranked[p]).position < history.len()
            &&& ranked[p].entry == history[ranked[p].position]
        }
}

/// `ranked` is the history in reverse, the newest entry first, with no
/// similarity shown.
pub open spec fn is_newest_first(history: Seq<EntryView>, ranked: Seq<RankedView>) -> bool {
    &&& lists_entries(history, ranked)
    &&& forall|p: int|
        0 <= p < ranked.len() ==> {
            &&& (#[trigger] ranked[p]).position == history.len() - 1 - p
            &&& ranked[p].similarity.value() == 0
        }
}

/// `ranked` is the history by descending score, entries of equal score in
/// the order of the history, each with the similarity that counted for it.
pub open spec fn is_ranking_by(
    history: Seq<EntryView>,
    matches: Seq<bool>,
    supplied: Seq<Option<Similarity>>,
    ranked: Seq<RankedView>,
) -> bool {
    &&& lists_entries(history, ranked)
    &&& forall|p: int|
        0 <= p < ranked.len() ==> (#[trigger] ranked[p]).similarity.value() == counted_similarity(
            history[ranked[p].position],
            supplied,
            ranked[p].position,
        )
    &&& forall|p: int, q: int|
        0 <= p < q < ranked.len() ==> outranks(
            history,
            matches,
            supplied,
            (#[trigger] ranked[p]).position,
            (#[trigger] ranked[q]).position,
        )
}

/// `ranked` is the search result for `query` over `history`: the history
/// newest first for a blank query, and else the ranking by the text matches
/// for the query and the similarities supplied.
pub open spec fn is_ranking(
    history: Seq<EntryView>,
    query: Seq<char>,
    supplied: Seq<Option<Similarity>>,
    ranked: Seq<RankedView>,
) -> bool {
    if is_blank(query) {
        is_newest_first(history, ranked)
    } else {
        is_ranking_by(history, match_flags(history, search_text(query)), supplied, ranked)
    }
}

/// Tells whether `content` is text whose lower-case form holds `needle`.
pub fn text_matches(content: &ClipboardContent, needle: &str) -> (res: bool)
    ensures
        res == text_match(content@, needle@),
{
    match content {
        ClipboardContent::Text(t) => {
            let folded = to_lowercase(t.as_str());
            contains(folded.as_str(), needle)
        },
        _ => false,
    }
}

/// Flags the entries of the history that are a text match for `needle`.
pub fn find_matches(history: &Vec<ClipboardEntry>, needle: &str) -> (matches: Vec<bool>)
    ensures
        matches@ == match_flags(history_view(history@), needle@),
{
    let mut matches: Vec<bool> = Vec::new();
    let mut i: usize = 0;
    while i < history.len()
        invariant
            i <= history.len(),
            matches.len() == i,
            forall|k: int|
                0 <= k < matches.len() ==> matches[k] == text_match(history[k]@.content, needle@),
        decreases history.len() - i,
    {
        matches.push(text_matches(&history[i].content, needle));
        i = i + 1;
    }
    proof {
        assert(matches@ =~= match_flags(history_view(history@), needle@));
    }
    matches
}

/// Picks the similarity that counts for the entry at position `i`.
pub fn counted(entry: &ClipboardEntry, supplied: &Vec<Option<Similarity>>, i: usize) -> (res:
    Similarity)
    ensures
        res.value() == counted_similarity(entry@, supplied@, i as int),
        res.in_range(),
{
    if entry.embedding.is_some() && i < supplied.len() {
        match supplied[i] {
            Some(s) => {
                let _ = s.millionths();
                s
            },
            None => Similarity::zero(),
        }
    } else {
        Similarity::zero()
    }
}

/// Computes the score of an entry from what was found out about it.
pub fn score_of(text_match: bool, is_image: bool, similarity: Similarity) -> (res: i64)
    ensures
        res == score(text_match, is_image, similarity.value()),
{
    let raw: i64 = similarity.millionths() as i64;
    let scaled: i64 = if is_image {
        IMAGE_SCALE * raw
    } else {
        raw
    };
    if text_match {
        MATCH_BONUS + scaled
    } else {
        scaled
    }
}

/// Lists the history newest first, with no similarity shown.
pub fn newest_first(history: &Vec<ClipboardEntry>) -> (ranked: Vec<RankedEntry>)
    ensures
        is_newest_first(history_view(history@), ranked_view(ranked@)),
{
    let mut ranked: Vec<RankedEntry> = Vec::new();
    let mut i: usize = history.len();
    while i > 0
        invariant
            i <= history.len(),
            ranked.len() == history.len() - i,
            forall|p: int|
                0 <= p < ranked.len() ==> {
                    &&& (#[trigger] ranked[p]).position == history.len() - 1 - p
                    &&& ranked[p].entry@ == history[history.len() - 1 - p]@
                    &&& ranked[p].similarity.value() == 0
                },
        decreases i,
    {
        i = i - 1;
        ranked.push(
            RankedEntry { position: i, entry: history[i].clone(), similarity: Similarity::zero() },
        );
    }
    proof {
        let h = history_view(history@);
        let r = ranked_view(ranked@);
        assert forall|p: int| 0 <= p < r.len() implies {
            &&& 0 <= (#[trigger] r[p]).position < h.len()
            &&& r[p].entry == h[r[p].position]
            &&& r[p].position == h.len() - 1 - p
            &&& r[p].similarity.value() == 0
        } by {
            assert(r[p] == ranked[p]@);
        }
    }
    ranked
}

/// Scores every entry of the history.
fn score_all(
    history: &Vec<ClipboardEntry>,
    matches: &Vec<bool>,
    supplied: &Vec<Option<Similarity>>,
) -> (scored: Vec<Scored>)
    ensures
        scored.len() == history.len(),
        forall|k: int|
            0 <= k < scored.len() ==> {
                &&& (#[trigger] scored[k]).position == k
                &&& scored[k].similarity.value() == counted_similarity(history[k]@, supplied@, k)
                &&& scored[k].score == score_at(history_view(history@), matches@, supplied@, k)
            },
{
    let mut scored: Vec<Scored> = Vec::new();
    let mut i: usize = 0;
    while i < history.len()
        invariant
            i <= history.len(),
            scored.len() == i,
            forall|k: int|
                0 <= k < scored.len() ==> {
                    &&& (#[trigger] scored[k]).position == k
                    &&& scored[k].similarity.value() == counted_similarity(
                        history[k]@,
                        supplied@,
                        k,
                    )
                    &&& scored[k].score == score_at(history_view(history@), matches@, supplied@, k)
                },
        decreases history.len() - i,
    {
        let entry = &history[i];
        let similarity = counted(entry, supplied, i);
        let matched = i < matches.len() && matches[i];
        let is_image = match entry.content {
            ClipboardContent::Image(_) => true,
            _ => false,
        };
        let score: i64 = score_of(matched, is_image, similarity);
        proof {
            assert(history_view(history@)[i as int] == history[i as int]@);
        }
        scored.push(Scored { score, position: i, similarity });
        i = i + 1;
    }
    scored
}

/// Orders the history by score, given for each entry whether it is a text
/// match and what its similarity to the query is.
///
/// `matches[i]` flags the entry at position `i` as a text match, and
/// `supplied[i]` is its similarity to the query, where the caller has one. A
/// position beyond the end of either counts as no match and as `None`.
pub fn rank_matched(
    history: &Vec<ClipboardEntry>,
    matches: &Vec<bool>,
    supplied: &Vec<Option<Similarity>>,
) -> (ranked: Vec<RankedEntry>)
    ensures
        is_ranking_by(history_view(history@), matches@, supplied@, ranked_view(ranked@)),
{
    let scored = score_all(history, matches, supplied);
    proof {
        assert(distinct_positions(scored@));
    }
    let sorted = sort_by_rank(&scored);
    let mut ranked: Vec<RankedEntry> = Vec::new();
    let mut p: usize = 0;
    proof {
        assert forall|k: int| 0 <= k < sorted.len() implies {
            &&& 0 <= (#[trigger] sorted[k]).position < history.len()
            &&& sorted[k] == scored[sorted[k].position as int]
        } by {
            assert(scored@.contains(sorted[k]));
        }
    }
    while p < sorted.len()
        invariant
            p <= sorted.len(),
            sorted.len() == history.len(),
            ranked.len() == p,
            forall|k: int|
                0 <= k < sorted.len() ==> 0 <= (#[trigger] sorted[k]).position < history.len(),
            forall|k: int|
                0 <= k < ranked.len() ==> {
                    &&& (#[trigger] ranked[k]).position == sorted[k].position
                    &&& ranked[k].entry@ == history[sorted[k].position as int]@
                    &&& ranked[k].similarity == sorted[k].similarity
                },
        decreases sorted.len() - p,
    {
        let s = sorted[p];
        ranked.push(
            RankedEntry {
                position: s.position,
                entry: history[s.position].clone(),
                similarity: s.similarity,
            },
        );
        p = p + 1;
    }
    proof {
        let h = history_view(history@);
        let r = ranked_view(ranked@);
        assert forall|k: int| 0 <= k < r.len() implies {
            &&& 0 <= (#[trigger] r[k]).position < h.len()
            &&& r[k].entry == h[r[k].position]
            &&& r[k].similarity.value() == counted_similarity(
                h[r[k].position],
                supplied@,
                r[k].position,
            )
        } by {
            assert(r[k] == ranked[k]@);
            assert(sorted[k] == scored[sorted[k].position as int]);
        }
        assert forall|a: int, b: int| 0 <= a < b < r.len() implies outranks(
            h,
            matches@,
            supplied@,
            (#[trigger] r[a]).position,
            (#[trigger] r[b]).position,
        ) by {
            assert(r[a] == ranked[a]@);
            assert(r[b] == ranked[b]@);
            assert(sorted[a] == scored[sorted[a].position as int]);
            assert(sorted[b] == scored[sorted[b].position as int]);
            assert(ranks_before(sorted[a], sorted[b]));
        }
    }
    ranked
}

/// Orders the history for a query.
///
/// `supplied[i]` is the similarity between the query and the entry at
/// position `i`, where the caller has one; a position beyond the end of
/// `supplied` counts as `None`.
pub fn rank(
    history: &Vec<ClipboardEntry>,
    query: &str,
    supplied: &Vec<Option<Similarity>>,
) -> (ranked: Vec<RankedEntry>)
    ensures
        is_ranking(history_view(history@), query@, supplied@, ranked_view(ranked@)),
{
    let asked = trim(query);
    proof {
        let i = choose|i: int| occurs_at(query@, asked@, i);
        assert(asked@.len() <= query@.len());
    }
    if asked.is_empty() {
        newest_first(history)
    } else {
        let needle = to_lowercase(asked);
        let matches = find_matches(history, needle.as_str());
        rank_matched(history, &matches, supplied)
    }
}

/// The similarities that a caller supplied all lie in range.
pub open spec fn all_in_range(supplied: Seq<Option<Similarity>>) -> bool {
    forall|i: int|
        0 <= i < supplied.len() && supplied[i] is Some ==> (#[trigger] supplied[i])->0.in_range()
}

/// The positions that a search result lists, best first.
pub open spec fn positions(ranked: Seq<RankedView>) -> Seq<int> {
    ranked.map_values(|r: RankedView| r.position)
}

/// A ranking lists no entry twice.
pub proof fn lemma_ranking_lists_no_entry_twice(
    history: Seq<EntryView>,
    matches: Seq<bool>,
    supplied: Seq<Option<Similarity>>,
    ranked: Seq<RankedView>,
)
    requires
        is_ranking_by(history, matches, supplied, ranked),
    ensures
        positions(ranked).no_duplicates(),
{
    let pos = positions(ranked);
    assert forall|p: int, q: int| 0 <= p < pos.len() && 0 <= q < pos.len() && p != q implies pos[p]
        != pos[q] by {
        assert(pos[p] == ranked[p].position && pos[q] == ranked[q].position);
        if p < q {
            assert(outranks(history, matches, supplied, ranked[p].position, ranked[q].position));
        } else {
            assert(outranks(history, matches, supplied, ranked[q].position, ranked[p].position));
        }
    }
}

/// A ranking lists every entry of the history.
pub proof fn lemma_ranking_lists_every_entry(
    history: Seq<EntryView>,
    matches: Seq<bool>,
    supplied: Seq<Option<Similarity>>,
    ranked: Seq<RankedView>,
    i: int,
)
    requires
        is_ranking_by(history, matches, supplied, ranked),
        0 <= i < history.len(),
    ensures
        exists|p: int| 0 <= p < ranked.len() && (#[trigger] ranked[p]).position == i,
{
    let pos = positions(ranked);
    let listed = pos.to_set();
    let all = vstd::set_lib::set_int_range(0, history.len() as int);
    lemma_ranking_lists_no_entry_twice(history, matches, supplied, ranked);
    pos.unique_seq_to_set();
    vstd::set_lib::lemma_int_range(0, history.len() as int);
    assert forall|x: int| listed.contains(x) implies all.contains(x) by {
        let p = choose|p: int| 0 <= p < pos.len() && pos[p] == x;
        assert(pos[p] == ranked[p].position);
    }
    vstd::set_lib::lemma_len_subset(listed, all);
    vstd::set_lib::lemma_subset_equality(listed, all);
    assert(all.contains(i));
    assert(listed.contains(i));
    let p = choose|p: int| 0 <= p < pos.len() && pos[p] == i;
    assert(ranked[p].position == i);
}

/// Two rankings of the same history by the same matches and similarities
/// agree on the positions up to `n`.
proof fn lemma_same_positions(
    history: Seq<EntryView>,
    matches: Seq<bool>,
    supplied: Seq<Option<Similarity>>,
    a: Seq<RankedView>,
    b: Seq<RankedView>,
    n: int,
)
    requires
        is_ranking_by(history, matches, supplied, a),
        is_ranking_by(history, matches, supplied, b),
        0 <= n <= a.len(),
    ensures
        forall|p: int| 0 <= p < n ==> (#[trigger] a[p]).position == b[p].position,
    decreases n,
{
    if n > 0 {
        lemma_same_positions(history, matches, supplied, a, b, n - 1);
        let p = n - 1;
        let i = a[p].position;
        let j = b[p].position;
        if i != j {
            lemma_ranking_lists_every_entry(history, matches, supplied, b, i);
            let q = choose|q: int| 0 <= q < b.len() && (#[trigger] b[q]).position == i;
            if q < p {
                assert(a[q].position == b[q].position);
                assert(outranks(history, matches, supplied, a[q].position, a[p].position));
            }
            assert(outranks(history, matches, supplied, b[p].position, b[q].position));
            lemma_ranking_lists_every_entry(history, matches, supplied, a, j);
            let r = choose|r: int| 0 <= r < a.len() && (#[trigger] a[r]).position == j;
            if r < p {
                assert(a[r].position == b[r].position);
                assert(outranks(history, matches, supplied, b[r].position, b[p].position));
            }
            assert(outranks(history, matches, supplied, a[p].position, a[r].position));
        }
    }
}

/// There is one search result for a query over a history, and no other.
pub proof fn lemma_ranking_is_unique(
    history: Seq<EntryView>,
    query: Seq<char>,
    supplied: Seq<Option<Similarity>>,
    a: Seq<RankedView>,
    b: Seq<RankedView>,
)
    requires
        is_ranking(history, query, supplied, a),
        is_ranking(history, query, supplied, b),
    ensures
        a == b,
{
    if !is_blank(query) {
        let matches = match_flags(history, search_text(query));
        lemma_same_positions(history, matches, supplied, a, b, a.len() as int);
    }
    assert forall|p: int| 0 <= p < a.len() implies a[p] == b[p] by {
        assert(a[p].position == b[p].position);
        assert(a[p].entry == b[p].entry);
        Similarity::lemma_value_is_all(a[p].similarity, b[p].similarity);
    }
    assert(a =~= b);
}

/// For a blank query the result is the history in reverse: the entry that was
/// added last comes first.
pub proof fn lemma_blank_query_lists_newest_first(
    history: Seq<EntryView>,
    query: Seq<char>,
    supplied: Seq<Option<Similarity>>,
    ranked: Seq<RankedView>,
)
    requires
        is_ranking(history, query, supplied, ranked),
        is_blank(query),
    ensures
        ranked.len() == history.len(),
        forall|p: int|
            0 <= p < ranked.len() ==> (#[trigger] ranked[p]).entry == history[history.len() - 1 - p],
{
}

/// For the empty query the result is the history in reverse, whatever
/// similarities are supplied.
pub proof fn lemma_empty_query_lists_newest_first(
    history: Seq<EntryView>,
    supplied: Seq<Option<Similarity>>,
    ranked: Seq<RankedView>,
)
    requires
        is_ranking(history, Seq::empty(), supplied, ranked),
    ensures
        ranked.len() == history.len(),
        forall|p: int|
            0 <= p < ranked.len() ==> {
                &&& (#[trigger] ranked[p]).position == history.len() - 1 - p
                &&& ranked[p].entry == history[history.len() - 1 - p]
            },
{
}

/// A literal match dominates: an entry that is flagged as a text match is
/// listed before a text entry that is not, whatever their similarities.
///
/// The one exception is a tie: where the matching entry has similarity minus
/// one and the other has one, both score the same and the older comes first.
pub proof fn lemma_text_match_outranks_plain_text(
    history: Seq<EntryView>,
    matches: Seq<bool>,
    supplied: Seq<Option<Similarity>>,
    ranked: Seq<RankedView>,
    p: int,
    q: int,
)
    requires
        is_ranking_by(history, matches, supplied, ranked),
        all_in_range(supplied),
        0 <= p < ranked.len(),
        0 <= q < ranked.len(),
        ranked[p].entry.content is Text,
        ranked[q].entry.content is Text,
        is_match(matches, ranked[p].position),
        !is_match(matches, ranked[q].position),
        !(ranked[q].position < ranked[p].position && ranked[p].similarity.value()
            == -SIMILARITY_ONE && ranked[q].similarity.value() == SIMILARITY_ONE),
    ensures
        p < q,
{
    let i = ranked[p].position;
    let j = ranked[q].position;
    let a = counted_similarity(history[i], supplied, i);
    let b = counted_similarity(history[j], supplied, j);
    assert(-SIMILARITY_ONE <= a <= SIMILARITY_ONE);
    assert(-SIMILARITY_ONE <= b <= SIMILARITY_ONE);
    assert(score_at(history, matches, supplied, i) == MATCH_BONUS + a);
    assert(score_at(history, matches, supplied, j) == b);
    if q < p {
        assert(outranks(history, matches, supplied, j, i));
    }
}

/// The scaling of images: of an image entry and a text entry, neither a text
/// match, both with the same similarity `s` above zero, the image scores ten
/// times `s`, the text `s`, and the image is listed first.
pub proof fn lemma_image_outranks_text_of_equal_similarity(
    history: Seq<EntryView>,
    matches: Seq<bool>,
    supplied: Seq<Option<Similarity>>,
    ranked: Seq<RankedView>,
    p: int,
    q: int,
)
    requires
        is_ranking_by(history, matches, supplied, ranked),
        0 <= p < ranked.len(),
        0 <= q < ranked.len(),
        ranked[p].entry.content is Image,
        ranked[q].entry.content is Text,
        !is_match(matches, ranked[p].position),
        !is_match(matches, ranked[q].position),
        ranked[p].similarity.value() == ranked[q].similarity.value(),
        ranked[p].similarity.value() > 0,
    ensures
        score_at(history, matches, supplied, ranked[p].position) == IMAGE_SCALE
            * ranked[p].similarity.value(),
        score_at(history, matches, supplied, ranked[q].position) == ranked[q].similarity.value(),
        p < q,
{
    let i = ranked[p].position;
    let j = ranked[q].position;
    if q < p {
        assert(outranks(history, matches, supplied, j, i));
    }
}

/// An image is never a text match for a query, nor is an empty content.
pub proof fn lemma_only_text_matches(history: Seq<EntryView>, needle: Seq<char>, i: int)
    requires
        0 <= i < history.len(),
        !(history[i].content is Text),
    ensures
        !is_match(match_flags(history, needle), i),
{
}

} // verus!
