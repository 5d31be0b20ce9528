use shadowpaste::content::ClipboardContent;
use shadowpaste::entry::{ClipboardEntry, Timestamp};
use shadowpaste::search::{
    counted, find_matches, newest_first, rank, rank_matched, score_of, text_matches, RankedEntry, IMAGE_SCALE,
    MATCH_BONUS,
};
use shadowpaste::similarity::Similarity;

fn sim(millionths: i64) -> Similarity {
    Similarity::from_millionths(millionths)
}

fn text(id: i64, s: &str, embedded: bool) -> ClipboardEntry {
    ClipboardEntry {
        id,
        content: ClipboardContent::Text(s.to_string()),
        copied_at: Timestamp { secs: id, nanos: 0, offset: 0 },
        embedding: if embedded { Some(vec![0x3f80_0000]) } else { None },
    }
}

fn image(id: i64, embedded: bool) -> ClipboardEntry {
    ClipboardEntry {
        id,
        content: ClipboardContent::Image("data:image/png;base64,QUJD".to_string()),
        copied_at: Timestamp { secs: id, nanos: 0, offset: 0 },
        embedding: if embedded { Some(vec![0x3f80_0000]) } else { None },
    }
}

fn positions(ranked: &Vec<RankedEntry>) -> Vec<usize> {
    ranked.iter().map(|r| r.position).collect()
}

fn shown(ranked: &Vec<RankedEntry>) -> Vec<i32> {
    ranked.iter().map(|r| r.similarity.millionths()).collect()
}

#[test]
fn constants_are_two_and_ten() {
    assert_eq!(MATCH_BONUS, 2_000_000);
    assert_eq!(IMAGE_SCALE, 10);
}

#[test]
fn score_is_bonus_plus_scaled_similarity() {
    assert_eq!(score_of(false, false, sim(250_000)), 250_000);
    assert_eq!(score_of(true, false, sim(250_000)), 2_250_000);
    assert_eq!(score_of(false, true, sim(250_000)), 2_500_000);
    assert_eq!(score_of(true, true, sim(250_000)), 4_500_000);
    assert_eq!(score_of(true, false, sim(-1_000_000)), 1_000_000);
    assert_eq!(score_of(false, true, sim(-1_000_000)), -10_000_000);
    assert_eq!(score_of(true, true, sim(1_000_000)), 12_000_000);
    assert_eq!(score_of(false, false, Similarity::zero()), 0);
}

#[test]
fn text_matches_in_lower_case() {
    let hello = ClipboardContent::Text("Hello World".to_string());
    assert!(text_matches(&hello, "hello"));
    assert!(text_matches(&hello, "o w"));
    assert!(text_matches(&hello, ""));
    assert!(!text_matches(&hello, "Hello"));
    assert!(!text_matches(&hello, "world!"));
    assert!(text_matches(&ClipboardContent::Text("GRÜSSE".to_string()), "grü"));
}

#[test]
fn images_and_empty_contents_never_match() {
    assert!(!text_matches(&ClipboardContent::Image("data:image/png;base64,QUJD".to_string()), "data"));
    assert!(!text_matches(&ClipboardContent::Empty, ""));
}

#[test]
fn similarity_counts_only_with_an_embedding_on_both_sides() {
    let supplied = vec![Some(sim(300_000)), None];
    assert_eq!(counted(&text(1, "a", true), &supplied, 0), sim(300_000));
    assert_eq!(counted(&text(1, "a", false), &supplied, 0), Similarity::zero());
    assert_eq!(counted(&text(1, "a", true), &supplied, 1), Similarity::zero());
    assert_eq!(counted(&text(1, "a", true), &supplied, 2), Similarity::zero());
}

#[test]
fn substring_match_ranks_first_whatever_the_similarities() {
    let history = vec![text(1, "hello world", true), text(2, "foo", true)];
    for (a, b) in [(0, 0), (-1_000_000, 1_000_000), (-1_000_000, 999_999), (1_000_000, -1_000_000), (5, 900_000)] {
        let ranked = rank(&history, "hello", &vec![Some(sim(a)), Some(sim(b))]);
        assert_eq!(positions(&ranked), vec![0, 1]);
        assert_eq!(ranked[0].entry, history[0]);
        assert_eq!(ranked[1].entry, history[1]);
    }
    let swapped = vec![text(2, "foo", true), text(1, "hello world", true)];
    let ranked = rank(&swapped, "hello", &vec![Some(sim(900_000)), Some(sim(-900_000))]);
    assert_eq!(positions(&ranked), vec![1, 0]);
}

#[test]
fn substring_match_works_without_any_embedding() {
    let history = vec![text(1, "foo", false), text(2, "Hello World", false), text(3, "bar", false)];
    let ranked = rank(&history, "  HELLO ", &Vec::new());
    assert_eq!(positions(&ranked), vec![1, 0, 2]);
    assert_eq!(shown(&ranked), vec![0, 0, 0]);
}

#[test]
fn empty_query_lists_newest_first() {
    let history = vec![text(1, "a", true), image(2, true), text(3, "c", false)];
    let ranked = rank(&history, "", &vec![Some(sim(900_000)), Some(sim(100_000)), None]);
    assert_eq!(positions(&ranked), vec![2, 1, 0]);
    assert_eq!(shown(&ranked), vec![0, 0, 0]);
    assert_eq!(ranked[0].entry, history[2]);
    assert_eq!(ranked[1].entry, history[1]);
    assert_eq!(ranked[2].entry, history[0]);
}

#[test]
fn blank_query_lists_newest_first() {
    let history = vec![text(1, "a", false), text(2, "b", false)];
    assert_eq!(positions(&rank(&history, " \t\n ", &Vec::new())), vec![1, 0]);
}

#[test]
fn empty_history_gives_an_empty_result() {
    assert!(rank(&Vec::new(), "", &Vec::new()).is_empty());
    assert!(rank(&Vec::new(), "x", &vec![Some(sim(1))]).is_empty());
}

#[test]
fn image_similarity_is_scaled_by_ten() {
    let history = vec![text(1, "foo", true), image(2, true)];
    let ranked = rank(&history, "zzz", &vec![Some(sim(200_000)), Some(sim(200_000))]);
    assert_eq!(positions(&ranked), vec![1, 0]);
    // The similarity that is shown is the one that was counted, unscaled.
    assert_eq!(shown(&ranked), vec![200_000, 200_000]);
}

#[test]
fn scaled_image_can_outrank_a_substring_match() {
    let history = vec![text(1, "hello", true), image(2, true)];
    let ranked = rank(&history, "hello", &vec![Some(sim(100_000)), Some(sim(300_000))]);
    assert_eq!(positions(&ranked), vec![1, 0]);
    let ranked = rank(&history, "hello", &vec![Some(sim(100_000)), Some(sim(200_000))]);
    assert_eq!(positions(&ranked), vec![0, 1]);
}

#[test]
fn negative_similarity_puts_an_image_last() {
    let history = vec![image(1, true), text(2, "foo", true), text(3, "bar", false)];
    let ranked = rank(&history, "q", &vec![Some(sim(-100_000)), Some(sim(-500_000)), Some(sim(900_000))]);
    // Scores: -1_000_000, -500_000, and 0 for the entry without an embedding.
    assert_eq!(positions(&ranked), vec![2, 1, 0]);
    assert_eq!(shown(&ranked), vec![0, -500_000, -100_000]);
}

#[test]
fn equal_scores_keep_the_order_of_the_history() {
    let history = vec![text(1, "a", false), text(2, "b", false), text(3, "c", false), text(4, "d", false)];
    let ranked = rank(&history, "zzz", &Vec::new());
    assert_eq!(positions(&ranked), vec![0, 1, 2, 3]);
}

#[test]
fn entries_are_ordered_by_descending_similarity() {
    let history: Vec<ClipboardEntry> = (0..7).map(|n| text(n, "x", true)).collect();
    let supplied: Vec<Option<Similarity>> =
        [3, -2, 9, 0, 9, -7, 5].iter().map(|m| Some(sim(*m * 100_000))).collect();
    let ranked = rank(&history, "q", &supplied);
    assert_eq!(positions(&ranked), vec![2, 4, 6, 0, 3, 1, 5]);
    assert_eq!(shown(&ranked), vec![900_000, 900_000, 500_000, 300_000, 0, -200_000, -700_000]);
}

#[test]
fn matches_are_flagged_entry_by_entry() {
    let history = vec![text(1, "Hello World", false), image(2, false), text(3, "foo", false), text(4, "oh hello", false)];
    assert_eq!(find_matches(&history, "hello"), vec![true, false, false, true]);
    assert_eq!(find_matches(&history, ""), vec![true, false, true, true]);
    assert_eq!(find_matches(&Vec::new(), "x"), Vec::<bool>::new());
}

#[test]
fn newest_first_reverses_the_history() {
    let history = vec![text(1, "a", true), text(2, "b", true), text(3, "c", true)];
    let ranked = newest_first(&history);
    assert_eq!(positions(&ranked), vec![2, 1, 0]);
    assert_eq!(shown(&ranked), vec![0, 0, 0]);
    assert_eq!(ranked[2].entry, history[0]);
}

#[test]
fn flagged_text_outranks_unflagged_text() {
    let history = vec![text(1, "a", true), text(2, "b", true)];
    let supplied = vec![Some(sim(1_000_000)), Some(sim(-999_999))];
    let ranked = rank_matched(&history, &vec![false, true], &supplied);
    assert_eq!(positions(&ranked), vec![1, 0]);
    assert_eq!(shown(&ranked), vec![-999_999, 1_000_000]);
}

#[test]
fn tie_between_match_and_similarity_keeps_the_older_first() {
    // 2.0 - 1.0 and 1.0 score the same.
    let history = vec![text(1, "a", true), text(2, "b", true)];
    let supplied = vec![Some(sim(1_000_000)), Some(sim(-1_000_000))];
    let ranked = rank_matched(&history, &vec![false, true], &supplied);
    assert_eq!(positions(&ranked), vec![0, 1]);
    let ranked = rank_matched(&history, &vec![true, false], &vec![Some(sim(-1_000_000)), Some(sim(1_000_000))]);
    assert_eq!(positions(&ranked), vec![0, 1]);
}

#[test]
fn missing_flags_and_similarities_count_as_none() {
    let history = vec![text(1, "a", true), text(2, "b", true), text(3, "c", true)];
    let ranked = rank_matched(&history, &vec![false], &vec![Some(sim(-5)), Some(sim(7))]);
    assert_eq!(positions(&ranked), vec![1, 2, 0]);
    assert_eq!(shown(&ranked), vec![7, 0, -5]);
    let ranked = rank_matched(&history, &Vec::new(), &Vec::new());
    assert_eq!(positions(&ranked), vec![0, 1, 2]);
}

#[test]
fn larger_history_is_ordered_by_score() {
    let history: Vec<ClipboardEntry> = (0..100).map(|n| text(n, "x", true)).collect();
    let supplied: Vec<Option<Similarity>> = (0..100).map(|n: i64| Some(sim((n * 37) % 101 - 50))).collect();
    let matches: Vec<bool> = (0..100).map(|n| n % 7 == 0).collect();
    let ranked = rank_matched(&history, &matches, &supplied);
    let mut expected: Vec<(i64, usize)> = (0..100usize)
        .map(|n| (if n % 7 == 0 { MATCH_BONUS } else { 0 } + ((n as i64 * 37) % 101 - 50), n))
        .collect();
    expected.sort_by(|a, b| b.0.cmp(&a.0).then(a.1.cmp(&b.1)));
    let order: Vec<usize> = expected.iter().map(|e| e.1).collect();
    assert_eq!(positions(&ranked), order);
}
