use lexisoup::suggestions::{center, filter_suggestions, suggestions_from_rows, SqlSuggestion};

fn sug(text: &str, distance: i32, denotation_count: i32) -> SqlSuggestion {
    SqlSuggestion { text: text.to_string(), distance, denotation_count }
}

#[test]
fn suggestions_include_expected_words() {
    // Rows as the spelling index ranks them for "rnnning".
    let rows = vec![
        ("running".to_string(), 75, 500),
        ("run".to_string(), 350, 300),
        ("ran".to_string(), 400, 300),
    ];
    let got = suggestions_from_rows(rows);
    assert!(got.iter().any(|w| w.text == "running"), "{got:?}");
}

#[test]
fn empty_list_stays_empty() {
    assert!(filter_suggestions(vec![]).is_empty());
}

#[test]
fn best_match_first_then_popular_ones() {
    let input = vec![
        sug("best", 10, 40),
        sug("rare", 20, 1),
        sug("common", 30, 100),
        sug("medium", 40, 50),
        sug("far", 150, 1000),
        sug("tie", 50, 50),
    ];
    // counts sorted: 1 40 50 50 100 1000 -> middle (index 3) is 50; 5% of 40 is 2.
    let got = filter_suggestions(input);
    assert_eq!(
        got,
        vec![sug("best", 10, 40), sug("common", 30, 100), sug("medium", 40, 50), sug("tie", 50, 50)]
    );
}

#[test]
fn distant_best_match_is_dropped() {
    let got = filter_suggestions(vec![sug("zzz", 101, 10), sug("a", 100, 10), sug("b", 5, 20)]);
    // middle count of 10 10 20 is 10; 5% of 10 is 0.
    assert_eq!(got, vec![sug("b", 5, 20), sug("a", 100, 10)]);
}

#[test]
fn five_percent_threshold_rounds_toward_zero() {
    // counts sorted: 0 0 49 50 1000 -> middle is 49; 5% of 1000 is 50.
    let got = filter_suggestions(vec![
        sug("top", 0, 1000),
        sug("x", 0, 49),
        sug("y", 0, 50),
        sug("z", 0, 0),
        sug("w", 0, 0),
    ]);
    assert_eq!(got, vec![sug("top", 0, 1000), sug("y", 0, 50)]);
    // 5% of 39 is 1 (not 2); middle of 0 1 39 is 1.
    let got = filter_suggestions(vec![sug("r", 0, 39), sug("s", 0, 1), sug("t", 0, 0)]);
    assert_eq!(got, vec![sug("r", 0, 39), sug("s", 0, 1)]);
    // 5% of -39 is -1.
    let got = filter_suggestions(vec![sug("n", 0, -39), sug("m", 0, -1), sug("k", 0, -2)]);
    assert_eq!(got, vec![sug("n", 0, -39), sug("m", 0, -1)]);
}

#[test]
fn single_suggestion_is_kept_if_close() {
    assert_eq!(filter_suggestions(vec![sug("only", 100, 0)]), vec![sug("only", 100, 0)]);
    assert!(filter_suggestions(vec![sug("only", 101, 0)]).is_empty());
}

#[test]
fn center_is_middle_element() {
    assert_eq!(center(&[]), None);
    assert_eq!(center(&[7]), Some(7));
    assert_eq!(center(&[1, 2]), Some(2));
    assert_eq!(center(&[1, 2, 3]), Some(2));
    assert_eq!(center(&[1, 2, 3, 4]), Some(3));
}

#[test]
fn already_ordered_matches_keep_their_order() {
    let input = vec![sug("best", 0, 10), sug("a", 1, 90), sug("b", 2, 90), sug("c", 3, 80), sug("d", 4, 70)];
    // counts sorted: 10 70 80 90 90 -> middle is 80; 5% of 10 is 0.
    assert_eq!(
        filter_suggestions(input),
        vec![sug("best", 0, 10), sug("a", 1, 90), sug("b", 2, 90), sug("c", 3, 80)]
    );
}
