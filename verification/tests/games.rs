use green_vita::games::{extract_games, TitleEntry};

fn entry(slug: Option<&str>, product: Option<&str>, entitled: bool, programs: &[&str], subscriptions: &[&str]) -> TitleEntry {
    TitleEntry {
        slug: slug.map(|s| s.to_string()),
        product_id: product.map(|s| s.to_string()),
        has_entitlement: entitled,
        programs: programs.iter().map(|s| s.to_string()).collect(),
        user_subscriptions: subscriptions.iter().map(|s| s.to_string()).collect(),
    }
}

#[test]
fn playable_games_are_sorted_by_id_and_deduplicated() {
    let entries = vec![
        entry(Some("zeta"), Some("P-Z"), true, &[], &[]),
        entry(Some("alpha"), Some("P-A1"), true, &[], &[]),
        entry(Some("alpha"), Some("P-A2"), true, &[], &[]),
        entry(Some("mid"), None, false, &["GPU"], &["GPU", "EA"]),
    ];
    let games = extract_games(&entries);
    let ids: Vec<&str> = games.iter().map(|g| g.id.as_str()).collect();
    assert_eq!(ids, ["alpha", "mid", "zeta"]);
    assert_eq!(games[0].metadata_id.as_deref(), Some("P-A1"));
    assert_eq!(games[0].launch_id, "alpha");
    assert_eq!(games[1].metadata_id, None);
    assert_eq!(games[2].metadata_id.as_deref(), Some("P-Z"));
}

#[test]
fn unplayable_and_unnamed_titles_are_left_out() {
    let entries = vec![
        entry(Some("locked"), None, false, &["GPU"], &["EA"]),
        entry(None, Some("P-X"), true, &[], &[]),
        entry(Some("nothing"), None, false, &[], &["GPU"]),
    ];
    assert!(extract_games(&entries).is_empty());
    assert!(extract_games(&vec![]).is_empty());
}

#[test]
fn ids_compare_by_code_point_not_by_letter_case() {
    let entries = vec![
        entry(Some("b"), None, true, &[], &[]),
        entry(Some("B"), None, true, &[], &[]),
        entry(Some("ab"), None, true, &[], &[]),
        entry(Some("a"), None, true, &[], &[]),
        entry(Some("é"), None, true, &[], &[]),
    ];
    let ids: Vec<String> = extract_games(&entries).into_iter().map(|g| g.id).collect();
    assert_eq!(ids, ["B", "a", "ab", "b", "é"]);
}

#[test]
fn unplayable_duplicate_does_not_hide_a_later_playable_one() {
    let entries = vec![
        entry(Some("game"), Some("first"), false, &[], &[]),
        entry(Some("game"), Some("second"), true, &[], &[]),
    ];
    let games = extract_games(&entries);
    assert_eq!(games.len(), 1);
    assert_eq!(games[0].metadata_id.as_deref(), Some("second"));
}
