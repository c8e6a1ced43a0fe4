use green_vita::catalog::{CatalogCollections, CatalogPreferences, CatalogSection};

#[test]
fn favorites_survive_catalog_reorder_and_temporarily_missing_games() {
    let mut prefs = CatalogPreferences::default();
    prefs.toggle_favorite("b");
    let collections = CatalogCollections::default();
    assert_eq!(collections.indices(&["a", "b"], CatalogSection::Favorites, &prefs), vec![1]);
    assert!(collections.indices(&["a"], CatalogSection::Favorites, &prefs).is_empty());
    assert_eq!(collections.indices(&["b", "a"], CatalogSection::Favorites, &prefs), vec![0]);
    prefs.toggle_favorite("b");
    assert!(prefs.favorites.is_empty());
}

#[test]
fn replay_moves_game_to_front_without_duplicates_and_bounds_history() {
    let mut prefs = CatalogPreferences::default();
    for n in 0..60 {
        prefs.record_played(&n.to_string());
    }
    prefs.record_played("55");
    assert_eq!(prefs.recently_played.len(), 50);
    let copy = CatalogPreferences {
        favorites: prefs.favorites.clone(),
        recently_played: prefs.recently_played.clone(),
    };
    assert_eq!(
        CatalogCollections::default().indices(&["58", "55", "59"], CatalogSection::RecentlyPlayed, &copy),
        vec![1, 2, 0]
    );
}

#[test]
fn added_collection_uses_provider_order_deduplicates_and_filters_unavailable_ids() {
    let mut collections = CatalogCollections::default();
    assert!(!collections.supports(CatalogSection::RecentlyAdded));
    collections.recently_added = Some(vec!["missing".into(), "b".into(), "b".into(), "a".into()]);
    assert!(collections.supports(CatalogSection::RecentlyAdded));
    assert_eq!(
        collections.indices(&["a", "b"], CatalogSection::RecentlyAdded, &CatalogPreferences::default()),
        vec![1, 0]
    );
}

#[test]
fn all_section_lists_every_row_in_catalog_order() {
    let collections = CatalogCollections::new();
    let prefs = CatalogPreferences::new();
    assert_eq!(collections.indices(&["x", "y", "z"], CatalogSection::All, &prefs), vec![0, 1, 2]);
    assert!(collections.supports(CatalogSection::All));
    assert!(collections.indices(&["x"], CatalogSection::RecentlyAdded, &prefs).is_empty());
}

#[test]
fn toggling_twice_restores_favorites_and_keeps_them_distinct() {
    let mut prefs = CatalogPreferences::new();
    prefs.toggle_favorite("a");
    prefs.toggle_favorite("b");
    prefs.toggle_favorite("a");
    assert_eq!(prefs.favorites, vec!["b".to_string()]);
    prefs.toggle_favorite("a");
    assert_eq!(prefs.favorites.len(), 2);
}

#[test]
fn replaying_the_newest_game_keeps_history_unchanged() {
    let mut prefs = CatalogPreferences::new();
    prefs.record_played("a");
    prefs.record_played("b");
    prefs.record_played("b");
    assert_eq!(prefs.recently_played, vec!["b".to_string(), "a".to_string()]);
}

#[test]
fn section_labels_and_order() {
    let all = CatalogSection::all();
    assert_eq!(all[0], CatalogSection::All);
    assert_eq!(all[3], CatalogSection::RecentlyAdded);
    assert_eq!(CatalogSection::Favorites.label_key(), "catalog-favorites");
    assert_eq!(CatalogSection::RecentlyPlayed.label_key(), "catalog-recently-played");
    assert_eq!(CatalogSection::default(), CatalogSection::All);
}
