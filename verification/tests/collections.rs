use green_vita::collections::{
    gallery_games, gallery_products, GalleryEntry, GalleryError, HistoryError, HistoryPager, HistoryStep, RecentPage, RecentTitle,
};

fn page(ids: &[&str], token: Option<&str>) -> RecentPage {
    RecentPage {
        results: ids.iter().map(|id| RecentTitle { title_id: id.to_string() }).collect(),
        continuation_token: token.map(|t| t.to_string()),
    }
}

fn product(id: &str) -> GalleryEntry {
    GalleryEntry { id: Some(id.to_string()), sigl: false }
}

#[test]
fn history_keeps_server_order_and_continuation() {
    let mut pager = HistoryPager::new();
    match pager.receive(page(&["z", "a"], Some("next+/="))) {
        HistoryStep::Fetch(token) => assert_eq!(token, "next+/="),
        _ => panic!("a continuation token asks for the next page"),
    }
    match pager.receive(page(&[], None)) {
        HistoryStep::Done(order) => assert_eq!(order, ["z", "a"]),
        _ => panic!("a page without a token ends the history"),
    }
    match HistoryPager::new().receive(page(&[], None)) {
        HistoryStep::Done(order) => assert!(order.is_empty()),
        _ => panic!("an empty history is complete"),
    }
}

#[test]
fn empty_continuation_token_ends_the_history() {
    let mut pager = HistoryPager::new();
    match pager.receive(page(&["b"], Some(""))) {
        HistoryStep::Done(order) => assert_eq!(order, ["b"]),
        _ => panic!("an empty token is no continuation"),
    }
}

#[test]
fn repeated_continuation_token_fails() {
    let mut pager = HistoryPager::new();
    assert!(matches!(pager.receive(page(&["a"], Some("t1"))), HistoryStep::Fetch(_)));
    assert!(matches!(pager.receive(page(&["b"], Some("t2"))), HistoryStep::Fetch(_)));
    assert!(matches!(pager.receive(page(&["c"], Some("t1"))), HistoryStep::Failed(HistoryError::RepeatedToken)));
}

#[test]
fn history_longer_than_twenty_pages_fails() {
    let mut pager = HistoryPager::new();
    for k in 0..19 {
        let token = format!("t{k}");
        assert!(matches!(pager.receive(page(&["x"], Some(token.as_str()))), HistoryStep::Fetch(_)));
    }
    assert!(matches!(pager.receive(page(&["x"], Some("t19"))), HistoryStep::Failed(HistoryError::PageLimit)));
}

#[test]
fn twentieth_page_may_still_end_the_history() {
    let mut pager = HistoryPager::new();
    for k in 0..19 {
        let token = format!("t{k}");
        assert!(matches!(pager.receive(page(&["x"], Some(token.as_str()))), HistoryStep::Fetch(_)));
    }
    match pager.receive(page(&["y"], None)) {
        HistoryStep::Done(order) => {
            assert_eq!(order.len(), 20);
            assert_eq!(order[19], "y");
        },
        _ => panic!("the last allowed page ends the history"),
    }
}

#[test]
fn gallery_order_is_not_release_date_or_alphabetical_order() {
    let feed = vec![GalleryEntry { id: None, sigl: true }, product("Z"), product("A")];
    assert_eq!(gallery_products(&feed).unwrap(), ["Z", "A"]);
    let unknown = vec![GalleryEntry { id: None, sigl: false }];
    assert_eq!(gallery_products(&unknown).err(), Some(GalleryError::InvalidEntry));
}

#[test]
fn empty_product_id_is_refused() {
    let feed = vec![product("A"), product("")];
    assert_eq!(gallery_products(&feed).err(), Some(GalleryError::EmptyProductId));
    assert!(gallery_products(&vec![]).unwrap().is_empty());
}

#[test]
fn gallery_products_map_to_catalog_ids_in_gallery_order() {
    let games = vec![
        ("halo".to_string(), Some("P-HALO".to_string())),
        ("forza".to_string(), Some("P-FORZA".to_string())),
        ("no-product".to_string(), None),
        ("forza-2".to_string(), Some("P-FORZA".to_string())),
    ];
    let products = vec!["P-FORZA".to_string(), "P-MISSING".to_string(), "P-HALO".to_string()];
    assert_eq!(gallery_games(&products, &games), ["forza-2", "halo"]);
    assert!(gallery_games(&vec![], &games).is_empty());
}
