use soundome::server::utils::response::{
    is_desc, normalize_search, resolve_offset, resolve_page, resolve_page_size, DEFAULT_PAGE_SIZE,
    MAX_PAGE_SIZE,
};

#[test]
fn pages_start_at_one() {
    assert_eq!(resolve_page(None), 1);
    assert_eq!(resolve_page(Some(0)), 1);
    assert_eq!(resolve_page(Some(-4)), 1);
    assert_eq!(resolve_page(Some(7)), 7);
}

#[test]
fn page_sizes_are_clamped() {
    assert_eq!(resolve_page_size(None), DEFAULT_PAGE_SIZE);
    assert_eq!(resolve_page_size(Some(0)), 1);
    assert_eq!(resolve_page_size(Some(25)), 25);
    assert_eq!(resolve_page_size(Some(501)), MAX_PAGE_SIZE);
    assert_eq!(MAX_PAGE_SIZE, 500);
}

#[test]
fn consecutive_pages_are_contiguous() {
    let size = resolve_page_size(Some(30));
    assert_eq!(resolve_offset(resolve_page(Some(1)), size), 0);
    assert_eq!(resolve_offset(2, size), 30);
    assert_eq!(resolve_offset(3, size) - resolve_offset(2, size), size);
}

#[test]
fn sort_direction_and_search_text() {
    assert!(is_desc(&Some("desc".to_string())));
    assert!(!is_desc(&Some("DESC".to_string())));
    assert!(!is_desc(&Some("asc".to_string())));
    assert!(!is_desc(&None));
    assert_eq!(normalize_search(&Some("  jazz ".to_string())), Some("jazz".to_string()));
    assert_eq!(normalize_search(&Some("   ".to_string())), None);
    assert_eq!(normalize_search(&None), None);
}

#[test]
fn search_normalization_is_idempotent_on_unicode_whitespace() {
    let q = Some("\u{3000}\t abba \u{a0}\n".to_string());
    let once = normalize_search(&q);
    assert_eq!(once, Some("abba".to_string()));
    assert_eq!(normalize_search(&once), once);
    assert_eq!(normalize_search(&Some("\u{2003}\u{85}".to_string())), None);
    assert_eq!(normalize_search(&Some(" a b ".to_string())), Some("a b".to_string()));
}
