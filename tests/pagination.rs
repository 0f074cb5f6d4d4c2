use ballot_core::pagination::{normalize_pagination, total_pages, PaginationQuery};

#[test]
fn defaults_to_first_page_of_twenty() {
    let q = PaginationQuery { page: None, per_page: None };
    assert_eq!(normalize_pagination(&q, 100), (1, 20, 0));
}

#[test]
fn clamps_page_and_size() {
    let q = PaginationQuery { page: Some(0), per_page: Some(500) };
    assert_eq!(normalize_pagination(&q, 100), (1, 100, 0));
    let q = PaginationQuery { page: Some(3), per_page: Some(0) };
    assert_eq!(normalize_pagination(&q, 100), (3, 1, 2));
    let q = PaginationQuery { page: Some(4), per_page: Some(25) };
    assert_eq!(normalize_pagination(&q, 100), (4, 25, 75));
}

#[test]
fn counts_pages() {
    assert_eq!(total_pages(0, 20), 0);
    assert_eq!(total_pages(-5, 20), 0);
    assert_eq!(total_pages(1, 20), 1);
    assert_eq!(total_pages(20, 20), 1);
    assert_eq!(total_pages(21, 20), 2);
}
