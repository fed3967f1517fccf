use model::LoadError;
use model::loader::Loader;
use model::pager::build_page;
use model::pager::effective_limit;
use model::pager::page_of_loaded;
use model::pager::window_keys;

fn s(x: &str) -> String {
    x.to_string()
}

fn candidates() -> Vec<String> {
    vec![s("a"), s("b"), s("c"), s("d"), s("e")]
}

#[test]
fn pagination_first_page() {
    let w = window_keys(&candidates(), &s(""), 2);
    assert_eq!(w, vec![s("a"), s("b")]);
    let p = build_page(5, w, vec![0u8, 1u8], 2);
    assert_eq!(p.page_info.end_cursor, s("b"));
    assert!(p.page_info.has_next_page);
    assert_eq!(p.total_count, 5);
}

#[test]
fn pagination_resumes_after_cursor() {
    let w = window_keys(&candidates(), &s("b"), 2);
    assert_eq!(w, vec![s("c"), s("d")]);
}

#[test]
fn pagination_last_page_short_window() {
    let w = window_keys(&candidates(), &s("d"), 2);
    assert_eq!(w, vec![s("e")]);
    let p = build_page(5, w, vec![9u8], 2);
    assert!(!p.page_info.has_next_page);
    assert_eq!(p.page_info.end_cursor, s("e"));
}

#[test]
fn absent_nonempty_cursor_gives_empty_page() {
    let w = window_keys(&candidates(), &s("zz"), 2);
    assert!(w.is_empty());
    let p = build_page(5, w, Vec::<u8>::new(), 2);
    assert!(!p.page_info.has_next_page);
    assert_eq!(p.page_info.end_cursor, s(""));
    assert_eq!(p.total_count, 5);
}

#[test]
fn empty_cursor_starts_from_the_beginning() {
    let w = window_keys(&candidates(), &s(""), 10);
    assert_eq!(w, candidates());
}

#[test]
fn cursor_at_last_candidate_gives_empty_window() {
    let w = window_keys(&candidates(), &s("e"), 2);
    assert!(w.is_empty());
}

#[test]
fn duplicate_candidate_resumes_after_first_occurrence() {
    let c = vec![s("a"), s("b"), s("a"), s("c")];
    let w = window_keys(&c, &s("a"), 5);
    assert_eq!(w, vec![s("b"), s("a"), s("c")]);
}

#[test]
fn default_limits() {
    assert_eq!(effective_limit(None, 25), 25);
    assert_eq!(effective_limit(None, 50), 50);
    assert_eq!(effective_limit(Some(3), 25), 3);
    assert_eq!(effective_limit(Some(0), 25), 0);
    assert_eq!(effective_limit(Some(-7), 25), 0);
}

#[test]
fn edges_carry_nodes_and_cursors_in_order() {
    let p = build_page(3, vec![s("x"), s("y")], vec![10u8, 20u8], 5);
    assert_eq!(p.edges.len(), 2);
    assert_eq!(p.edges[0].node, 10);
    assert_eq!(p.edges[0].cursor, s("x"));
    assert_eq!(p.edges[1].node, 20);
    assert_eq!(p.edges[1].cursor, s("y"));
    assert!(!p.page_info.has_next_page);
}

#[test]
fn page_of_loaded_reads_window_from_cache() {
    let mut l: Loader<String> = Loader::new();
    l.request(&s("a"));
    l.request(&s("b"));
    let batch = l.take_batch();
    l.complete(&batch, vec![(s("b"), Ok(s("vb")))]);
    let p = page_of_loaded(2, vec![s("a"), s("b")], &l, 2);
    assert_eq!(p.edges.len(), 2);
    assert_eq!(p.edges[0].node, Err(LoadError::NotFound));
    assert_eq!(p.edges[0].cursor, s("a"));
    assert_eq!(p.edges[1].node, Ok(s("vb")));
    assert_eq!(p.edges[1].cursor, s("b"));
    assert!(p.page_info.has_next_page);
    assert_eq!(p.page_info.end_cursor, s("b"));
}
