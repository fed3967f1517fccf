use model::LoadError;
use model::loader::Loader;

fn s(x: &str) -> String {
    x.to_string()
}

#[test]
fn batch_coalescing_one_round_trip() {
    // N concurrent loads for N distinct keys in one wave: one batch carries
    // them all, and the next dispatch has nothing to do.
    let mut l: Loader<String> = Loader::new();
    l.request(&s("k1"));
    l.request(&s("k2"));
    l.request(&s("k3"));
    let batch = l.take_batch();
    assert_eq!(batch, vec![s("k1"), s("k2"), s("k3")]);
    let second = l.take_batch();
    assert!(second.is_empty());
}

#[test]
fn pending_key_requested_twice_is_queued_once() {
    let mut l: Loader<String> = Loader::new();
    l.request(&s("k"));
    l.request(&s("k"));
    let batch = l.take_batch();
    assert_eq!(batch, vec![s("k")]);
}

#[test]
fn cache_coherence_no_second_round_trip() {
    let mut l: Loader<String> = Loader::new();
    l.request(&s("k"));
    let batch = l.take_batch();
    l.complete(&batch, vec![(s("k"), Ok(s("value")))]);
    // the same key again: resolved from the cache, nothing pending
    l.request(&s("k"));
    assert!(l.take_batch().is_empty());
    let first = l.get(&s("k")).unwrap().clone();
    let second = l.get(&s("k")).unwrap().clone();
    assert_eq!(first, Ok(s("value")));
    assert_eq!(first, second);
}

#[test]
fn order_preservation_in_get_many() {
    let mut l: Loader<String> = Loader::new();
    l.request(&s("k3"));
    l.request(&s("k1"));
    l.request(&s("k2"));
    let batch = l.take_batch();
    // the resolver's internal output order differs from the request order
    l.complete(
        &batch,
        vec![
            (s("k2"), Ok(s("v2"))),
            (s("k3"), Ok(s("v3"))),
            (s("k1"), Ok(s("v1"))),
        ],
    );
    let out = l.get_many(&vec![s("k3"), s("k1"), s("k2")]);
    assert_eq!(out, vec![Ok(s("v3")), Ok(s("v1")), Ok(s("v2"))]);
}

#[test]
fn duplicates_allowed_in_get_many() {
    let mut l: Loader<String> = Loader::new();
    l.request(&s("a"));
    let batch = l.take_batch();
    l.complete(&batch, vec![(s("a"), Ok(s("va")))]);
    let out = l.get_many(&vec![s("a"), s("a"), s("a")]);
    assert_eq!(out, vec![Ok(s("va")), Ok(s("va")), Ok(s("va"))]);
}

#[test]
fn negative_result_synthesis() {
    // a key absent from the resolver's mapping resolves to NotFound
    let mut l: Loader<String> = Loader::new();
    l.request(&s("present"));
    l.request(&s("absent"));
    let batch = l.take_batch();
    l.complete(&batch, vec![(s("present"), Ok(s("v")))]);
    assert_eq!(l.get(&s("present")), Some(&Ok(s("v"))));
    assert_eq!(l.get(&s("absent")), Some(&Err(LoadError::NotFound)));
}

#[test]
fn first_mapping_entry_wins() {
    let mut l: Loader<String> = Loader::new();
    l.request(&s("k"));
    let batch = l.take_batch();
    l.complete(&batch, vec![(s("k"), Ok(s("first"))), (s("k"), Ok(s("second")))]);
    assert_eq!(l.get(&s("k")), Some(&Ok(s("first"))));
}

#[test]
fn extra_mapping_entries_are_ignored() {
    let mut l: Loader<String> = Loader::new();
    l.request(&s("asked"));
    let batch = l.take_batch();
    l.complete(
        &batch,
        vec![(s("asked"), Ok(s("v"))), (s("unasked"), Ok(s("w")))],
    );
    assert_eq!(l.get(&s("asked")), Some(&Ok(s("v"))));
    assert_eq!(l.get(&s("unasked")), None);
}

#[test]
fn failed_round_trip_fails_whole_batch() {
    let mut l: Loader<String> = Loader::new();
    l.request(&s("a"));
    l.request(&s("b"));
    let batch = l.take_batch();
    l.fail_batch(&batch);
    assert_eq!(l.get(&s("a")), Some(&Err(LoadError::StoreUnavailable)));
    assert_eq!(l.get(&s("b")), Some(&Err(LoadError::StoreUnavailable)));
}

#[test]
fn cached_entry_is_never_overwritten() {
    let mut l: Loader<String> = Loader::new();
    l.request(&s("k"));
    let b1 = l.take_batch();
    l.complete(&b1, vec![(s("k"), Ok(s("original")))]);
    // a later wave for other keys cannot touch the resolved entry
    l.request(&s("k"));
    l.request(&s("other"));
    let b2 = l.take_batch();
    assert_eq!(b2, vec![s("other")]);
    l.complete(&b2, vec![(s("other"), Ok(s("w")))]);
    assert_eq!(l.get(&s("k")), Some(&Ok(s("original"))));
}

#[test]
fn unresolved_key_reads_as_absent() {
    let l: Loader<String> = Loader::new();
    assert_eq!(l.get(&s("nothing")), None);
}
