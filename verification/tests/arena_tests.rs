use arena_alloc::arena::{AllocError, AllocRef, Arena};
use arena_alloc::{PageSizePolicy, DEFAULT_PAGE_CAPACITY_WORDS, HEADER_WORDS};

#[test]
fn zero_fill_payload() {
    let mut ar = Arena::new(16, PageSizePolicy::StaticPageSize);
    let a = ar.allocate(5, 4).unwrap();
    for i in 0..4 {
        assert_eq!(ar.read_payload(a, i), 0);
        assert_eq!(ar.read_word(a.page, a.start + i), 0);
    }
}

#[test]
fn zero_fill_regardless_of_prior_writes() {
    let mut ar = Arena::new(32, PageSizePolicy::StaticPageSize);
    let a1 = ar.allocate(1, 3).unwrap();
    ar.write_payload(a1, 0, 111);
    ar.write_payload(a1, 1, 222);
    ar.write_payload(a1, 2, 333);
    let a2 = ar.allocate(1, 3).unwrap();
    for i in 0..3 {
        assert_eq!(ar.read_payload(a2, i), 0);
    }
    // the earlier payload was not touched by serving the later one
    assert_eq!(ar.read_payload(a1, 0), 111);
    assert_eq!(ar.read_payload(a1, 1), 222);
    assert_eq!(ar.read_payload(a1, 2), 333);
}

#[test]
fn header_words_hold_tag_and_page_identity() {
    let mut ar = Arena::new(16, PageSizePolicy::StaticPageSize);
    let a = ar.allocate(42, 2).unwrap();
    assert_eq!(ar.read_word(a.page, a.start - 1), 42);
    assert_eq!(ar.read_word(a.page, a.start - 2), a.page);
    let b = ar.allocate(7, 1).unwrap();
    assert_eq!(ar.read_word(b.page, b.start - 1), 7);
    assert_eq!(ar.read_word(b.page, b.start - 2), b.page);
}

#[test]
fn payload_regions_do_not_overlap() {
    let mut ar = Arena::new(10, PageSizePolicy::StaticPageSize);
    let mut refs: Vec<AllocRef> = Vec::new();
    for tag in 0..6 {
        refs.push(ar.allocate(tag, 3).unwrap());
    }
    for i in 0..refs.len() {
        for j in 0..refs.len() {
            if i != j {
                let (a, b) = (refs[i], refs[j]);
                let disjoint =
                    a.page != b.page || a.start + a.len <= b.start || b.start + b.len <= a.start;
                assert!(disjoint);
            }
        }
    }
    // observable through writes: each payload keeps its own value
    for (i, a) in refs.iter().enumerate() {
        ar.write_payload(*a, 0, 100 + i);
    }
    for (i, a) in refs.iter().enumerate() {
        assert_eq!(ar.read_payload(*a, 0), 100 + i);
    }
}

#[test]
fn capacity_is_respected() {
    let mut ar = Arena::new(10, PageSizePolicy::StaticPageSize);
    for tag in 0..20 {
        let a = ar.allocate(tag, 3).unwrap();
        assert!(a.start + a.len <= ar.page_capacity());
        assert!(a.start >= HEADER_WORDS);
        assert!(ar.curr_page_words_used() <= ar.page_capacity());
    }
}

#[test]
fn rollover_on_full_page() {
    // capacity 10, header 2: each allocation of 3 payload words takes 5
    // words, so the third one must come from a freshly acquired page.
    let mut ar = Arena::new(10, PageSizePolicy::StaticPageSize);
    let a1 = ar.allocate(1, 3).unwrap();
    let a2 = ar.allocate(1, 3).unwrap();
    assert_eq!(ar.curr_page_words_used(), 10);
    assert_eq!(ar.page_count(), 1);
    let a3 = ar.allocate(1, 3).unwrap();
    assert_eq!(ar.page_count(), 2);
    assert_eq!(a1.page, 0);
    assert_eq!(a2.page, 0);
    assert_eq!(a3.page, 1);
    // the page back-reference header word of the third allocation differs
    // from the first two allocations' back-reference
    let back1 = ar.read_word(a1.page, a1.start - 2);
    let back2 = ar.read_word(a2.page, a2.start - 2);
    let back3 = ar.read_word(a3.page, a3.start - 2);
    assert_eq!(back1, back2);
    assert_ne!(back3, back1);
}

#[test]
fn oversized_payload_is_rejected_before_any_write() {
    let mut ar = Arena::new(10, PageSizePolicy::StaticPageSize);
    let a1 = ar.allocate(3, 2).unwrap();
    ar.write_payload(a1, 0, 55);
    let pages_before = ar.page_count();
    let used_before = ar.curr_page_words_used();
    // payload_words > PAGE_CAPACITY_WORDS - HEADER_WORDS
    let r = ar.allocate(1, 9);
    assert_eq!(r, Err(AllocError::PayloadTooLarge));
    assert_eq!(ar.page_count(), pages_before);
    assert_eq!(ar.curr_page_words_used(), used_before);
    assert_eq!(ar.read_payload(a1, 0), 55);
    // the largest payload that fits is still served
    assert!(ar.allocate(1, 8).is_ok());
}

#[test]
fn oversized_payload_is_rejected_under_tracking() {
    // one word of each page is reserved for the capacity stamp
    let mut ar = Arena::new(10, PageSizePolicy::TrackedPageSize);
    assert_eq!(ar.max_payload_words(), 7);
    assert_eq!(ar.allocate(1, 8), Err(AllocError::PayloadTooLarge));
    assert!(ar.allocate(1, 7).is_ok());
}

#[test]
fn wipe_resets_to_one_fresh_page() {
    let mut ar = Arena::new(10, PageSizePolicy::StaticPageSize);
    let first = ar.allocate(9, 3).unwrap();
    for tag in 0..7 {
        ar.allocate(tag, 3).unwrap();
    }
    assert!(ar.page_count() > 1);
    ar.wipe();
    assert_eq!(ar.page_count(), 1);
    assert_eq!(ar.curr_page_words_used(), 0);
    // the next allocation behaves exactly like the first one after
    // construction
    let again = ar.allocate(9, 3).unwrap();
    assert_eq!(again, first);
}

#[test]
fn round_trip_after_wipe() {
    let mut ar = Arena::new(64, PageSizePolicy::StaticPageSize);
    let mut batch1: Vec<AllocRef> = Vec::new();
    for tag in 0..8 {
        batch1.push(ar.allocate(tag, 4).unwrap());
    }
    ar.wipe();
    let mut batch2: Vec<AllocRef> = Vec::new();
    for tag in 0..8 {
        batch2.push(ar.allocate(tag, 4).unwrap());
    }
    assert_eq!(batch1, batch2);
    // every second-batch reference lies within a live page of the wiped
    // arena
    for a in &batch2 {
        assert!(a.page < ar.page_count());
        assert!(a.start + a.len <= ar.page_capacity());
        assert_eq!(ar.read_word(a.page, a.start - 2), a.page);
    }
}

#[test]
fn tracked_pages_are_stamped_with_their_capacity() {
    let mut ar = Arena::new(12, PageSizePolicy::TrackedPageSize);
    assert_eq!(ar.read_word(0, 0), 12);
    assert_eq!(ar.curr_page_words_used(), 1);
    let a = ar.allocate(5, 2).unwrap();
    assert_eq!(a.page, 0);
    assert_eq!(a.start, 3);
    // force a rollover; the fresh page is stamped too
    ar.allocate(5, 7).unwrap();
    assert_eq!(ar.page_count(), 2);
    assert_eq!(ar.read_word(1, 0), 12);
    // the stamp survives a wipe: the fresh page is stamped again
    ar.wipe();
    assert_eq!(ar.page_count(), 1);
    assert_eq!(ar.curr_page_words_used(), 1);
    assert_eq!(ar.read_word(0, 0), 12);
}

#[test]
fn zero_length_payloads_advance_by_header_only() {
    let mut ar = Arena::new(10, PageSizePolicy::StaticPageSize);
    let a1 = ar.allocate(1, 0).unwrap();
    let a2 = ar.allocate(1, 0).unwrap();
    assert_eq!(a1, AllocRef { page: 0, start: 2, len: 0 });
    assert_eq!(a2, AllocRef { page: 0, start: 4, len: 0 });
    assert_eq!(ar.curr_page_words_used(), 4);
}

#[test]
fn default_arena_configuration() {
    let mut ar = Arena::new_default();
    assert_eq!(ar.page_capacity(), DEFAULT_PAGE_CAPACITY_WORDS);
    assert_eq!(ar.size_policy(), PageSizePolicy::StaticPageSize);
    assert_eq!(ar.page_count(), 1);
    assert_eq!(ar.curr_page_words_used(), 0);
    assert_eq!(ar.max_payload_words(), DEFAULT_PAGE_CAPACITY_WORDS - HEADER_WORDS);
    let a = ar.allocate(3, 1024).unwrap();
    assert_eq!(a.page, 0);
    assert_eq!(a.start, 2);
    assert_eq!(ar.read_word(a.page, a.start - 1), 3);
}

#[test]
fn write_and_read_payload_round_trip() {
    let mut ar = Arena::new(16, PageSizePolicy::StaticPageSize);
    let a = ar.allocate(2, 5).unwrap();
    for i in 0..5 {
        ar.write_payload(a, i, i * 10);
    }
    for i in 0..5 {
        assert_eq!(ar.read_payload(a, i), i * 10);
    }
    // headers are untouched by payload writes
    assert_eq!(ar.read_word(a.page, a.start - 1), 2);
    assert_eq!(ar.read_word(a.page, a.start - 2), a.page);
}

#[test]
fn fragmentation_at_page_end_is_accepted() {
    // a request near the page boundary rolls over and the skipped words of
    // the old page stay unused
    let mut ar = Arena::new(10, PageSizePolicy::StaticPageSize);
    ar.allocate(1, 2).unwrap();
    assert_eq!(ar.curr_page_words_used(), 4);
    let a = ar.allocate(1, 5).unwrap();
    assert_eq!(a.page, 1);
    assert_eq!(a.start, 2);
    assert_eq!(ar.page_count(), 2);
}
