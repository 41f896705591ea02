//! The page store: acquisition, tracking and release of fixed-capacity
//! backing pages.
//!
//! The store owns an ordered collection of live pages (insertion order is
//! acquisition order) and the bump offset within the most recently acquired
//! page — the only page that is ever written into. Each page is an owned
//! buffer of machine words; releasing a page returns its buffer to the
//! memory provider when it is dropped.

use vstd::prelude::*;

use crate::PageSizePolicy;

verus! {

/// Manages fixed-capacity pages of machine words on behalf of the arena.
pub struct PageStore {
    pages: Vec<Vec<usize>>,
    words_used: usize,
    capacity_words: usize,
    policy: PageSizePolicy,
}

impl PageStore {
    /// The contents of every live page, in acquisition order.
    pub closed spec fn pages(self) -> Seq<Seq<usize>> {
        self.pages@.map_values(|p: Vec<usize>| p@)
    }

    /// The bump offset: how many words of the most recently acquired page
    /// are already used.
    pub closed spec fn words_used(self) -> int {
        self.words_used as int
    }

    /// The fixed capacity, in words, of every page this store acquires.
    pub closed spec fn capacity(self) -> int {
        self.capacity_words as int
    }

    /// The size-tracking policy this store was constructed with.
    pub closed spec fn policy(self) -> PageSizePolicy {
        self.policy
    }

    pub open spec fn tracks_size(self) -> bool {
        self.policy() == PageSizePolicy::TrackedPageSize
    }

    /// Words at the start of each page reserved for bookkeeping.
    pub open spec fn base_offset(self) -> int {
        self.policy().spec_base_offset()
    }

    pub open spec fn num_pages(self) -> int {
        self.pages().len() as int
    }

    /// Every live page has exactly the configured capacity, and under the
    /// size-tracking policy its first word is stamped with that capacity.
    pub open spec fn pages_wf(self) -> bool {
        &&& self.capacity() >= self.base_offset()
        &&& forall|p: int|
            0 <= p < self.num_pages() ==> (#[trigger] self.pages()[p]).len() == self.capacity()
        &&& self.tracks_size() ==> forall|p: int|
            0 <= p < self.num_pages() ==> (#[trigger] self.pages()[p])[0] == self.capacity()
    }

    /// The bump offset never leaves the current page.
    pub open spec fn offset_wf(self) -> bool {
        self.base_offset() <= self.words_used() <= self.capacity()
    }

    /// A well-formed store: well-formed pages, a bump offset within bounds,
    /// and at least one live page to bump into.
    pub open spec fn wf(self) -> bool {
        &&& self.pages_wf()
        &&& self.offset_wf()
        &&& self.num_pages() >= 1
    }

    /// The configured capacity is a count of machine words, so it fits a
    /// machine word itself.
    pub proof fn lemma_capacity_fits_usize(self)
        ensures
            self.capacity() <= usize::MAX,
    {
    }

    /// Creates a store and eagerly acquires its first page.
    pub fn new(capacity_words: usize, policy: PageSizePolicy) -> (s: PageStore)
        requires
            capacity_words >= policy.spec_base_offset(),
        ensures
            s.wf(),
            s.capacity() == capacity_words,
            s.policy() == policy,
            s.num_pages() == 1,
            s.words_used() == s.base_offset(),
    {
        let mut s = PageStore { pages: Vec::new(), words_used: 0, capacity_words, policy };
        proof {
            assert(s.pages() =~= Seq::<Seq<usize>>::empty());
        }
        s.acquire_page();
        s
    }

    /// Requests one fresh capacity-sized page from the memory provider,
    /// stamps its first word with the capacity under the size-tracking
    /// policy, records it at the back of the live-page collection, and
    /// resets the bump offset to the base offset.
    pub fn acquire_page(&mut self)
        requires
            old(self).pages_wf(),
        ensures
            final(self).wf(),
            final(self).capacity() == old(self).capacity(),
            final(self).policy() == old(self).policy(),
            final(self).num_pages() == old(self).num_pages() + 1,
            final(self).words_used() == final(self).base_offset(),
            forall|p: int|
                0 <= p < old(self).num_pages() ==> final(self).pages()[p] == old(self).pages()[p],
            final(self).pages()[old(self).num_pages()].len() == final(self).capacity(),
    {
        let mut page: Vec<usize> = vec![0usize; self.capacity_words];
        let base: usize;
        match self.policy {
            PageSizePolicy::TrackedPageSize => {
                page[0] = self.capacity_words;
                base = 1;
            },
            PageSizePolicy::StaticPageSize => {
                base = 0;
            },
        }
        let ghost page_view = page@;
        self.pages.push(page);
        self.words_used = base;
        proof {
            assert(self.pages() =~= old(self).pages().push(page_view));
        }
    }

    /// Releases every live page's buffer back to the provider (each owned
    /// buffer is dropped here) and clears the live-page collection. The
    /// caller must acquire a fresh page next, before any further use.
    pub fn release_all(&mut self)
        requires
            old(self).wf(),
        ensures
            final(self).pages_wf(),
            final(self).offset_wf(),
            final(self).num_pages() == 0,
            final(self).capacity() == old(self).capacity(),
            final(self).policy() == old(self).policy(),
    {
        self.pages.clear();
        proof {
            assert(self.pages() =~= Seq::<Seq<usize>>::empty());
        }
    }

    /// Writes one word into a live page. The reserved bookkeeping word of
    /// the size-tracking policy is never overwritten.
    pub fn write_at(&mut self, page: usize, idx: usize, value: usize)
        requires
            old(self).wf(),
            page < old(self).num_pages(),
            old(self).base_offset() <= idx < old(self).capacity(),
        ensures
            final(self).wf(),
            final(self).pages() == old(self).pages().update(
                page as int,
                old(self).pages()[page as int].update(idx as int, value),
            ),
            final(self).words_used() == old(self).words_used(),
            final(self).capacity() == old(self).capacity(),
            final(self).policy() == old(self).policy(),
            final(self).num_pages() == old(self).num_pages(),
    {
        proof {
            assert(self.pages()[page as int] == self.pages@[page as int]@);
            assert(self.pages()[page as int].len() == self.capacity());
        }
        let p = &mut self.pages[page];
        p[idx] = value;
        proof {
            assert(final(self).pages() =~= old(self).pages().update(
                page as int,
                old(self).pages()[page as int].update(idx as int, value),
            ));
        }
    }

    /// Reads one word of a live page.
    pub fn read_word(&self, page: usize, idx: usize) -> (w: usize)
        requires
            self.wf(),
            page < self.num_pages(),
            idx < self.capacity(),
        ensures
            w == self.pages()[page as int][idx as int],
    {
        proof {
            assert(self.pages()[page as int] == self.pages@[page as int]@);
            assert(self.pages()[page as int].len() == self.capacity());
        }
        let p = &self.pages[page];
        p[idx]
    }

    /// Advances the bump offset by `delta` words.
    pub fn advance(&mut self, delta: usize)
        requires
            old(self).wf(),
            old(self).words_used() + delta <= old(self).capacity(),
        ensures
            final(self).wf(),
            final(self).words_used() == old(self).words_used() + delta,
            final(self).pages() == old(self).pages(),
            final(self).capacity() == old(self).capacity(),
            final(self).policy() == old(self).policy(),
    {
        self.words_used = self.words_used + delta;
    }

    /// How many pages are currently live.
    pub fn page_count(&self) -> (n: usize)
        ensures
            n == self.num_pages(),
    {
        self.pages.len()
    }

    /// The index of the most recently acquired page — the only page that is
    /// ever written into.
    pub fn current_page_index(&self) -> (n: usize)
        requires
            self.num_pages() >= 1,
        ensures
            n == self.num_pages() - 1,
    {
        self.pages.len() - 1
    }

    /// The bump offset within the current page.
    pub fn curr_page_words_used(&self) -> (n: usize)
        ensures
            n == self.words_used(),
    {
        self.words_used
    }

    /// The configured page capacity, in words.
    pub fn page_capacity(&self) -> (n: usize)
        ensures
            n == self.capacity(),
    {
        self.capacity_words
    }

    /// The size-tracking policy this store was constructed with.
    pub fn size_policy(&self) -> (p: PageSizePolicy)
        ensures
            p == self.policy(),
    {
        self.policy
    }
}

} // verus!
