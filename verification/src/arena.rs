//! The arena allocator: bump-pointer placement of header-prefixed,
//! zero-filled payloads on top of the page store, and whole-arena wipe.
//!
//! Every allocation is two header words (the owning page's identity and a
//! caller-supplied type tag) followed by the payload, placed at the bump
//! offset of the current page. A request that does not fit the current page
//! is served from a freshly acquired page; an allocation is never split
//! across pages. The arena keeps a ghost record of every allocation served
//! since the last wipe, and its well-formedness ties those records to the
//! page contents: headers are intact and regions are pairwise disjoint.

use vstd::prelude::*;

use crate::page_store::PageStore;
use crate::HEADER_WORDS;
use crate::PageSizePolicy;

verus! {

/// Addresses one allocation served by the arena: the payload occupies words
/// `[start, start + len)` of page `page`, and the two header words stand
/// immediately before it, at `start - 2` and `start - 1`.
#[derive(Clone, Copy, Debug, PartialEq, Eq, Structural)]
pub struct AllocRef {
    pub page: usize,
    pub start: usize,
    pub len: usize,
}

/// One allocation as the arena's ghost history remembers it: where its
/// payload lies and which type tag its header carries.
pub struct AllocInfo {
    pub page: usize,
    pub start: usize,
    pub len: usize,
    pub tag: usize,
}

/// Why an allocation request is rejected.
#[derive(Clone, Copy, Debug, PartialEq, Eq, Structural)]
pub enum AllocError {
    /// The requested payload cannot fit even a freshly emptied page, so no
    /// page could ever serve it.
    PayloadTooLarge,
}

/// A bump-pointer arena: single allocation entry point, no per-object free,
/// whole-arena reclamation through [`Arena::wipe`].
pub struct Arena {
    store: PageStore,
    allocs: Ghost<Seq<AllocInfo>>,
}

impl Arena {
    /// The contents of every live page, in acquisition order.
    pub closed spec fn pages(self) -> Seq<Seq<usize>> {
        self.store.pages()
    }

    /// The bump offset: words already used in the current page.
    pub closed spec fn words_used(self) -> int {
        self.store.words_used()
    }

    /// The fixed page capacity, in words.
    pub closed spec fn capacity(self) -> int {
        self.store.capacity()
    }

    /// The size-tracking policy the arena was constructed with.
    pub closed spec fn policy(self) -> PageSizePolicy {
        self.store.policy()
    }

    /// Every allocation served since the last wipe, oldest first.
    pub closed spec fn allocs(self) -> Seq<AllocInfo> {
        self.allocs@
    }

    /// Well-formedness of the underlying page store.
    pub closed spec fn store_wf(self) -> bool {
        self.store.wf()
    }

    /// Words at the start of each page reserved for bookkeeping.
    pub open spec fn base_offset(self) -> int {
        self.policy().spec_base_offset()
    }

    pub open spec fn num_pages(self) -> int {
        self.pages().len() as int
    }

    /// The largest payload a single allocation can ask for: what is left of
    /// a freshly emptied page once the header and the reserved bookkeeping
    /// words are taken out.
    pub open spec fn max_payload(self) -> int {
        self.capacity() - HEADER_WORDS - self.base_offset()
    }

    /// A recorded allocation's header-plus-payload region lies inside one
    /// live page, beyond the reserved bookkeeping words.
    pub open spec fn rec_in_bounds(self, a: AllocInfo) -> bool {
        &&& a.page < self.num_pages()
        &&& self.base_offset() + HEADER_WORDS <= a.start
        &&& a.start + a.len <= self.capacity()
    }

    /// A recorded allocation's header words are intact: the word two
    /// positions before the payload holds the owning page's identity, the
    /// word immediately before it holds the caller's type tag.
    pub open spec fn header_ok(self, a: AllocInfo) -> bool {
        &&& self.pages()[a.page as int][a.start - HEADER_WORDS] == a.page
        &&& self.pages()[a.page as int][a.start - 1] == a.tag
    }

    /// Two allocations' header-plus-payload regions do not overlap.
    pub open spec fn regions_disjoint(a: AllocInfo, b: AllocInfo) -> bool {
        ||| a.page != b.page
        ||| a.start + a.len <= b.start - HEADER_WORDS
        ||| b.start + b.len <= a.start - HEADER_WORDS
    }

    /// A well-formed arena: a well-formed store whose capacity can hold at
    /// least a header, and a ghost history whose records lie in bounds, have
    /// intact headers, end before the bump offset on the current page, and
    /// are pairwise disjoint.
    pub open spec fn wf(self) -> bool {
        &&& self.store_wf()
        &&& self.num_pages() >= 1
        &&& self.capacity() >= HEADER_WORDS + self.base_offset()
        &&& self.base_offset() <= self.words_used() <= self.capacity()
        &&& forall|p: int|
            0 <= p < self.num_pages() ==> (#[trigger] self.pages()[p]).len() == self.capacity()
        &&& forall|k: int|
            0 <= k < self.allocs().len() ==> self.rec_in_bounds(#[trigger] self.allocs()[k])
        &&& forall|k: int|
            0 <= k < self.allocs().len() ==> self.header_ok(#[trigger] self.allocs()[k])
        &&& forall|k: int|
            0 <= k < self.allocs().len() && (#[trigger] self.allocs()[k]).page == self.num_pages()
                - 1 ==> self.allocs()[k].start + self.allocs()[k].len <= self.words_used()
        &&& forall|k1: int, k2: int|
            0 <= k1 < self.allocs().len() && 0 <= k2 < self.allocs().len() && k1 != k2
                ==> Self::regions_disjoint(
                #[trigger] self.allocs()[k1],
                #[trigger] self.allocs()[k2],
            )
    }

    /// Whether a request for `payload_words` fits the current page at the
    /// current bump offset.
    pub open spec fn spec_fits(self, payload_words: int) -> bool {
        self.words_used() + HEADER_WORDS + payload_words <= self.capacity()
    }

    /// The page the next allocation of `payload_words` is served from.
    pub open spec fn spec_alloc_page(self, payload_words: int) -> int {
        if self.spec_fits(payload_words) {
            self.num_pages() - 1
        } else {
            self.num_pages()
        }
    }

    /// The payload offset of the next allocation of `payload_words`.
    pub open spec fn spec_alloc_start(self, payload_words: int) -> int {
        if self.spec_fits(payload_words) {
            self.words_used() + HEADER_WORDS
        } else {
            self.base_offset() + HEADER_WORDS
        }
    }

    /// Everything a served allocation guarantees: where it lies, the header
    /// words, the zero-filled payload, the new bump offset and history, and
    /// that no word outside the new allocation's region was touched.
    pub open spec fn alloc_success(
        pre: Arena,
        post: Arena,
        type_tag: usize,
        payload_words: usize,
        a: AllocRef,
    ) -> bool {
        &&& a.page == pre.spec_alloc_page(payload_words as int)
        &&& a.start == pre.spec_alloc_start(payload_words as int)
        &&& a.len == payload_words
        &&& post.capacity() == pre.capacity()
        &&& post.policy() == pre.policy()
        &&& post.num_pages() == (if pre.spec_fits(payload_words as int) {
            pre.num_pages()
        } else {
            pre.num_pages() + 1
        })
        &&& post.words_used() == a.start + a.len
        &&& post.allocs() == pre.allocs().push(
            AllocInfo { page: a.page, start: a.start, len: a.len, tag: type_tag },
        )
        &&& post.pages()[a.page as int][a.start - HEADER_WORDS] == a.page
        &&& post.pages()[a.page as int][a.start - 1] == type_tag
        &&& forall|i: int|
            a.start <= i < a.start + a.len ==> #[trigger] post.pages()[a.page as int][i] == 0
        &&& forall|p: int|
            0 <= p < pre.num_pages() && p != a.page ==> #[trigger] post.pages()[p]
                == pre.pages()[p]
        &&& pre.spec_fits(payload_words as int) ==> forall|i: int|
            0 <= i < pre.capacity() && !(a.start - HEADER_WORDS <= i < a.start + a.len)
                ==> #[trigger] post.pages()[a.page as int][i] == pre.pages()[a.page as int][i]
    }

    /// Creates an arena and eagerly acquires its first page. The capacity
    /// must leave room for at least one header beyond the reserved
    /// bookkeeping words.
    pub fn new(page_capacity: usize, policy: PageSizePolicy) -> (a: Arena)
        requires
            page_capacity >= HEADER_WORDS + policy.spec_base_offset(),
        ensures
            a.wf(),
            a.capacity() == page_capacity,
            a.policy() == policy,
            a.num_pages() == 1,
            a.words_used() == a.base_offset(),
            a.allocs() == Seq::<AllocInfo>::empty(),
    {
        Arena { store: PageStore::new(page_capacity, policy), allocs: Ghost(Seq::empty()) }
    }

    /// Creates an arena with the default page capacity and the static page
    /// size policy.
    pub fn new_default() -> (a: Arena)
        ensures
            a.wf(),
            a.capacity() == crate::DEFAULT_PAGE_CAPACITY_WORDS,
            a.policy() == PageSizePolicy::StaticPageSize,
            a.num_pages() == 1,
            a.words_used() == 0,
            a.allocs() == Seq::<AllocInfo>::empty(),
    {
        Arena::new(crate::DEFAULT_PAGE_CAPACITY_WORDS, PageSizePolicy::StaticPageSize)
    }

    /// Serves one allocation: writes the two header words at the bump offset
    /// of the current page, zero-fills the `payload_words` words behind
    /// them, advances the offset past the whole region, and returns where
    /// the payload lies. A request that does not fit the current page is
    /// served from a freshly acquired page; an allocation is never split
    /// across pages, and the words skipped at the end of the old page stay
    /// unused. A payload that cannot fit even a freshly emptied page is
    /// rejected before anything is written.
    pub fn allocate(&mut self, type_tag: usize, payload_words: usize) -> (r: Result<
        AllocRef,
        AllocError,
    >)
        requires
            old(self).wf(),
        ensures
            final(self).wf(),
            payload_words > old(self).max_payload() ==> r == Err::<AllocRef, AllocError>(
                AllocError::PayloadTooLarge,
            ) && *final(self) == *old(self),
            payload_words <= old(self).max_payload() ==> (r matches Ok(a)
                && Self::alloc_success(*old(self), *final(self), type_tag, payload_words, a)),
    {
        let base = self.store.size_policy().base_offset();
        let cap = self.store.page_capacity();
        if payload_words > cap - HEADER_WORDS - base {
            return Err(AllocError::PayloadTooLarge);
        }
        let ghost fits = old(self).spec_fits(payload_words as int);
        let used = self.store.curr_page_words_used();
        if HEADER_WORDS + payload_words > cap - used {
            self.store.acquire_page();
        }
        // `mid`: the state the region is carved out of, after any rollover.
        let ghost mid = *self;
        proof {
            assert(mid.store.words_used() + HEADER_WORDS + payload_words <= cap);
            assert(mid.store.num_pages() == old(self).num_pages() + (if fits {
                0int
            } else {
                1int
            }));
            assert(fits ==> mid.store == old(self).store);
            assert(forall|p: int|
                0 <= p < old(self).num_pages() ==> #[trigger] mid.pages()[p] == old(self).pages()[p]);
        }
        let page_idx = self.store.current_page_index();
        let offset = self.store.curr_page_words_used();
        self.store.write_at(page_idx, offset, page_idx);
        self.store.write_at(page_idx, offset + 1, type_tag);
        // `hdr`: the state with both header words written.
        let ghost hdr = *self;
        proof {
            assert(hdr.pages()[page_idx as int][offset as int] == page_idx);
            assert(hdr.pages()[page_idx as int][offset + 1] == type_tag);
            assert(forall|j: int|
                0 <= j < cap && !(offset <= j < offset + HEADER_WORDS)
                    ==> #[trigger] hdr.pages()[page_idx as int][j] == mid.pages()[page_idx as int][j]);
            assert(forall|p: int|
                0 <= p < hdr.num_pages() && p != page_idx ==> #[trigger] hdr.pages()[p]
                    == mid.pages()[p]);
        }
        let mut i: usize = 0;
        while i < payload_words
            invariant
                i <= payload_words,
                self.store.wf(),
                self.store.capacity() == hdr.store.capacity(),
                self.store.policy() == hdr.store.policy(),
                self.store.num_pages() == hdr.store.num_pages(),
                self.store.words_used() == hdr.store.words_used(),
                self.allocs == hdr.allocs,
                cap == hdr.store.capacity(),
                page_idx == hdr.store.num_pages() - 1,
                offset == hdr.store.words_used(),
                offset + HEADER_WORDS + payload_words <= cap,
                forall|j: int|
                    offset + HEADER_WORDS <= j < offset + HEADER_WORDS + i
                        ==> #[trigger] self.store.pages()[page_idx as int][j] == 0,
                forall|j: int|
                    0 <= j < cap && !(offset + HEADER_WORDS <= j < offset + HEADER_WORDS + i)
                        ==> #[trigger] self.store.pages()[page_idx as int][j] == hdr.pages()[page_idx as int][j],
                forall|p: int|
                    0 <= p < self.store.num_pages() && p != page_idx
                        ==> #[trigger] self.store.pages()[p] == hdr.pages()[p],
            decreases payload_words - i,
        {
            self.store.write_at(page_idx, offset + HEADER_WORDS + i, 0);
            i = i + 1;
        }
        self.store.advance(HEADER_WORDS + payload_words);
        let a = AllocRef { page: page_idx, start: offset + HEADER_WORDS, len: payload_words };
        let ghost rec = AllocInfo {
            page: page_idx,
            start: (offset + HEADER_WORDS) as usize,
            len: payload_words,
            tag: type_tag,
        };
        self.allocs = Ghost(self.allocs@.push(rec));
        proof {
            let pre = *old(self);
            let post = *self;
            let n = pre.allocs().len() as int;
            let start = offset + HEADER_WORDS;
            assert(post.allocs() == pre.allocs().push(rec));
            assert(forall|k: int| 0 <= k < n ==> #[trigger] post.allocs()[k] == pre.allocs()[k]);
            // Words outside the new header-plus-payload region kept the value
            // they had after any rollover.
            assert forall|j: int|
                0 <= j < cap && !(offset <= j < start + payload_words) implies post.pages()[page_idx as int][j] == mid.pages()[page_idx as int][j] by {
                assert(post.pages()[page_idx as int][j] == hdr.pages()[page_idx as int][j]);
            };
            assert(forall|p: int|
                0 <= p < post.num_pages() && p != page_idx ==> #[trigger] post.pages()[p]
                    == mid.pages()[p]);
            // The records of the old history keep their bounds and headers.
            assert forall|k: int| 0 <= k < post.allocs().len() implies post.rec_in_bounds(
                #[trigger] post.allocs()[k],
            ) by {
                if k < n {
                    assert(pre.rec_in_bounds(pre.allocs()[k]));
                }
            };
            assert forall|k: int| 0 <= k < post.allocs().len() implies post.header_ok(
                #[trigger] post.allocs()[k],
            ) by {
                if k < n {
                    let r0 = pre.allocs()[k];
                    assert(pre.rec_in_bounds(r0));
                    assert(pre.header_ok(r0));
                    if r0.page == page_idx {
                        assert(fits);
                        assert(r0.start + r0.len <= pre.words_used());
                        assert(post.pages()[page_idx as int][r0.start - HEADER_WORDS]
                            == mid.pages()[page_idx as int][r0.start - HEADER_WORDS]);
                        assert(post.pages()[page_idx as int][r0.start - 1]
                            == mid.pages()[page_idx as int][r0.start - 1]);
                    } else {
                        assert(post.pages()[r0.page as int] == mid.pages()[r0.page as int]);
                        assert(mid.pages()[r0.page as int] == pre.pages()[r0.page as int]);
                    }
                }
            };
            // Records on the current page still end before the bump offset.
            assert forall|k: int|
                0 <= k < post.allocs().len() && (#[trigger] post.allocs()[k]).page
                    == post.num_pages() - 1 implies post.allocs()[k].start + post.allocs()[k].len
                <= post.words_used() by {
                if k < n {
                    let r0 = pre.allocs()[k];
                    assert(pre.rec_in_bounds(r0));
                    if !fits {
                        assert(r0.page < pre.num_pages());
                        assert(post.num_pages() - 1 == pre.num_pages());
                    } else {
                        assert(r0.start + r0.len <= pre.words_used());
                    }
                }
            };
            // The regions stay pairwise disjoint: the new one starts at the
            // old bump offset of its page, past every older region there.
            assert forall|k1: int, k2: int|
                0 <= k1 < post.allocs().len() && 0 <= k2 < post.allocs().len() && k1
                    != k2 implies Self::regions_disjoint(
                #[trigger] post.allocs()[k1],
                #[trigger] post.allocs()[k2],
            ) by {
                if k1 < n && k2 < n {
                    assert(Self::regions_disjoint(pre.allocs()[k1], pre.allocs()[k2]));
                } else {
                    let k = if k1 < n {
                        k1
                    } else {
                        k2
                    };
                    if k < n {
                        let r0 = pre.allocs()[k];
                        assert(pre.rec_in_bounds(r0));
                        if r0.page == page_idx {
                            assert(fits);
                            assert(r0.start + r0.len <= pre.words_used());
                        }
                    }
                }
            };
            assert(post.wf());
            assert(Self::alloc_success(pre, post, type_tag, payload_words, a));
        }
        Ok(a)
    }

    /// Bulk reclamation: releases every live page, then acquires exactly one
    /// fresh page. Afterwards the arena behaves as if freshly constructed;
    /// every previously returned allocation is invalidated, which the empty
    /// history records.
    pub fn wipe(&mut self)
        requires
            old(self).wf(),
        ensures
            final(self).wf(),
            final(self).capacity() == old(self).capacity(),
            final(self).policy() == old(self).policy(),
            final(self).num_pages() == 1,
            final(self).words_used() == final(self).base_offset(),
            final(self).allocs() == Seq::<AllocInfo>::empty(),
    {
        self.store.release_all();
        self.store.acquire_page();
        self.allocs = Ghost(Seq::empty());
    }

    /// A reference is live when the arena has served exactly this allocation
    /// since the last wipe.
    pub open spec fn is_live(self, a: AllocRef) -> bool {
        exists|k: int|
            0 <= k < self.allocs().len() && (#[trigger] self.allocs()[k]).page == a.page
                && self.allocs()[k].start == a.start && self.allocs()[k].len == a.len
    }

    /// Writes one word into the payload of a live allocation. No header, no
    /// bookkeeping word and no other allocation's payload is touched.
    pub fn write_payload(&mut self, a: AllocRef, i: usize, value: usize)
        requires
            old(self).wf(),
            old(self).is_live(a),
            i < a.len,
        ensures
            final(self).wf(),
            final(self).pages() == old(self).pages().update(
                a.page as int,
                old(self).pages()[a.page as int].update(a.start + i, value),
            ),
            final(self).words_used() == old(self).words_used(),
            final(self).capacity() == old(self).capacity(),
            final(self).policy() == old(self).policy(),
            final(self).num_pages() == old(self).num_pages(),
            final(self).allocs() == old(self).allocs(),
    {
        proof {
            self.store.lemma_capacity_fits_usize();
            let k = choose|k: int|
                0 <= k < self.allocs().len() && (#[trigger] self.allocs()[k]).page == a.page
                    && self.allocs()[k].start == a.start && self.allocs()[k].len == a.len;
            assert(self.rec_in_bounds(self.allocs()[k]));
        }
        self.store.write_at(a.page, a.start + i, value);
        proof {
            let pre = *old(self);
            let post = *self;
            let k = choose|k: int|
                0 <= k < pre.allocs().len() && (#[trigger] pre.allocs()[k]).page == a.page
                    && pre.allocs()[k].start == a.start && pre.allocs()[k].len == a.len;
            let rec = pre.allocs()[k];
            // The written word lies in `rec`'s payload, so it is no header
            // word: headers of other records lie in regions disjoint from
            // `rec`'s, and `rec`'s own header lies before its payload.
            assert forall|j: int| 0 <= j < post.allocs().len() implies post.header_ok(
                #[trigger] post.allocs()[j],
            ) by {
                let r0 = pre.allocs()[j];
                assert(pre.rec_in_bounds(r0));
                assert(pre.header_ok(r0));
                if j != k {
                    assert(Self::regions_disjoint(r0, rec));
                }
            };
            assert(post.wf());
        }
    }

    /// Reads one word of a live page.
    pub fn read_word(&self, page: usize, idx: usize) -> (w: usize)
        requires
            self.wf(),
            page < self.num_pages(),
            idx < self.capacity(),
        ensures
            w == self.pages()[page as int][idx as int],
    {
        self.store.read_word(page, idx)
    }

    /// Reads one word of a live allocation's payload.
    pub fn read_payload(&self, a: AllocRef, i: usize) -> (w: usize)
        requires
            self.wf(),
            self.is_live(a),
            i < a.len,
        ensures
            w == self.pages()[a.page as int][a.start + i],
    {
        proof {
            self.store.lemma_capacity_fits_usize();
            let k = choose|k: int|
                0 <= k < self.allocs().len() && (#[trigger] self.allocs()[k]).page == a.page
                    && self.allocs()[k].start == a.start && self.allocs()[k].len == a.len;
            assert(self.rec_in_bounds(self.allocs()[k]));
        }
        self.store.read_word(a.page, a.start + i)
    }

    /// How many pages are currently live.
    pub fn page_count(&self) -> (n: usize)
        ensures
            n == self.num_pages(),
    {
        self.store.page_count()
    }

    /// The bump offset within the current page.
    pub fn curr_page_words_used(&self) -> (n: usize)
        ensures
            n == self.words_used(),
    {
        self.store.curr_page_words_used()
    }

    /// The configured page capacity, in words.
    pub fn page_capacity(&self) -> (n: usize)
        ensures
            n == self.capacity(),
    {
        self.store.page_capacity()
    }

    /// The size-tracking policy the arena was constructed with.
    pub fn size_policy(&self) -> (p: PageSizePolicy)
        ensures
            p == self.policy(),
    {
        self.store.size_policy()
    }

    /// The largest payload a single allocation can ask for.
    pub fn max_payload_words(&self) -> (n: usize)
        requires
            self.wf(),
        ensures
            n == self.max_payload(),
    {
        self.store.page_capacity() - HEADER_WORDS - self.store.size_policy().base_offset()
    }

    /// Header correctness: for every allocation served since the last wipe,
    /// the word immediately preceding its payload still holds the
    /// caller-supplied type tag, and the word two positions before it still
    /// holds the identity of the page holding the allocation.
    pub proof fn lemma_header_correct(self, k: int)
        requires
            self.wf(),
            0 <= k < self.allocs().len(),
        ensures
            self.pages()[self.allocs()[k].page as int][self.allocs()[k].start - 1]
                == self.allocs()[k].tag,
            self.pages()[self.allocs()[k].page as int][self.allocs()[k].start - HEADER_WORDS]
                == self.allocs()[k].page,
    {
        assert(self.header_ok(self.allocs()[k]));
    }

    /// Non-overlap: any two allocations served without an intervening wipe
    /// have disjoint payload regions — indeed disjoint header-plus-payload
    /// regions.
    pub proof fn lemma_non_overlap(self, k1: int, k2: int)
        requires
            self.wf(),
            0 <= k1 < self.allocs().len(),
            0 <= k2 < self.allocs().len(),
            k1 != k2,
        ensures
            Self::regions_disjoint(self.allocs()[k1], self.allocs()[k2]),
            self.allocs()[k1].page != self.allocs()[k2].page || self.allocs()[k1].start
                + self.allocs()[k1].len <= self.allocs()[k2].start || self.allocs()[k2].start
                + self.allocs()[k2].len <= self.allocs()[k1].start,
    {
        assert(Self::regions_disjoint(self.allocs()[k1], self.allocs()[k2]));
    }

    /// Capacity respect: no allocation's header-plus-payload region ever
    /// crosses a page boundary, and the bump offset never exceeds the page
    /// capacity.
    pub proof fn lemma_capacity_respect(self, k: int)
        requires
            self.wf(),
            0 <= k < self.allocs().len(),
        ensures
            0 <= self.allocs()[k].start - HEADER_WORDS,
            self.allocs()[k].start + self.allocs()[k].len <= self.capacity(),
            self.allocs()[k].page < self.num_pages(),
            self.words_used() <= self.capacity(),
    {
        assert(self.rec_in_bounds(self.allocs()[k]));
    }

    /// The reference a served allocation returns is live, so its payload can
    /// be written and read until the next wipe.
    pub proof fn lemma_new_alloc_live(pre: Arena, post: Arena, tag: usize, payload: usize, a: AllocRef)
        requires
            Self::alloc_success(pre, post, tag, payload, a),
        ensures
            post.is_live(a),
    {
        assert(post.allocs()[pre.allocs().len() as int].page == a.page);
    }

    /// Serving an allocation keeps every earlier reference live: nothing is
    /// freed or moved until the next wipe.
    pub proof fn lemma_alloc_preserves_live(
        pre: Arena,
        post: Arena,
        tag: usize,
        payload: usize,
        a: AllocRef,
        b: AllocRef,
    )
        requires
            Self::alloc_success(pre, post, tag, payload, a),
            pre.is_live(b),
        ensures
            post.is_live(b),
    {
        let k = choose|k: int|
            0 <= k < pre.allocs().len() && (#[trigger] pre.allocs()[k]).page == b.page
                && pre.allocs()[k].start == b.start && pre.allocs()[k].len == b.len;
        assert(post.allocs()[k].page == b.page);
    }

    /// Wipe resets state: an allocation served right after a wipe comes out
    /// exactly as the first allocation after construction. The outcome of an
    /// allocation depends only on the page count, the bump offset, the
    /// capacity and the policy, and on all four a wiped arena agrees with a
    /// freshly constructed one.
    pub proof fn lemma_wipe_like_fresh(wiped: Arena, fresh: Arena, payload_words: int)
        requires
            wiped.capacity() == fresh.capacity(),
            wiped.policy() == fresh.policy(),
            wiped.num_pages() == 1,
            fresh.num_pages() == 1,
            wiped.words_used() == wiped.base_offset(),
            fresh.words_used() == fresh.base_offset(),
        ensures
            wiped.spec_fits(payload_words) == fresh.spec_fits(payload_words),
            wiped.spec_alloc_page(payload_words) == fresh.spec_alloc_page(payload_words),
            wiped.spec_alloc_start(payload_words) == fresh.spec_alloc_start(payload_words),
    {
    }
}

} // verus!

