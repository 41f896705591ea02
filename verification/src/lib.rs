//! A bump-pointer arena allocator with page-chained backing storage.
//!
//! The arena serves many short-lived allocations by bumping an offset within
//! a fixed-capacity page of machine words; each allocation is prefixed with a
//! two-word metadata header (a back-reference to the owning page and a
//! caller-supplied type tag), and its payload is zero-filled before it is
//! handed out. When the current page cannot satisfy a request, a fresh page
//! is acquired transparently. There is no per-object free: the only
//! reclamation is `wipe`, which releases every page at once and re-seeds the
//! arena with a single fresh page.
//!
//! Pages are modelled as owned word buffers, and an allocation is addressed
//! by a page index and a word offset into that page, so the arena's
//! guarantees (zero-filled payloads, correct headers, disjoint allocations,
//! no write past a page boundary) are stated and proved over plain sequences
//! of words.

use vstd::prelude::*;

pub mod arena;
pub mod page_store;

verus! {

/// Number of metadata words written immediately before every payload:
/// one word for the owning page's identity, one for the caller's type tag.
pub const HEADER_WORDS: usize = 2;

/// Default page capacity, in machine words.
pub const DEFAULT_PAGE_CAPACITY_WORDS: usize = 128000;

/// Whether each page records its own capacity in its first word.
///
/// Under `TrackedPageSize` every freshly acquired page is stamped with its
/// capacity in word 0, which is then reserved for the whole life of the
/// page; the bump offset of a fresh page therefore starts at 1 instead of 0.
/// Under `StaticPageSize` no word is reserved and release relies on the
/// statically known capacity.
#[derive(Clone, Copy, Debug, PartialEq, Eq, Structural)]
pub enum PageSizePolicy {
    StaticPageSize,
    TrackedPageSize,
}

impl PageSizePolicy {
    /// How many words at the start of each page are reserved for
    /// bookkeeping under this policy.
    pub open spec fn spec_base_offset(self) -> int {
        if self == PageSizePolicy::TrackedPageSize {
            1
        } else {
            0
        }
    }

    /// Executable counterpart of [`Self::spec_base_offset`].
    pub fn base_offset(self) -> (n: usize)
        ensures
            n == self.spec_base_offset(),
    {
        match self {
            PageSizePolicy::TrackedPageSize => 1,
            PageSizePolicy::StaticPageSize => 0,
        }
    }
}

} // verus!
