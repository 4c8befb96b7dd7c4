//! The render scheduler: given the current page, which pages must be
//! rendered ahead of need.
//!
//! The prefetch set is the current page and its valid immediate neighbors.
//! A scheduler pass issues one render request for each page of the prefetch
//! set that the cache is missing; an empty document issues nothing.

use crate::cache::PageCache;
use vstd::prelude::*;

verus! {

/// A request to render one page at the given target pixel dimensions.
#[derive(Debug, Clone, Copy, PartialEq, Eq, Structural)]
pub struct RenderRequest {
    pub page_index: usize,
    pub width: u16,
    pub height: u16,
}

/// The pages the scheduler keeps rendered ahead of need: the current page
/// and its valid immediate neighbors. Empty for an empty document.
pub open spec fn prefetch_set(current: usize, total_pages: u16) -> Set<usize> {
    Set::new(
        |i: usize|
            total_pages > 0 && (i as int) < (total_pages as int) && (i == current || i as int
                == current as int - 1 || i as int == current as int + 1),
    )
}

/// Around an interior page the prefetch set is exactly the page and both its
/// neighbors.
pub proof fn lemma_prefetch_interior(current: usize, total_pages: u16)
    requires
        0 < current,
        (current as int) < total_pages as int - 1,
    ensures
        prefetch_set(current, total_pages) == set![
            (current - 1) as usize,
            current,
            (current + 1) as usize,
        ],
{
    assert(prefetch_set(current, total_pages) =~= set![
        (current - 1) as usize,
        current,
        (current + 1) as usize,
    ]);
}

/// At the first page the prefetch set has no previous page: it is the first
/// page alone, plus the second where one exists.
pub proof fn lemma_prefetch_at_first(total_pages: u16)
    requires
        total_pages > 0,
    ensures
        total_pages == 1 ==> prefetch_set(0, total_pages) == set![0usize],
        total_pages > 1 ==> prefetch_set(0, total_pages) == set![0usize, 1usize],
{
    if total_pages == 1 {
        assert(prefetch_set(0, total_pages) =~= set![0usize]);
    } else {
        assert(prefetch_set(0, total_pages) =~= set![0usize, 1usize]);
    }
}

/// At the last page the prefetch set has no next page: it is the last page
/// alone, plus the one before it where one exists.
pub proof fn lemma_prefetch_at_last(total_pages: u16)
    requires
        total_pages > 0,
    ensures
        !prefetch_set((total_pages - 1) as usize, total_pages).contains(total_pages as usize),
        total_pages == 1 ==> prefetch_set((total_pages - 1) as usize, total_pages) == set![0usize],
        total_pages > 1 ==> prefetch_set((total_pages - 1) as usize, total_pages) == set![
            (total_pages - 2) as usize,
            (total_pages - 1) as usize,
        ],
{
    if total_pages == 1 {
        assert(prefetch_set((total_pages - 1) as usize, total_pages) =~= set![0usize]);
    } else {
        assert(prefetch_set((total_pages - 1) as usize, total_pages) =~= set![
            (total_pages - 2) as usize,
            (total_pages - 1) as usize,
        ]);
    }
}

/// What a scheduler pass issues: exactly one request, at dimensions
/// `width x height`, for each page of the prefetch set that the cache is
/// missing, and nothing else.
pub open spec fn scheduler_requests_ok(
    reqs: Seq<RenderRequest>,
    current: usize,
    total_pages: u16,
    cache: PageCache,
    width: u16,
    height: u16,
) -> bool {
    &&& forall|i: int|
        0 <= i < reqs.len() ==> {
            &&& prefetch_set(current, total_pages).contains((#[trigger] reqs[i]).page_index)
            &&& !cache.contains_page(reqs[i].page_index)
            &&& reqs[i].width == width
            &&& reqs[i].height == height
        }
    &&& forall|j: usize|
        prefetch_set(current, total_pages).contains(j) && !(#[trigger] cache.contains_page(j))
            ==> exists|i: int| 0 <= i < reqs.len() && (#[trigger] reqs[i]).page_index == j
    &&& forall|i1: int, i2: int|
        #![trigger reqs[i1], reqs[i2]]
        0 <= i1 < i2 < reqs.len() ==> reqs[i1].page_index != reqs[i2].page_index
}

/// Compute the render requests a scheduler pass must issue.
pub fn compute_render_requests(
    current: usize,
    total_pages: u16,
    cache: &PageCache,
    width: u16,
    height: u16,
) -> (r: Vec<RenderRequest>)
    requires
        cache.wf(),
        total_pages > 0 ==> (current as int) < total_pages as int,
        total_pages == 0 ==> current == 0,
    ensures
        scheduler_requests_ok(r@, current, total_pages, *cache, width, height),
        total_pages == 0 ==> r@.len() == 0,
{
    let mut r: Vec<RenderRequest> = Vec::new();
    if total_pages == 0 {
        proof {
            assert(forall|j: usize| !(#[trigger] prefetch_set(current, total_pages).contains(j)));
        }
        return r;
    }
    let ghost mut pos_cur: int = -1;
    let ghost mut pos_prev: int = -1;
    let ghost mut pos_next: int = -1;
    if cache.get(current).is_none() {
        r.push(RenderRequest { page_index: current, width, height });
        proof {
            pos_cur = r@.len() - 1;
        }
    }
    if current > 0 && cache.get(current - 1).is_none() {
        r.push(RenderRequest { page_index: current - 1, width, height });
        proof {
            pos_prev = r@.len() - 1;
        }
    }
    let has_next = (current as u64) + 1 < (total_pages as u64);
    if has_next && cache.get(current + 1).is_none() {
        r.push(RenderRequest { page_index: current + 1, width, height });
        proof {
            pos_next = r@.len() - 1;
        }
    }
    proof {
        let s = r@;
        assert forall|j: usize|
            prefetch_set(current, total_pages).contains(j) && !(#[trigger] cache.contains_page(
                j,
            )) implies exists|i: int| 0 <= i < s.len() && (#[trigger] s[i]).page_index == j by {
            if j == current {
                assert(s[pos_cur].page_index == j);
            } else if j as int == current as int - 1 {
                assert(s[pos_prev].page_index == j);
            } else {
                assert(j as int == current as int + 1);
                assert(s[pos_next].page_index == j);
            }
        }
    }
    r
}

} // verus!
