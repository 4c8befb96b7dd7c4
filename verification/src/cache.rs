//! The page cache: a bounded mapping from page index to decoded pixels.
//!
//! Insertion replaces an entry wholesale, then runs an eviction pass: while
//! the cache is over its configured capacity, entries whose index lies outside
//! a window around the current page are evicted, oldest first. Entries inside
//! the window are never evicted, so the cache may stay over capacity when
//! everything left is close to the current page.

use vstd::prelude::*;

verus! {

/// A page rendered to raw pixels in RGBA order, 4 bytes per pixel.
pub struct RenderedPage {
    pub pixels: Vec<u8>,
    pub width: u32,
    pub height: u32,
}

impl RenderedPage {
    /// The buffer holds exactly 4 bytes for each of `width x height` pixels.
    pub open spec fn wf(&self) -> bool {
        self.pixels@.len() == self.width as int * self.height as int * 4
    }
}

/// Whether page `index` lies within `radius` pages of `current`.
pub open spec fn within_window(index: usize, current: usize, radius: usize) -> bool {
    current as int - radius as int <= index as int <= current as int + radius as int
}

/// Whether some entry of `s` has page index `j`.
pub open spec fn has_key(s: Seq<(usize, RenderedPage)>, j: usize) -> bool {
    exists|i: int| 0 <= i < s.len() && (#[trigger] s[i]).0 == j
}

/// The position of the entry with page index `j`.
pub open spec fn key_index(s: Seq<(usize, RenderedPage)>, j: usize) -> int {
    choose|i: int| 0 <= i < s.len() && (#[trigger] s[i]).0 == j
}

/// The pixels stored for page index `j`.
pub open spec fn value_of(s: Seq<(usize, RenderedPage)>, j: usize) -> RenderedPage {
    s[key_index(s, j)].1
}

/// No two entries share a page index.
pub open spec fn distinct_keys(s: Seq<(usize, RenderedPage)>) -> bool {
    forall|i: int, j: int|
        #![trigger s[i], s[j]]
        0 <= i < j < s.len() ==> s[i].0 != s[j].0
}

/// Every stored page is well formed.
pub open spec fn all_entries_wf(s: Seq<(usize, RenderedPage)>) -> bool {
    forall|i: int| 0 <= i < s.len() ==> (#[trigger] s[i]).1.wf()
}

proof fn lemma_value_at(s: Seq<(usize, RenderedPage)>, i: int)
    requires
        distinct_keys(s),
        0 <= i < s.len(),
    ensures
        has_key(s, s[i].0),
        key_index(s, s[i].0) == i,
        value_of(s, s[i].0) == s[i].1,
{
    assert(has_key(s, s[i].0));
    let k = key_index(s, s[i].0);
    if k != i {
        if k < i {
            assert(s[k].0 != s[i].0);
        } else {
            assert(s[i].0 != s[k].0);
        }
    }
}

proof fn lemma_contains_value(s: Seq<(usize, RenderedPage)>, p: (usize, RenderedPage))
    requires
        distinct_keys(s),
        s.contains(p),
    ensures
        has_key(s, p.0),
        value_of(s, p.0) == p.1,
{
    let i = choose|i: int| 0 <= i < s.len() && s[i] == p;
    lemma_value_at(s, i);
}

proof fn lemma_remove_keeps_pair(s: Seq<(usize, RenderedPage)>, k: int, i: int)
    requires
        0 <= k < s.len(),
        0 <= i < s.len(),
        i != k,
    ensures
        s.remove(k).contains(s[i]),
{
    s.remove_ensures(k);
    if i < k {
        assert(s.remove(k)[i] == s[i]);
    } else {
        assert(s.remove(k)[i - 1] == s[i]);
    }
}

proof fn lemma_remove_is_sub(s: Seq<(usize, RenderedPage)>, k: int, p: (usize, RenderedPage))
    requires
        0 <= k < s.len(),
        s.remove(k).contains(p),
    ensures
        s.contains(p),
{
    s.remove_ensures(k);
    let i = choose|i: int| 0 <= i < s.remove(k).len() && s.remove(k)[i] == p;
    if i < k {
        assert(s[i] == p);
    } else {
        assert(s[i + 1] == p);
    }
}

proof fn lemma_remove_distinct(s: Seq<(usize, RenderedPage)>, k: int)
    requires
        distinct_keys(s),
        0 <= k < s.len(),
    ensures
        distinct_keys(s.remove(k)),
        all_entries_wf(s) ==> all_entries_wf(s.remove(k)),
{
    s.remove_ensures(k);
    assert forall|i: int, j: int|
        0 <= i < j < s.remove(k).len() implies (#[trigger] s.remove(k)[i]).0 != (#[trigger] s.remove(
        k,
    )[j]).0 by {
        let i0 = if i < k {
            i
        } else {
            i + 1
        };
        let j0 = if j < k {
            j
        } else {
            j + 1
        };
        assert(s.remove(k)[i] == s[i0]);
        assert(s.remove(k)[j] == s[j0]);
        assert(s[i0].0 != s[j0].0);
    }
    if all_entries_wf(s) {
        assert forall|i: int| 0 <= i < s.remove(k).len() implies (#[trigger] s.remove(k)[i]).1.wf() by {
            let i0 = if i < k {
                i
            } else {
                i + 1
            };
            assert(s.remove(k)[i] == s[i0]);
        }
    }
}

/// What inserting `entry` for page `index` while `current` is the current
/// page does to a cache: the entry replaces any previous one wholesale, no
/// entry is invented or corrupted, entries within the protection window
/// around `current` survive, and afterwards the cache is within capacity
/// unless everything left is within the window. While an insertion fits the
/// capacity, nothing at all is evicted.
pub open spec fn insert_post(
    pre: PageCache,
    post: PageCache,
    index: usize,
    entry: RenderedPage,
    current: usize,
) -> bool {
    &&& post.wf()
    &&& post.max_size_spec() == pre.max_size_spec()
    &&& post.window_radius_spec() == pre.window_radius_spec()
    &&& forall|j: usize| #[trigger] post.contains_page(j) ==> j == index || pre.contains_page(j)
    &&& forall|j: usize| #[trigger]
        post.contains_page(j) ==> post.page_at(j) == (if j == index {
            entry
        } else {
            pre.page_at(j)
        })
    &&& forall|j: usize|
        within_window(j, current, pre.window_radius_spec()) && (j == index || pre.contains_page(j))
            ==> #[trigger] post.contains_page(j)
    &&& (post.len_spec() <= pre.max_size_spec() as int || (forall|j: usize| #[trigger]
        post.contains_page(j) ==> within_window(j, current, pre.window_radius_spec())))
    &&& (pre.len_spec() + (if pre.contains_page(index) {
        0int
    } else {
        1int
    }) <= pre.max_size_spec() as int ==> (forall|j: usize| #[trigger]
        post.contains_page(j) <==> (j == index || pre.contains_page(j))))
    &&& post.len_spec() <= pre.len_spec() + 1
    // eviction stops at the capacity: never more than needed
    &&& ({
        let inserted_len = pre.len_spec() + (if pre.contains_page(index) {
            0int
        } else {
            1int
        });
        post.len_spec() >= (if inserted_len <= pre.max_size_spec() as int {
            inserted_len
        } else {
            pre.max_size_spec() as int
        })
    })
}

/// A bounded mapping from page index to rendered pixels, with
/// proximity-protected eviction.
pub struct PageCache {
    entries: Vec<(usize, RenderedPage)>,
    max_size: usize,
    window_radius: usize,
}

impl PageCache {
    /// The stored entries, oldest first, as contracts see them.
    pub closed spec fn entries_view(&self) -> Seq<(usize, RenderedPage)> {
        self.entries@
    }

    /// The configured soft capacity `C`.
    pub closed spec fn max_size_spec(&self) -> usize {
        self.max_size
    }

    /// The configured protection radius `W`.
    pub closed spec fn window_radius_spec(&self) -> usize {
        self.window_radius
    }

    /// Number of cached pages.
    pub open spec fn len_spec(&self) -> int {
        self.entries_view().len() as int
    }

    /// Whether a page is cached.
    pub open spec fn contains_page(&self, index: usize) -> bool {
        has_key(self.entries_view(), index)
    }

    /// The pixels cached for `index`.
    pub open spec fn page_at(&self, index: usize) -> RenderedPage {
        value_of(self.entries_view(), index)
    }

    /// Page indices are unique and every stored page is well formed.
    pub open spec fn wf(&self) -> bool {
        distinct_keys(self.entries_view()) && all_entries_wf(self.entries_view())
    }

    /// An empty cache with capacity `max_size` and protection radius
    /// `window_radius`.
    pub fn new(max_size: usize, window_radius: usize) -> (r: Self)
        ensures
            r.wf(),
            r.len_spec() == 0,
            r.max_size_spec() == max_size,
            r.window_radius_spec() == window_radius,
            forall|j: usize| !(#[trigger] r.contains_page(j)),
    {
        Self { entries: Vec::new(), max_size, window_radius }
    }

    /// Number of cached pages.
    pub fn len(&self) -> (n: usize)
        ensures
            n == self.len_spec(),
    {
        self.entries.len()
    }

    /// Read-only lookup; no side effects.
    pub fn get(&self, index: usize) -> (r: Option<&RenderedPage>)
        requires
            self.wf(),
        ensures
            r is Some <==> self.contains_page(index),
            r matches Some(p) ==> *p == self.page_at(index) && p.wf(),
    {
        let n = self.entries.len();
        let mut i: usize = 0;
        while i < n
            invariant
                0 <= i <= n,
                n == self.entries_view().len(),
                self.wf(),
                forall|k: int| 0 <= k < i ==> (#[trigger] self.entries_view()[k]).0 != index,
            decreases n - i,
        {
            if self.entries[i].0 == index {
                proof {
                    lemma_value_at(self.entries_view(), i as int);
                }
                return Some(&self.entries[i].1);
            }
            i = i + 1;
        }
        proof {
            assert(!has_key(self.entries_view(), index));
        }
        None
    }

    /// Insert or replace the entry for `index`, then evict: while the cache
    /// is over capacity, drop the oldest entry whose page lies outside the
    /// protection window around `current`. Afterwards either the cache is
    /// within capacity or every entry left is within the window.
    pub fn insert(&mut self, index: usize, entry: RenderedPage, current: usize)
        requires
            old(self).wf(),
            entry.wf(),
        ensures
            insert_post(*old(self), *final(self), index, entry, current),
    {
        let ghost orig = self.entries@;
        // replace wholesale: drop any previous entry for this page
        let n = self.entries.len();
        let mut pos: usize = 0;
        while pos < n && self.entries[pos].0 != index
            invariant
                0 <= pos <= n,
                n == self.entries_view().len(),
                self.entries_view() == orig,
                forall|k: int| 0 <= k < pos ==> (#[trigger] orig[k]).0 != index,
            decreases n - pos,
        {
            pos = pos + 1;
        }
        let ghost had_key = pos < n;
        if pos < n {
            proof {
                lemma_remove_distinct(orig, pos as int);
            }
            let _ = self.entries.remove(pos);
        }
        let ghost trimmed = self.entries@;
        proof {
            assert(has_key(orig, index) == had_key) by {
                if had_key {
                    assert(orig[pos as int].0 == index);
                } else {
                    assert(forall|k: int| 0 <= k < orig.len() ==> (#[trigger] orig[k]).0 != index);
                }
            }
            // after trimming, no entry carries `index`
            assert forall|k: int| 0 <= k < trimmed.len() implies (#[trigger] trimmed[k]).0
                != index by {
                if had_key {
                    orig.remove_ensures(pos as int);
                    if k < pos {
                        assert(trimmed[k] == orig[k]);
                    } else {
                        assert(trimmed[k] == orig[k + 1]);
                        if orig[k + 1].0 == index {
                            assert(orig[pos as int].0 == orig[k + 1].0);
                        }
                    }
                }
            }
            // trimmed pairs all come from orig
            assert forall|k: int| 0 <= k < trimmed.len() implies orig.contains(
                #[trigger] trimmed[k],
            ) by {
                if had_key {
                    orig.remove_ensures(pos as int);
                    if k < pos {
                        assert(trimmed[k] == orig[k]);
                    } else {
                        assert(trimmed[k] == orig[k + 1]);
                    }
                } else {
                    assert(trimmed[k] == orig[k]);
                }
            }
            // every key of orig other than index survives trimming
            assert forall|j: usize| j != index && has_key(orig, j) implies has_key(
                trimmed,
                j,
            ) by {
                let i = choose|i: int| 0 <= i < orig.len() && (#[trigger] orig[i]).0 == j;
                if had_key {
                    lemma_remove_keeps_pair(orig, pos as int, i);
                    let m = choose|m: int|
                        0 <= m < trimmed.len() && #[trigger] trimmed[m] == orig[i];
                    assert(trimmed[m].0 == j);
                } else {
                    assert(orig[i].0 == j);
                }
            }
        }
        self.entries.push((index, entry));
        let ghost base = self.entries@;
        proof {
            assert(base == trimmed.push((index, entry)));
            assert(base.last() == (index, entry));
            assert(distinct_keys(base)) by {
                assert forall|i: int, j: int|
                    #![trigger base[i], base[j]]
                    0 <= i < j < base.len() implies base[i].0 != base[j].0 by {
                    if j == base.len() - 1 {
                        assert(base[i] == trimmed[i]);
                        assert(base[j] == (index, entry));
                    } else {
                        assert(base[i] == trimmed[i]);
                        assert(base[j] == trimmed[j]);
                    }
                }
            }
            assert(all_entries_wf(base)) by {
                assert forall|i: int| 0 <= i < base.len() implies (#[trigger] base[i]).1.wf() by {
                    if i < base.len() - 1 {
                        assert(base[i] == trimmed[i]);
                        assert(orig.contains(trimmed[i]));
                        let m = choose|m: int|
                            0 <= m < orig.len() && #[trigger] orig[m] == trimmed[i];
                        assert(orig[m].1.wf());
                    }
                }
            }
            assert(has_key(base, index)) by {
                assert(base[base.len() - 1].0 == index);
            }
        }
        // eviction pass: oldest entry outside the window goes first
        let mut k: usize = 0;
        while k < self.entries.len() && self.entries.len() > self.max_size
            invariant
                self.max_size == old(self).max_size_spec(),
                self.window_radius == old(self).window_radius_spec(),
                0 <= k <= self.entries_view().len(),
                distinct_keys(self.entries_view()),
                all_entries_wf(self.entries_view()),
                self.entries_view().len() <= base.len(),
                // pairs all come from base
                forall|i: int|
                    0 <= i < self.entries_view().len() ==> base.contains(
                        #[trigger] self.entries_view()[i],
                    ),
                // protected keys of base survive
                forall|j: usize|
                    within_window(j, current, old(self).window_radius_spec()) && has_key(base, j)
                        ==> has_key(self.entries_view(), j),
                // everything before k is within the window
                forall|i: int|
                    0 <= i < k ==> within_window(
                        (#[trigger] self.entries_view()[i]).0,
                        current,
                        old(self).window_radius_spec(),
                    ),
                // if the insertion fit, nothing has been evicted
                base.len() <= old(self).max_size_spec() as int ==> self.entries_view() == base,
                // eviction never goes below the capacity
                self.entries_view().len() >= old(self).max_size_spec() as int
                    || self.entries_view() == base,
            decreases self.entries_view().len() - k,
        {
            let evict = {
                let key = self.entries[k].0;
                let lo = current.saturating_sub(self.window_radius);
                let hi = current.saturating_add(self.window_radius);
                !(lo <= key && key <= hi)
            };
            proof {
                assert(evict == !within_window(
                    self.entries_view()[k as int].0,
                    current,
                    old(self).window_radius_spec(),
                ));
            }
            if evict {
                let ghost before = self.entries@;
                proof {
                    lemma_remove_distinct(before, k as int);
                }
                let _ = self.entries.remove(k);
                proof {
                    let after = self.entries@;
                    before.remove_ensures(k as int);
                    assert forall|i: int| 0 <= i < after.len() implies base.contains(
                        #[trigger] after[i],
                    ) by {
                        lemma_remove_is_sub(before, k as int, after[i]);
                    }
                    assert forall|j: usize|
                        within_window(j, current, old(self).window_radius_spec()) && has_key(
                            base,
                            j,
                        ) implies has_key(after, j) by {
                        let i = choose|i: int|
                            0 <= i < before.len() && (#[trigger] before[i]).0 == j;
                        assert(i != k) by {
                            assert(!within_window(
                                before[k as int].0,
                                current,
                                old(self).window_radius_spec(),
                            ));
                        }
                        lemma_remove_keeps_pair(before, k as int, i);
                        let m = choose|m: int|
                            0 <= m < after.len() && #[trigger] after[m] == before[i];
                        assert(after[m].0 == j);
                    }
                    assert forall|i: int| 0 <= i < k implies within_window(
                        (#[trigger] self.entries_view()[i]).0,
                        current,
                        old(self).window_radius_spec(),
                    ) by {
                        assert(after[i] == before[i]);
                    }
                }
            } else {
                k = k + 1;
            }
        }
        proof {
            let fin = self.entries_view();
            // the final cache is within capacity or wholly within the window
            if fin.len() > old(self).max_size_spec() {
                assert(k >= fin.len());
                assert forall|j: usize| #[trigger]
                    has_key(fin, j) implies within_window(
                    j,
                    current,
                    old(self).window_radius_spec(),
                ) by {
                    let i = choose|i: int| 0 <= i < fin.len() && (#[trigger] fin[i]).0 == j;
                    assert(within_window(fin[i].0, current, old(self).window_radius_spec()));
                }
            }
            // nothing invented, values correct
            assert forall|j: usize| #[trigger] has_key(fin, j) implies (j == index || has_key(
                orig,
                j,
            )) && value_of(fin, j) == (if j == index {
                entry
            } else {
                value_of(orig, j)
            }) by {
                let i = choose|i: int| 0 <= i < fin.len() && (#[trigger] fin[i]).0 == j;
                lemma_value_at(fin, i);
                assert(base.contains(fin[i]));
                lemma_contains_value(base, fin[i]);
                if j == index {
                    lemma_value_at(base, base.len() - 1);
                    assert(value_of(base, index) == entry);
                } else {
                    let m = choose|m: int| 0 <= m < base.len() && #[trigger] base[m] == fin[i];
                    assert(m < base.len() - 1) by {
                        assert(base[base.len() - 1].0 == index);
                    }
                    assert(trimmed[m] == base[m]);
                    assert(orig.contains(trimmed[m]));
                    lemma_contains_value(orig, trimmed[m]);
                }
            }
            // protected keys survive end to end
            assert forall|j: usize|
                within_window(j, current, old(self).window_radius_spec()) && (j == index || has_key(
                    orig,
                    j,
                )) implies #[trigger] has_key(fin, j) by {
                if j != index {
                    assert(has_key(trimmed, j));
                    let i = choose|i: int|
                        0 <= i < trimmed.len() && (#[trigger] trimmed[i]).0 == j;
                    assert(base[i] == trimmed[i]);
                    assert(has_key(base, j));
                }
            }
            // if the insertion fit the capacity, the eviction pass was a no-op
            if orig.len() + (if has_key(orig, index) {
                0int
            } else {
                1int
            }) <= old(self).max_size_spec() as int {
                assert(base.len() <= old(self).max_size_spec() as int);
                assert(fin == base);
                assert forall|j: usize| #[trigger]
                    has_key(fin, j) <==> (j == index || has_key(orig, j)) by {
                    if j != index && has_key(orig, j) {
                        assert(has_key(trimmed, j));
                        let i = choose|i: int|
                            0 <= i < trimmed.len() && (#[trigger] trimmed[i]).0 == j;
                        assert(base[i] == trimmed[i]);
                    }
                    if has_key(fin, j) && j != index {
                        let i = choose|i: int| 0 <= i < fin.len() && (#[trigger] fin[i]).0 == j;
                        assert(base.contains(fin[i]));
                        let m = choose|m: int| 0 <= m < base.len() && #[trigger] base[m] == fin[i];
                        assert(m < base.len() - 1) by {
                            assert(base[base.len() - 1].0 == index);
                        }
                        assert(trimmed[m] == base[m]);
                        assert(orig.contains(trimmed[m]));
                        lemma_contains_value(orig, trimmed[m]);
                    }
                }
            }
        }
    }
}

} // verus!
