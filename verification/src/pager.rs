use vstd::prelude::*;

verus! {

use crate::Edge;
use crate::LoadResult;
use crate::Page;
use crate::PageInfo;
use crate::loader::Loader;
use crate::loader::distinct_keys;
use crate::loader::key_views;
use crate::loader::result_cloned;

/// The candidates left after resuming at the cursor `after`: the whole
/// sequence when the cursor is empty, everything past the cursor's first
/// occurrence when it is present, and nothing when a non-empty cursor is
/// absent from the sequence.
pub open spec fn spec_skip(candidates: Seq<Seq<char>>, after: Seq<char>) -> Seq<Seq<char>>
    decreases candidates.len(),
{
    if after.len() == 0 {
        candidates
    } else if candidates.len() == 0 {
        candidates
    } else if candidates[0] == after {
        candidates.subrange(1, candidates.len() as int)
    } else {
        spec_skip(candidates.subrange(1, candidates.len() as int), after)
    }
}

/// The window one page shows: resume after the cursor, then take at most
/// `limit` candidates.
pub open spec fn spec_window(candidates: Seq<Seq<char>>, after: Seq<char>, limit: nat) -> Seq<
    Seq<char>,
> {
    let rest = spec_skip(candidates, after);
    if rest.len() <= limit {
        rest
    } else {
        rest.take(limit as int)
    }
}

proof fn lemma_skip_at(candidates: Seq<Seq<char>>, after: Seq<char>, i: int)
    requires
        after.len() > 0,
        0 <= i < candidates.len(),
        candidates[i] == after,
        forall|j: int| 0 <= j < i ==> candidates[j] != after,
    ensures
        spec_skip(candidates, after) == candidates.subrange(i + 1, candidates.len() as int),
    decreases i,
{
    if i > 0 {
        let sub = candidates.subrange(1, candidates.len() as int);
        lemma_skip_at(sub, after, i - 1);
        assert(sub.subrange(i, sub.len() as int) =~= candidates.subrange(
            i + 1,
            candidates.len() as int,
        ));
    }
}

proof fn lemma_skip_absent(candidates: Seq<Seq<char>>, after: Seq<char>)
    requires
        after.len() > 0,
        forall|j: int| 0 <= j < candidates.len() ==> candidates[j] != after,
    ensures
        spec_skip(candidates, after).len() == 0,
    decreases candidates.len(),
{
    if candidates.len() > 0 {
        lemma_skip_absent(candidates.subrange(1, candidates.len() as int), after);
    }
}

/// Cursor resumability: in a duplicate-free candidate sequence, resuming
/// after the cursor taken from position `i` yields exactly the candidates
/// past `i` -- so a later request supplying a prior page's end cursor
/// continues immediately after it, whatever limit either request used.
pub proof fn lemma_cursor_resumes(candidates: Seq<Seq<char>>, i: int)
    requires
        distinct_keys(candidates),
        0 <= i < candidates.len(),
        candidates[i].len() > 0,
    ensures
        spec_skip(candidates, candidates[i]) == candidates.subrange(
            i + 1,
            candidates.len() as int,
        ),
{
    lemma_skip_at(candidates, candidates[i], i);
}

/// The window of candidate keys that one page shows, resumed after `after`
/// and at most `limit` long.  An empty cursor starts from the beginning; a
/// non-empty cursor absent from the candidates yields the empty window.
pub fn window_keys(candidates: &Vec<String>, after: &String, limit: usize) -> (w: Vec<String>)
    ensures
        key_views(w@) == spec_window(key_views(candidates@), after@, limit as nat),
{
    let ghost kv = key_views(candidates@);
    let mut start: usize = 0;
    if after.as_str().unicode_len() > 0 {
        let mut i: usize = 0;
        let mut found = false;
        while i < candidates.len() && !found
            invariant
                kv == key_views(candidates@),
                i <= candidates@.len(),
                !found ==> forall|j: int| 0 <= j < i ==> kv[j] != after@,
                found ==> i < candidates@.len() && kv[i as int] == after@ && (forall|j: int|
                    0 <= j < i ==> kv[j] != after@),
            decreases candidates@.len() - i + if found {
                0int
            } else {
                1int
            },
        {
            if candidates[i] == *after {
                found = true;
            } else {
                i += 1;
            }
        }
        proof {
            reveal_strlit("");
            if found {
                lemma_skip_at(kv, after@, i as int);
            } else {
                lemma_skip_absent(kv, after@);
            }
        }
        if found {
            start = i + 1;
        } else {
            start = candidates.len();
        }
    }
    proof {
        assert(spec_skip(kv, after@) =~= kv.subrange(start as int, kv.len() as int));
    }
    let mut w: Vec<String> = Vec::new();
    let mut n: usize = start;
    while n < candidates.len() && w.len() < limit
        invariant
            kv == key_views(candidates@),
            start <= n <= candidates@.len(),
            w@.len() == n - start,
            w@.len() <= limit,
            forall|j: int| 0 <= j < w@.len() ==> key_views(w@)[j] == kv[start + j],
            n - start < limit || n == candidates@.len() || w@.len() == limit,
        decreases candidates@.len() - n,
    {
        let ghost w_pre = w@;
        w.push(candidates[n].clone());
        proof {
            assert forall|j: int| 0 <= j < w@.len() implies key_views(w@)[j] == kv[start + j] by {
                if j < w_pre.len() {
                    assert(w@[j] == w_pre[j]);
                    assert(key_views(w_pre)[j] == kv[start + j]);
                } else {
                    assert(w@[j] == candidates@[n as int]);
                }
            }
        }
        n += 1;
    }
    proof {
        let rest = kv.subrange(start as int, kv.len() as int);
        assert(key_views(w@) =~= spec_window(kv, after@, limit as nat));
    }
    w
}

/// Assemble the page: one edge per window key, in window order, each edge
/// cursored by its key; `has_next_page` exactly when the window filled the
/// limit; the end cursor is the last window key, or empty for an empty
/// window.  `total_count` is the caller's count of the full candidate set.
pub fn build_page<T>(total_count: i32, window: Vec<String>, nodes: Vec<T>, limit: usize) -> (p:
    Page<T>)
    requires
        nodes@.len() == window@.len(),
    ensures
        p.total_count == total_count,
        p.edges@.len() == window@.len(),
        forall|i: int|
            0 <= i < window@.len() ==> p.edges@[i].node == nodes@[i] && p.edges@[i].cursor@
                == window@[i]@,
        p.page_info.has_next_page == (window@.len() == limit),
        window@.len() > 0 ==> p.page_info.end_cursor@ == window@.last()@,
        window@.len() == 0 ==> p.page_info.end_cursor@ == Seq::<char>::empty(),
{
    let ghost w0 = window@;
    let ghost n0 = nodes@;
    let has_next_page = window.len() == limit;
    let end_cursor = if window.len() > 0 {
        window[window.len() - 1].clone()
    } else {
        String::new()
    };
    let mut window = window;
    let mut nodes = nodes;
    let mut edges: Vec<Edge<T>> = Vec::new();
    while window.len() > 0
        invariant
            nodes@.len() == window@.len(),
            n0.len() == w0.len(),
            edges@.len() + window@.len() == w0.len(),
            window@ =~= w0.subrange(edges@.len() as int, w0.len() as int),
            nodes@ =~= n0.subrange(edges@.len() as int, n0.len() as int),
            forall|i: int|
                0 <= i < edges@.len() ==> edges@[i].node == n0[i] && edges@[i].cursor@ == w0[i]@,
        decreases window@.len(),
    {
        let cursor = window.remove(0);
        let node = nodes.remove(0);
        edges.push(Edge { node, cursor });
    }
    Page { total_count, edges, page_info: PageInfo { has_next_page, end_cursor } }
}

/// The page limit a caller asked for: the collection's default where absent,
/// and never negative.
pub open spec fn spec_limit(limit: Option<i32>, dflt: int) -> int {
    match limit {
        Some(l) => if l >= 0 {
            l as int
        } else {
            0
        },
        None => dflt,
    }
}

/// Resolve an optional requested limit against a collection's default.
pub fn effective_limit(limit: Option<i32>, dflt: u32) -> (r: usize)
    ensures
        r == spec_limit(limit, dflt as int),
{
    match limit {
        Some(l) => if l >= 0 {
            l as usize
        } else {
            0
        },
        None => dflt as usize,
    }
}

/// Assemble one page from a window of resolved keys: the taken window is
/// read back from the loader's cache in window order, each edge cursored by
/// its key, per-key failures isolated in their own edges.
pub fn page_of_loaded<V: Clone>(
    total_count: i32,
    window: Vec<String>,
    loader: &Loader<V>,
    limit: usize,
) -> (p: Page<LoadResult<V>>)
    requires
        forall|i: int| 0 <= i < window@.len() ==> loader@.cache_has(window@[i]@),
    ensures
        p.total_count == total_count,
        p.edges@.len() == window@.len(),
        forall|i: int|
            0 <= i < window@.len() ==> p.edges@[i].cursor@ == window@[i]@ && result_cloned(
                loader@.cache_at(window@[i]@),
                p.edges@[i].node,
            ),
        p.page_info.has_next_page == (window@.len() == limit),
        window@.len() > 0 ==> p.page_info.end_cursor@ == window@.last()@,
        window@.len() == 0 ==> p.page_info.end_cursor@ == Seq::<char>::empty(),
{
    let nodes = loader.get_many(&window);
    let p = build_page(total_count, window, nodes, limit);
    proof {
        assert forall|i: int|
            0 <= i < window@.len() implies p.edges@[i].cursor@ == window@[i]@ && result_cloned(
            loader@.cache_at(window@[i]@),
            p.edges@[i].node,
        ) by {
            assert(p.edges@[i].node == nodes@[i]);
            assert(result_cloned(loader@.cache_at(window@[i]@), nodes@[i]));
        }
    }
    p
}

} // verus!
