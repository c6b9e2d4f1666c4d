use vstd::prelude::*;
use crate::alignment::Relation;
use crate::arrangement::Arrangement;
use crate::linear::Sequence;
use crate::window::{Window, Windows};

verus! {

/// The windows of `ws` whose floating flag equals `floating`, in order.
pub open spec fn with_floating(ws: Seq<Window>, floating: bool) -> Seq<Window>
    decreases ws.len(),
{
    if ws.len() == 0 {
        Seq::empty()
    } else {
        let rest = with_floating(ws.subrange(0, ws.len() - 1), floating);
        if ws[ws.len() - 1].floating == floating {
            rest.push(ws[ws.len() - 1])
        } else {
            rest
        }
    }
}

/// Some window of `ws` holds the focus.
pub open spec fn any_focused_spec(ws: Seq<Window>) -> bool {
    exists|i: int| 0 <= i < ws.len() && (#[trigger] ws[i]).focused
}

/// The first position of a focused window in `ws`.
pub open spec fn focused_index_spec(ws: Seq<Window>) -> Option<int>
    decreases ws.len(),
{
    if ws.len() == 0 {
        None
    } else {
        match focused_index_spec(ws.subrange(0, ws.len() - 1)) {
            Some(i) => Some(i),
            None => if ws[ws.len() - 1].focused {
                Some(ws.len() - 1)
            } else {
                None
            },
        }
    }
}

/// The position of the focused window, or the first position when no window holds the focus.
pub open spec fn current_of(ws: Seq<Window>) -> int {
    match focused_index_spec(ws) {
        Some(i) => i,
        None => 0,
    }
}

/// The identifiers of `ws`, in order.
pub open spec fn ids_of(ws: Seq<Window>) -> Seq<u64> {
    ws.map_values(|w: Window| w.id)
}

/// `ws` with `w` placed after every window whose left edge is at or left of that of `w`,
/// when `ws` is sorted by left edge.
pub open spec fn insert_by_x(ws: Seq<Window>, w: Window) -> Seq<Window>
    decreases ws.len(),
{
    if ws.len() == 0 {
        seq![w]
    } else if ws[ws.len() - 1].rect.x <= w.rect.x {
        ws.push(w)
    } else {
        insert_by_x(ws.subrange(0, ws.len() - 1), w).push(ws[ws.len() - 1])
    }
}

/// `ws` sorted by left edge, windows with equal left edges kept in their order.
pub open spec fn sort_by_x(ws: Seq<Window>) -> Seq<Window>
    decreases ws.len(),
{
    if ws.len() == 0 {
        ws
    } else {
        insert_by_x(sort_by_x(ws.subrange(0, ws.len() - 1)), ws[ws.len() - 1])
    }
}

proof fn lemma_focused_index(ws: Seq<Window>)
    ensures
        match focused_index_spec(ws) {
            Some(i) => 0 <= i < ws.len() && ws[i].focused && forall|j: int|
                0 <= j < i ==> !(#[trigger] ws[j]).focused,
            None => forall|j: int| 0 <= j < ws.len() ==> !(#[trigger] ws[j]).focused,
        },
    decreases ws.len(),
{
    if ws.len() > 0 {
        let t = ws.subrange(0, ws.len() - 1);
        lemma_focused_index(t);
        assert forall|j: int| 0 <= j < t.len() implies t[j] == ws[j] by {}
    }
}

/// Inserting at the position after the last window at or left of `w` (the first position
/// when there is none), where every window from that position on lies right of `w`, gives
/// the sorted insertion.
proof fn lemma_insert_by_x(ws: Seq<Window>, w: Window, k: int)
    requires
        0 <= k <= ws.len(),
        k == 0 || ws[k - 1].rect.x <= w.rect.x,
        forall|j: int| k <= j < ws.len() ==> (#[trigger] ws[j]).rect.x > w.rect.x,
    ensures
        insert_by_x(ws, w) == ws.insert(k, w),
    decreases ws.len(),
{
    if ws.len() == 0 {
        assert(ws.insert(k, w) =~= seq![w]);
    } else if ws[ws.len() - 1].rect.x <= w.rect.x {
        assert(k == ws.len());
        assert(ws.insert(k, w) =~= ws.push(w));
    } else {
        let t = ws.subrange(0, ws.len() - 1);
        lemma_insert_by_x(t, w, k);
        assert(insert_by_x(ws, w) =~= ws.insert(k, w));
    }
}

/// The windows are in order of their left edges.
pub open spec fn is_sorted_by_x(ws: Seq<Window>) -> bool {
    forall|i: int, j: int| 0 <= i < j < ws.len() ==> #[trigger] ws[i].rect.x <= #[trigger] ws[j].rect.x
}

proof fn lemma_insert_by_x_sorted(ws: Seq<Window>, w: Window)
    requires
        is_sorted_by_x(ws),
    ensures
        is_sorted_by_x(insert_by_x(ws, w)),
        insert_by_x(ws, w).len() == ws.len() + 1,
        forall|i: int|
            0 <= i < insert_by_x(ws, w).len() ==> #[trigger] insert_by_x(ws, w)[i] == w || ws.contains(
                insert_by_x(ws, w)[i],
            ),
    decreases ws.len(),
{
    if ws.len() > 0 && ws[ws.len() - 1].rect.x > w.rect.x {
        let t = ws.subrange(0, ws.len() - 1);
        lemma_insert_by_x_sorted(t, w);
        let r = insert_by_x(ws, w);
        let rt = insert_by_x(t, w);
        assert forall|i: int| 0 <= i < rt.len() implies #[trigger] rt[i].rect.x <= ws[ws.len() - 1].rect.x by {
            if rt[i] != w {
                let j = choose|j: int| 0 <= j < t.len() && t[j] == rt[i];
                assert(ws[j] == t[j]);
            }
        }
        assert forall|i: int| 0 <= i < r.len() implies #[trigger] r[i] == w || ws.contains(r[i]) by {
            if i < rt.len() && rt[i] != w {
                let j = choose|j: int| 0 <= j < t.len() && t[j] == rt[i];
                assert(ws[j] == t[j]);
            } else if i == rt.len() {
                assert(ws[ws.len() - 1] == r[i]);
            }
        }
    } else if ws.len() > 0 {
        let r = insert_by_x(ws, w);
        assert forall|i: int| 0 <= i < r.len() implies #[trigger] r[i] == w || ws.contains(r[i]) by {
            if i < ws.len() {
                assert(ws[i] == r[i]);
            }
        }
    }
}

/// Sorting by left edge gives the windows in order of their left edges, as many as there
/// were.
pub proof fn lemma_sort_by_x_sorted(ws: Seq<Window>)
    ensures
        is_sorted_by_x(sort_by_x(ws)),
        sort_by_x(ws).len() == ws.len(),
    decreases ws.len(),
{
    if ws.len() > 0 {
        lemma_sort_by_x_sorted(ws.subrange(0, ws.len() - 1));
        lemma_insert_by_x_sorted(sort_by_x(ws.subrange(0, ws.len() - 1)), ws[ws.len() - 1]);
    }
}

/// The windows of `ws` whose left edge is at `x`, in order.
pub open spec fn with_x(ws: Seq<Window>, x: i32) -> Seq<Window>
    decreases ws.len(),
{
    if ws.len() == 0 {
        Seq::empty()
    } else {
        let rest = with_x(ws.subrange(0, ws.len() - 1), x);
        if ws[ws.len() - 1].rect.x == x {
            rest.push(ws[ws.len() - 1])
        } else {
            rest
        }
    }
}

proof fn lemma_with_x_push(ws: Seq<Window>, w: Window, x: i32)
    ensures
        with_x(ws.push(w), x) == if w.rect.x == x {
            with_x(ws, x).push(w)
        } else {
            with_x(ws, x)
        },
{
    assert(ws.push(w).subrange(0, ws.len() as int) =~= ws);
}

proof fn lemma_insert_by_x_with_x(ws: Seq<Window>, w: Window, x: i32)
    ensures
        with_x(insert_by_x(ws, w), x) == if w.rect.x == x {
            with_x(ws, x).push(w)
        } else {
            with_x(ws, x)
        },
    decreases ws.len(),
{
    if ws.len() == 0 {
        lemma_with_x_push(ws, w, x);
        assert(seq![w] =~= ws.push(w));
    } else if ws[ws.len() - 1].rect.x <= w.rect.x {
        lemma_with_x_push(ws, w, x);
    } else {
        let t = ws.subrange(0, ws.len() - 1);
        let last = ws[ws.len() - 1];
        lemma_insert_by_x_with_x(t, w, x);
        lemma_with_x_push(insert_by_x(t, w), last, x);
        assert(t.push(last) =~= ws);
        lemma_with_x_push(t, last, x);
    }
}

proof fn lemma_insert_by_x_multiset(ws: Seq<Window>, w: Window)
    ensures
        insert_by_x(ws, w).to_multiset() == ws.to_multiset().insert(w),
    decreases ws.len(),
{
    broadcast use vstd::seq_lib::to_multiset_build, vstd::multiset::group_multiset_axioms;

    if ws.len() == 0 {
        assert(seq![w] =~= ws.push(w));
    } else if ws[ws.len() - 1].rect.x > w.rect.x {
        let t = ws.subrange(0, ws.len() - 1);
        let last = ws[ws.len() - 1];
        lemma_insert_by_x_multiset(t, w);
        assert(t.push(last) =~= ws);
        assert(insert_by_x(ws, w).to_multiset() =~= ws.to_multiset().insert(w));
    }
}

/// Sorting by left edge only rearranges the windows: each occurs as often as before.
pub proof fn lemma_sort_by_x_rearranges(ws: Seq<Window>)
    ensures
        sort_by_x(ws).to_multiset() == ws.to_multiset(),
    decreases ws.len(),
{
    broadcast use vstd::seq_lib::to_multiset_build;

    if ws.len() > 0 {
        let t = ws.subrange(0, ws.len() - 1);
        let last = ws[ws.len() - 1];
        lemma_sort_by_x_rearranges(t);
        lemma_insert_by_x_multiset(sort_by_x(t), last);
        assert(t.push(last) =~= ws);
    }
}

/// Sorting by left edge is stable: for every left edge, the windows at that edge come in the
/// same order before and after. With `lemma_sort_by_x_sorted` and
/// `lemma_sort_by_x_rearranges`, the result is the input rearranged in order of left edges,
/// windows with equal left edges kept in their order.
pub proof fn lemma_sort_by_x_stable(ws: Seq<Window>, x: i32)
    ensures
        with_x(sort_by_x(ws), x) == with_x(ws, x),
    decreases ws.len(),
{
    if ws.len() > 0 {
        let t = ws.subrange(0, ws.len() - 1);
        let last = ws[ws.len() - 1];
        lemma_sort_by_x_stable(t, x);
        lemma_insert_by_x_with_x(sort_by_x(t), last, x);
        assert(t.push(last) =~= ws);
        lemma_with_x_push(t, last, x);
    }
}

/// The windows of `windows` whose floating flag equals `floating`, in order.
fn select(windows: &Windows, floating: bool) -> (r: Windows)
    ensures
        r@ == with_floating(windows@, floating),
{
    let mut r: Windows = Vec::new();
    let mut i: usize = 0;
    while i < windows.len()
        invariant
            i <= windows@.len(),
            r@ == with_floating(windows@.take(i as int), floating),
        decreases windows@.len() - i,
    {
        if windows[i].floating == floating {
            r.push(windows[i]);
        }
        i = i + 1;
        proof {
            let t = windows@.take(i as int);
            assert(t.subrange(0, t.len() - 1) =~= windows@.take(i - 1));
        }
    }
    assert(windows@.take(i as int) =~= windows@);
    r
}

/// The floating windows, in order.
pub fn floating(windows: &Windows) -> (r: Windows)
    ensures
        r@ == with_floating(windows@, true),
{
    select(windows, true)
}

/// The tiled windows, in order.
pub fn tiled(windows: &Windows) -> (r: Windows)
    ensures
        r@ == with_floating(windows@, false),
{
    select(windows, false)
}

/// Whether some window holds the focus.
pub fn any_focused(windows: &Windows) -> (r: bool)
    ensures
        r == any_focused_spec(windows@),
{
    let mut i: usize = 0;
    while i < windows.len()
        invariant
            i <= windows@.len(),
            forall|j: int| 0 <= j < i ==> !(#[trigger] windows@[j]).focused,
        decreases windows@.len() - i,
    {
        if windows[i].focused {
            return true;
        }
        i = i + 1;
    }
    false
}

/// The position of the first focused window, if any.
pub fn focused_index(windows: &Windows) -> (r: Option<usize>)
    ensures
        match r {
            Some(i) => focused_index_spec(windows@) == Some(i as int),
            None => focused_index_spec(windows@) is None,
        },
{
    proof {
        lemma_focused_index(windows@);
    }
    let mut i: usize = 0;
    while i < windows.len()
        invariant
            i <= windows@.len(),
            forall|j: int| 0 <= j < i ==> !(#[trigger] windows@[j]).focused,
            match focused_index_spec(windows@) {
                Some(k) => 0 <= k < windows@.len() && windows@[k].focused && forall|j: int|
                    0 <= j < k ==> !(#[trigger] windows@[j]).focused,
                None => forall|j: int| 0 <= j < windows@.len() ==> !(#[trigger] windows@[j]).focused,
            },
        decreases windows@.len() - i,
    {
        if windows[i].focused {
            return Some(i);
        }
        i = i + 1;
    }
    None
}

/// The windows sorted by left edge; windows with equal left edges keep their order.
pub fn sorted_by_x(windows: &Windows) -> (r: Windows)
    ensures
        r@ == sort_by_x(windows@),
{
    let mut r: Windows = Vec::new();
    let mut i: usize = 0;
    while i < windows.len()
        invariant
            i <= windows@.len(),
            r@ == sort_by_x(windows@.take(i as int)),
        decreases windows@.len() - i,
    {
        let w = windows[i];
        let mut k: usize = r.len();
        while k > 0 && r[k - 1].rect.x > w.rect.x
            invariant
                k <= r@.len(),
                forall|j: int| k <= j < r@.len() ==> (#[trigger] r@[j]).rect.x > w.rect.x,
            decreases k,
        {
            k = k - 1;
        }
        proof {
            lemma_insert_by_x(r@, w, k as int);
            let t = windows@.take(i + 1);
            assert(t.subrange(0, t.len() - 1) =~= windows@.take(i as int));
        }
        r.insert(k, w);
        i = i + 1;
    }
    assert(windows@.take(i as int) =~= windows@);
    r
}

/// An arrangement of `windows` measured by `relation`, whose current window is the focused
/// one, or the first one when none holds the focus.
pub fn as_arrangement(windows: Windows, relation: Relation) -> (r: Arrangement)
    ensures
        r.windows@ == windows@,
        r.relation == relation,
        r.current == current_of(windows@),
{
    proof {
        lemma_focused_index(windows@);
    }
    let current = match focused_index(&windows) {
        Some(i) => i,
        None => 0,
    };
    Arrangement::new(windows, Some(current), Some(relation))
}

/// The sequence of the identifiers of `windows`, whose current one is that of the focused
/// window, or the first one when none holds the focus.
pub fn as_sequence(windows: &Windows) -> (r: Sequence)
    ensures
        r.items_spec() == ids_of(windows@),
        r.current_spec() == current_of(windows@),
{
    proof {
        lemma_focused_index(windows@);
    }
    let focused = match focused_index(windows) {
        Some(i) => i,
        None => 0,
    };
    let mut ids: Vec<u64> = Vec::new();
    let mut i: usize = 0;
    while i < windows.len()
        invariant
            i <= windows@.len(),
            ids@ =~= ids_of(windows@.take(i as int)),
        decreases windows@.len() - i,
    {
        ids.push(windows[i].id);
        i = i + 1;
        assert(ids@ =~= ids_of(windows@.take(i as int)));
    }
    assert(windows@.take(i as int) =~= windows@);
    Sequence::new(ids, focused)
}

/// The current position of a non-empty list of windows is one of its positions.
pub proof fn lemma_current_of(ws: Seq<Window>)
    ensures
        ws.len() > 0 ==> 0 <= current_of(ws) < ws.len(),
{
    lemma_focused_index(ws);
}

/// Selecting windows by their floating flag keeps only windows of the list.
pub proof fn lemma_with_floating_from(ws: Seq<Window>, floating: bool)
    ensures
        forall|i: int|
            0 <= i < with_floating(ws, floating).len() ==> exists|j: int|
                0 <= j < ws.len() && ws[j] == #[trigger] with_floating(ws, floating)[i],
    decreases ws.len(),
{
    if ws.len() > 0 {
        let t = ws.subrange(0, ws.len() - 1);
        lemma_with_floating_from(t, floating);
        let r = with_floating(ws, floating);
        assert forall|i: int| 0 <= i < r.len() implies exists|j: int|
            0 <= j < ws.len() && ws[j] == #[trigger] r[i] by {
            if i < with_floating(t, floating).len() {
                let j = choose|j: int| 0 <= j < t.len() && t[j] == with_floating(t, floating)[i];
                assert(ws[j] == r[i]);
            } else {
                assert(ws[ws.len() - 1] == r[i]);
            }
        }
    }
}

} // verus!
