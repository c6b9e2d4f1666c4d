use vstd::prelude::*;
use crate::alignment;
use crate::alignment::{Direction, Relation};
use crate::rect::Rect;
pub use crate::window::Window;

verus! {

/// Windows placed in the plane, the position of the current one, and how distances between
/// them are measured.
pub struct Arrangement {
    pub windows: Vec<Window>,
    pub relation: Relation,
    pub current: usize,
}

/// The rectangles of `windows`, in order.
pub open spec fn rects_of(windows: Seq<Window>) -> Seq<Rect> {
    windows.map_values(|w: Window| w.rect)
}

/// Every window of `windows` has a valid rectangle.
pub open spec fn all_rects_valid(windows: Seq<Window>) -> bool {
    forall|i: int| 0 <= i < windows.len() ==> (#[trigger] windows[i]).rect.valid()
}

/// `r` is the window at the position that `k` names, or `None` with `k`.
pub open spec fn window_at(windows: Seq<Window>, k: Option<usize>, r: Option<&Window>) -> bool {
    match k {
        None => r is None,
        Some(k) => {
            &&& k < windows.len()
            &&& (r matches Some(w) && *w == windows[k as int])
        },
    }
}

impl Arrangement {
    /// The position of the current window: `current`, or the first position when `current`
    /// lies outside the windows.
    pub open spec fn current_spec(&self) -> int {
        if self.current < self.windows@.len() {
            self.current as int
        } else {
            0
        }
    }

    /// The position of the window that a movement in `direction` from the current one
    /// reaches, as `next_in_direction` defines it.
    pub open spec fn next_spec(&self, direction: Direction) -> Option<usize> {
        let props = alignment::properties_spec(self.relation, direction);
        let rects = rects_of(self.windows@);
        alignment::pick(
            rects,
            alignment::next_threshold(rects, self.current_spec(), props),
            props.axis_spec(rects[self.current_spec()]),
            props,
        )
    }

    /// The position of the outermost window in `direction` nearest to the current one
    /// across the movement, as `first_of_direction` defines it.
    pub open spec fn first_spec(&self, direction: Direction) -> Option<usize> {
        let props = alignment::properties_spec(self.relation, direction);
        let rects = rects_of(self.windows@);
        alignment::pick(
            rects,
            alignment::first_threshold(props),
            props.axis_spec(rects[self.current_spec()]),
            props,
        )
    }

    /// `windows` with the current one at `current` (the first one when `current` is missing or
    /// out of range), measured by `relation` (by borders when missing).
    pub fn new(windows: Vec<Window>, current: Option<usize>, relation: Option<Relation>) -> (r: Self)
        ensures
            r.windows == windows,
            r.relation == (match relation {
                Some(rel) => rel,
                None => Relation::Border,
            }),
            r.current == (match current {
                Some(c) => if c < windows@.len() {
                    c
                } else {
                    0
                },
                None => 0,
            }),
    {
        let relation = match relation {
            Some(rel) => rel,
            None => Relation::Border,
        };
        let current = match current {
            Some(c) => c,
            None => 0,
        };
        let current = if current < windows.len() {
            current
        } else {
            0
        };
        Arrangement { windows, relation, current }
    }

    /// The rectangles of the windows, in order.
    fn rects(&self) -> (r: Vec<Rect>)
        ensures
            r@ == rects_of(self.windows@),
    {
        let mut r: Vec<Rect> = Vec::new();
        let mut i: usize = 0;
        while i < self.windows.len()
            invariant
                i <= self.windows@.len(),
                r@ == rects_of(self.windows@.take(i as int)),
            decreases self.windows@.len() - i,
        {
            r.push(self.windows[i].rect);
            i = i + 1;
            assert(rects_of(self.windows@.take(i as int)) =~= rects_of(
                self.windows@.take(i - 1),
            ).push(self.windows@[i - 1].rect));
        }
        assert(self.windows@.take(i as int) =~= self.windows@);
        r
    }

    /// The window that a movement in `direction` from the current one reaches, as
    /// `next_in_direction` finds it; `None` when there is none, or no window at all.
    pub fn next(&self, direction: Direction) -> (r: Option<&Window>)
        requires
            all_rects_valid(self.windows@),
        ensures
            self.windows@.len() == 0 ==> r is None,
            self.windows@.len() > 0 ==> window_at(self.windows@, self.next_spec(direction), r),
    {
        if self.windows.len() == 0 {
            return None;
        }
        let current = if self.current < self.windows.len() {
            self.current
        } else {
            0
        };
        let properties = alignment::get_properties(self.relation, direction);
        let rects = self.rects();
        assert(alignment::all_valid(rects@));
        let k = alignment::next_in_direction(rects.as_slice(), current, &properties);
        let r = match k {
            None => None,
            Some(k) => Some(&self.windows[k]),
        };
        assert(window_at(self.windows@, k, r));
        r
    }

    /// The outermost window in `direction` that lies nearest to the current one across the
    /// movement, as `first_of_direction` finds it; `None` only when there is no window.
    pub fn first(&self, direction: Direction) -> (r: Option<&Window>)
        requires
            all_rects_valid(self.windows@),
        ensures
            self.windows@.len() == 0 ==> r is None,
            self.windows@.len() > 0 ==> window_at(self.windows@, self.first_spec(direction), r),
            self.windows@.len() > 0 ==> r is Some,
    {
        if self.windows.len() == 0 {
            return None;
        }
        let current = if self.current < self.windows.len() {
            self.current
        } else {
            0
        };
        let properties = alignment::get_properties(self.relation, direction);
        let rects = self.rects();
        assert(alignment::all_valid(rects@));
        let k = alignment::first_of_direction(rects.as_slice(), current, &properties);
        let r = match k {
            None => None,
            Some(k) => Some(&self.windows[k]),
        };
        assert(window_at(self.windows@, k, r));
        r
    }
}

/// On windows that tile a grid and are measured by their borders, asking the arrangement
/// for the outermost window in `direction`, and then an arrangement of the same windows
/// whose current window is that one for the outermost window in the opposite direction,
/// comes back in line with the first current window: in its row for left and right, in its
/// column for up and down.
pub proof fn lemma_first_round_trip_on_grid(
    a: Arrangement,
    b: Arrangement,
    direction: Direction,
    rows: int,
    cols: int,
    w: int,
    h: int,
    there: usize,
    back: usize,
)
    requires
        alignment::is_grid(rects_of(a.windows@), rows, cols, w, h),
        a.relation == Relation::Border,
        b.relation == Relation::Border,
        b.windows@ == a.windows@,
        a.first_spec(direction) == Some(there),
        b.current == there,
        b.first_spec(alignment::opposite(direction)) == Some(back),
    ensures
        alignment::properties_spec(Relation::Border, direction).axis_spec(
            a.windows@[back as int].rect,
        ) == alignment::properties_spec(Relation::Border, direction).axis_spec(
            a.windows@[a.current_spec()].rect,
        ),
{
    let rects = rects_of(a.windows@);
    let p = alignment::properties_spec(Relation::Border, direction);
    let q = alignment::properties_spec(Relation::Border, alignment::opposite(direction));
    let t1 = alignment::first_threshold(p);
    let t2 = alignment::first_threshold(q);
    let c1 = p.axis_spec(rects[a.current_spec()]);
    assert(alignment::picks_first_best(rects, t1, c1, p, Some(there)));
    assert(b.current_spec() == there as int);
    let c2 = q.axis_spec(rects[there as int]);
    assert(alignment::picks_first_best(rects, t2, c2, q, Some(back)));
    alignment::lemma_grid_round_trip(rects, rows, cols, w, h, direction, a.current_spec(), there, back);
}

} // verus!
