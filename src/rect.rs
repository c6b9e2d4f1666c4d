use vstd::prelude::*;

verus! {

/// An axis-aligned rectangle given by its top-left corner `(x, y)`, its width `w` and its
/// height `h`.
#[derive(Debug, Clone, Copy, PartialEq, Eq, Structural)]
pub struct Rect {
    pub x: i32,
    pub y: i32,
    pub w: i32,
    pub h: i32,
}

impl Rect {
    /// The left edge, as a mathematical integer.
    pub open spec fn left_spec(self) -> int {
        self.x as int
    }

    /// The right edge, as a mathematical integer.
    pub open spec fn right_spec(self) -> int {
        self.x + self.w
    }

    /// The top edge, as a mathematical integer.
    pub open spec fn top_spec(self) -> int {
        self.y as int
    }

    /// The bottom edge, as a mathematical integer.
    pub open spec fn bottom_spec(self) -> int {
        self.y + self.h
    }

    /// The middle of the vertical extent (floor of half the height below the top).
    pub open spec fn vertical_middle_spec(self) -> int {
        self.y + self.h / 2
    }

    /// The middle of the horizontal extent (floor of half the width right of the left edge).
    pub open spec fn horizontal_middle_spec(self) -> int {
        self.x + self.w / 2
    }

    /// A rectangle has a non-negative size, and its far edges are representable as `i32`.
    pub open spec fn valid(self) -> bool {
        &&& 0 <= self.w
        &&& 0 <= self.h
        &&& self.x + self.w <= i32::MAX
        &&& self.y + self.h <= i32::MAX
    }

    /// A rectangle of zero width and zero height is invisible.
    pub open spec fn is_invisible_spec(self) -> bool {
        self.w == 0 && self.h == 0
    }

    pub fn left(&self) -> (r: i32)
        ensures
            r == self.left_spec(),
    {
        self.x
    }

    pub fn right(&self) -> (r: i32)
        requires
            self.valid(),
        ensures
            r == self.right_spec(),
    {
        self.x + self.w
    }

    pub fn top(&self) -> (r: i32)
        ensures
            r == self.top_spec(),
    {
        self.y
    }

    pub fn bottom(&self) -> (r: i32)
        requires
            self.valid(),
        ensures
            r == self.bottom_spec(),
    {
        self.y + self.h
    }

    pub fn vertical_middle(&self) -> (r: i32)
        requires
            self.valid(),
        ensures
            r == self.vertical_middle_spec(),
    {
        self.y + self.h / 2
    }

    pub fn horizontal_middle(&self) -> (r: i32)
        requires
            self.valid(),
        ensures
            r == self.horizontal_middle_spec(),
    {
        self.x + self.w / 2
    }
}

/// Moves `rect` by `dx` to the right and `dy` down.
pub fn translate_rect(rect: &mut Rect, dx: i32, dy: i32)
    requires
        i32::MIN <= old(rect).x + dx <= i32::MAX,
        i32::MIN <= old(rect).y + dy <= i32::MAX,
    ensures
        *final(rect) == (Rect { x: (old(rect).x + dx) as i32, y: (old(rect).y + dy) as i32, ..*old(rect) }),
{
    rect.x = rect.x + dx;
    rect.y = rect.y + dy;
}

/// For a rectangle of non-negative size the far edges lie at or beyond the near edges, and
/// the middles sit at the floor of half the size from the near edges: an odd size loses its
/// last unit.
pub proof fn lemma_extents(r: Rect)
    requires
        r.w >= 0,
        r.h >= 0,
    ensures
        r.right_spec() >= r.left_spec(),
        r.bottom_spec() >= r.top_spec(),
        r.left_spec() <= r.horizontal_middle_spec() <= r.right_spec(),
        r.top_spec() <= r.vertical_middle_spec() <= r.bottom_spec(),
        2 * (r.horizontal_middle_spec() - r.left_spec()) + r.w % 2 == r.w,
        2 * (r.vertical_middle_spec() - r.top_spec()) + r.h % 2 == r.h,
{
}

} // verus!
