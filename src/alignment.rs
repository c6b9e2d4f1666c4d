use vstd::prelude::*;
use crate::rect::Rect;
use vstd::arithmetic::mul::{lemma_mul_inequality, lemma_mul_nonnegative};

verus! {

/// A direction of movement in the plane.
#[derive(Debug, Clone, Copy, PartialEq, Eq, Structural)]
pub enum Direction {
    Left,
    Right,
    Up,
    Down,
}

/// How distances between rectangles are measured.
#[derive(Debug, Clone, Copy, PartialEq, Eq, Structural)]
pub enum Relation {
    /// From the edge of one rectangle that faces the movement to the facing edge of another.
    Border,
    /// Between the centers of the rectangles.
    Center,
}

/// One of the projections of a rectangle on an axis.
#[derive(Debug, Clone, Copy, PartialEq, Eq, Structural)]
pub enum Extent {
    Left,
    Right,
    Top,
    Bottom,
    VerticalMiddle,
    HorizontalMiddle,
}

/// The order that a search follows: `AtMost` searches towards smaller coordinates and keeps
/// the largest of them, `AtLeast` searches towards larger coordinates and keeps the smallest.
#[derive(Debug, Clone, Copy, PartialEq, Eq, Structural)]
pub enum Comparison {
    AtMost,
    AtLeast,
}

/// The projections that a directional search works with: the edge of a candidate that
/// faces the movement (`near`), the edge of the origin that the movement leaves from
/// (`far`), the position across the movement (`axis`), and the order of the search.
#[derive(Debug, Clone, Copy, PartialEq, Eq, Structural)]
pub struct Properties {
    pub near: Extent,
    pub far: Extent,
    pub axis: Extent,
    pub comp: Comparison,
}

/// The value of a projection of a rectangle.
pub open spec fn extent_spec(e: Extent, r: Rect) -> int {
    match e {
        Extent::Left => r.left_spec(),
        Extent::Right => r.right_spec(),
        Extent::Top => r.top_spec(),
        Extent::Bottom => r.bottom_spec(),
        Extent::VerticalMiddle => r.vertical_middle_spec(),
        Extent::HorizontalMiddle => r.horizontal_middle_spec(),
    }
}

/// Whether `a` lies on the searched side of `b` (or equals it).
pub open spec fn comp_spec(c: Comparison, a: int, b: int) -> bool {
    match c {
        Comparison::AtMost => a <= b,
        Comparison::AtLeast => a >= b,
    }
}

impl Extent {
    /// The value of this projection of `r`.
    pub fn of(&self, r: &Rect) -> (v: i32)
        requires
            r.valid(),
        ensures
            v == extent_spec(*self, *r),
    {
        match self {
            Extent::Left => r.left(),
            Extent::Right => r.right(),
            Extent::Top => r.top(),
            Extent::Bottom => r.bottom(),
            Extent::VerticalMiddle => r.vertical_middle(),
            Extent::HorizontalMiddle => r.horizontal_middle(),
        }
    }
}

/// Is less than or equal.
pub fn le(a: i32, b: i32) -> (r: bool)
    ensures
        r == (a <= b),
{
    a <= b
}

/// Is greater than or equal.
pub fn ge(a: i32, b: i32) -> (r: bool)
    ensures
        r == (a >= b),
{
    a >= b
}

impl Comparison {
    /// Whether `a` lies on the searched side of `b` (or equals it).
    pub fn holds(&self, a: i32, b: i32) -> (r: bool)
        ensures
            r == comp_spec(*self, a as int, b as int),
    {
        match self {
            Comparison::AtMost => le(a, b),
            Comparison::AtLeast => ge(a, b),
        }
    }
}

/// The entry of the table of projections for `relation` and `direction`.
pub open spec fn properties_spec(relation: Relation, direction: Direction) -> Properties {
    match (relation, direction) {
        (Relation::Border, Direction::Left) => Properties {
            near: Extent::Right,
            far: Extent::Left,
            axis: Extent::VerticalMiddle,
            comp: Comparison::AtMost,
        },
        (Relation::Border, Direction::Right) => Properties {
            near: Extent::Left,
            far: Extent::Right,
            axis: Extent::VerticalMiddle,
            comp: Comparison::AtLeast,
        },
        (Relation::Border, Direction::Up) => Properties {
            near: Extent::Bottom,
            far: Extent::Top,
            axis: Extent::HorizontalMiddle,
            comp: Comparison::AtMost,
        },
        (Relation::Border, Direction::Down) => Properties {
            near: Extent::Top,
            far: Extent::Bottom,
            axis: Extent::HorizontalMiddle,
            comp: Comparison::AtLeast,
        },
        (Relation::Center, Direction::Left) => Properties {
            near: Extent::HorizontalMiddle,
            far: Extent::HorizontalMiddle,
            axis: Extent::VerticalMiddle,
            comp: Comparison::AtMost,
        },
        (Relation::Center, Direction::Right) => Properties {
            near: Extent::HorizontalMiddle,
            far: Extent::HorizontalMiddle,
            axis: Extent::VerticalMiddle,
            comp: Comparison::AtLeast,
        },
        (Relation::Center, Direction::Up) => Properties {
            near: Extent::VerticalMiddle,
            far: Extent::VerticalMiddle,
            axis: Extent::HorizontalMiddle,
            comp: Comparison::AtMost,
        },
        (Relation::Center, Direction::Down) => Properties {
            near: Extent::VerticalMiddle,
            far: Extent::VerticalMiddle,
            axis: Extent::HorizontalMiddle,
            comp: Comparison::AtLeast,
        },
    }
}

impl Properties {
    pub fn new(near: Extent, far: Extent, axis: Extent, comp: Comparison) -> (r: Self)
        ensures
            r == (Properties { near, far, axis, comp }),
    {
        Properties { near, far, axis, comp }
    }

    /// The edge of `r` that faces the movement.
    pub open spec fn near_spec(self, r: Rect) -> int {
        extent_spec(self.near, r)
    }

    /// The edge of `r` that a movement leaves from.
    pub open spec fn far_spec(self, r: Rect) -> int {
        extent_spec(self.far, r)
    }

    /// The position of `r` across the movement.
    pub open spec fn axis_spec(self, r: Rect) -> int {
        extent_spec(self.axis, r)
    }

    /// Whether `a` lies on the searched side of `b` (or equals it).
    pub open spec fn comp_spec(self, a: int, b: int) -> bool {
        comp_spec(self.comp, a, b)
    }

    pub fn near(&self, r: &Rect) -> (v: i32)
        requires
            r.valid(),
        ensures
            v == self.near_spec(*r),
    {
        self.near.of(r)
    }

    pub fn far(&self, r: &Rect) -> (v: i32)
        requires
            r.valid(),
        ensures
            v == self.far_spec(*r),
    {
        self.far.of(r)
    }

    pub fn axis(&self, r: &Rect) -> (v: i32)
        requires
            r.valid(),
        ensures
            v == self.axis_spec(*r),
    {
        self.axis.of(r)
    }

    pub fn comp(&self, a: i32, b: i32) -> (r: bool)
        ensures
            r == self.comp_spec(a as int, b as int),
    {
        self.comp.holds(a, b)
    }
}

/// The projections for a movement in `direction` with distances measured by `relation`.
pub fn get_properties(relation: Relation, direction: Direction) -> (r: Properties)
    ensures
        r == properties_spec(relation, direction),
{
    match (relation, direction) {
        (Relation::Border, Direction::Left) => Properties::new(
            Extent::Right,
            Extent::Left,
            Extent::VerticalMiddle,
            Comparison::AtMost,
        ),
        (Relation::Border, Direction::Right) => Properties::new(
            Extent::Left,
            Extent::Right,
            Extent::VerticalMiddle,
            Comparison::AtLeast,
        ),
        (Relation::Border, Direction::Up) => Properties::new(
            Extent::Bottom,
            Extent::Top,
            Extent::HorizontalMiddle,
            Comparison::AtMost,
        ),
        (Relation::Border, Direction::Down) => Properties::new(
            Extent::Top,
            Extent::Bottom,
            Extent::HorizontalMiddle,
            Comparison::AtLeast,
        ),
        (Relation::Center, Direction::Left) => Properties::new(
            Extent::HorizontalMiddle,
            Extent::HorizontalMiddle,
            Extent::VerticalMiddle,
            Comparison::AtMost,
        ),
        (Relation::Center, Direction::Right) => Properties::new(
            Extent::HorizontalMiddle,
            Extent::HorizontalMiddle,
            Extent::VerticalMiddle,
            Comparison::AtLeast,
        ),
        (Relation::Center, Direction::Up) => Properties::new(
            Extent::VerticalMiddle,
            Extent::VerticalMiddle,
            Extent::HorizontalMiddle,
            Comparison::AtMost,
        ),
        (Relation::Center, Direction::Down) => Properties::new(
            Extent::VerticalMiddle,
            Extent::VerticalMiddle,
            Extent::HorizontalMiddle,
            Comparison::AtLeast,
        ),
    }
}

/// Every rectangle of `rects` is valid.
pub open spec fn all_valid(rects: Seq<Rect>) -> bool {
    forall|i: int| 0 <= i < rects.len() ==> (#[trigger] rects[i]).valid()
}

/// The rectangle at `i` lies on the searched side of `at_least`.
pub open spec fn is_candidate(rects: Seq<Rect>, at_least: int, props: Properties, i: int) -> bool {
    props.comp_spec(props.near_spec(rects[i]), at_least)
}

/// The rectangle at `i` is a candidate whose near edge is as close to `at_least` as that of
/// any other candidate.
pub open spec fn is_closest(rects: Seq<Rect>, at_least: int, props: Properties, i: int) -> bool {
    &&& 0 <= i < rects.len()
    &&& is_candidate(rects, at_least, props, i)
    &&& forall|j: int|
        0 <= j < rects.len() && #[trigger] is_candidate(rects, at_least, props, j)
            ==> props.comp_spec(props.near_spec(rects[j]), props.near_spec(rects[i]))
}

/// How far the rectangle `r` lies from the position `close_to` across the movement.
pub open spec fn distance(props: Properties, r: Rect, close_to: int) -> int {
    let d = props.axis_spec(r) - close_to;
    if d < 0 {
        -d
    } else {
        d
    }
}

/// The rectangle at `i` lies no further from `close_to` across the movement than any other.
pub open spec fn is_aligned(rects: Seq<Rect>, close_to: int, props: Properties, i: int) -> bool {
    &&& 0 <= i < rects.len()
    &&& forall|j: int|
        0 <= j < rects.len() ==> distance(props, rects[i], close_to) <= #[trigger] distance(
            props,
            rects[j],
            close_to,
        )
}

/// The rectangle at `i` is among the closest ones past `at_least`, and among those it lies
/// nearest to `close_to` across the movement.
pub open spec fn is_best(
    rects: Seq<Rect>,
    at_least: int,
    close_to: int,
    props: Properties,
    i: int,
) -> bool {
    &&& is_closest(rects, at_least, props, i)
    &&& forall|j: int|
        #[trigger] is_closest(rects, at_least, props, j) ==> distance(props, rects[i], close_to)
            <= distance(props, rects[j], close_to)
}

/// `r` is the first position of a best rectangle, or `None` when no rectangle lies past
/// `at_least`.
pub open spec fn picks_first_best(
    rects: Seq<Rect>,
    at_least: int,
    close_to: int,
    props: Properties,
    r: Option<usize>,
) -> bool {
    match r {
        None => forall|i: int| !#[trigger] is_closest(rects, at_least, props, i),
        Some(k) => {
            &&& is_best(rects, at_least, close_to, props, k as int)
            &&& forall|j: int| 0 <= j < k ==> !#[trigger] is_best(rects, at_least, close_to, props, j)
        },
    }
}

/// `r` lists, in increasing order and once each, exactly the positions of the closest
/// rectangles past `at_least`.
pub open spec fn lists_closest(r: Seq<usize>, rects: Seq<Rect>, at_least: int, props: Properties) -> bool {
    &&& forall|k: int| 0 <= k < r.len() ==> is_closest(rects, at_least, props, #[trigger] r[k] as int)
    &&& forall|k: int, m: int| 0 <= k < m < r.len() ==> #[trigger] r[k] < #[trigger] r[m]
    &&& forall|i: int| #[trigger] is_closest(rects, at_least, props, i) ==> r.contains(i as usize)
}

/// `r` lists, in increasing order and once each, exactly the positions of the rectangles
/// that lie nearest to `close_to` across the movement.
pub open spec fn lists_aligned(r: Seq<usize>, rects: Seq<Rect>, close_to: int, props: Properties) -> bool {
    &&& forall|k: int| 0 <= k < r.len() ==> is_aligned(rects, close_to, props, #[trigger] r[k] as int)
    &&& forall|k: int, m: int| 0 <= k < m < r.len() ==> #[trigger] r[k] < #[trigger] r[m]
    &&& forall|i: int| #[trigger] is_aligned(rects, close_to, props, i) ==> r.contains(i as usize)
}

/// Finds the positions of the rectangles whose near edge lies past `at_least` and as close
/// to it as any: all of them, ties included, in input order.
pub fn closest_in_direction(rects: &[Rect], at_least: i32, props: &Properties) -> (r: Vec<usize>)
    requires
        all_valid(rects@),
    ensures
        lists_closest(r@, rects@, at_least as int, *props),
        (exists|i: int| 0 <= i < rects@.len() && is_candidate(rects@, at_least as int, *props, i))
            ==> r@.len() > 0,
{
    let n = rects.len();
    let mut best: Option<i32> = None;
    let mut i: usize = 0;
    while i < n
        invariant
            n == rects@.len(),
            i <= n,
            all_valid(rects@),
            best is None ==> forall|j: int|
                0 <= j < i ==> !#[trigger] is_candidate(rects@, at_least as int, *props, j),
            best matches Some(b) ==> {
                &&& exists|j: int|
                    0 <= j < i && #[trigger] is_candidate(rects@, at_least as int, *props, j)
                        && props.near_spec(rects@[j]) == b
                &&& forall|j: int|
                    0 <= j < i && #[trigger] is_candidate(rects@, at_least as int, *props, j)
                        ==> props.comp_spec(props.near_spec(rects@[j]), b as int)
            },
        decreases n - i,
    {
        let near = props.near(&rects[i]);
        if props.comp(near, at_least) {
            match best {
                None => {
                    best = Some(near);
                },
                Some(b) => {
                    if !props.comp(near, b) {
                        best = Some(near);
                    }
                },
            }
            assert(is_candidate(rects@, at_least as int, *props, i as int));
        }
        proof {
            if let Some(b) = best {
                let w = choose|w: int|
                    0 <= w < i + 1 && #[trigger] is_candidate(rects@, at_least as int, *props, w)
                        && props.near_spec(rects@[w]) == b;
            }
        }
        i = i + 1;
    }
    let mut r: Vec<usize> = Vec::new();
    match best {
        None => {
            assert forall|j: int| 0 <= j < n implies !is_closest(rects@, at_least as int, *props, j) by {
            }
        },
        Some(b) => {
            assert forall|j: int|
                0 <= j < n implies (is_closest(rects@, at_least as int, *props, j) <==> (
                is_candidate(rects@, at_least as int, *props, j) && props.near_spec(rects@[j])
                    == b)) by {
                if is_closest(rects@, at_least as int, *props, j) {
                    let w = choose|w: int|
                        0 <= w < n && #[trigger] is_candidate(rects@, at_least as int, *props, w)
                            && props.near_spec(rects@[w]) == b;
                    assert(props.comp_spec(props.near_spec(rects@[w]), props.near_spec(rects@[j])));
                }
            }
            let ghost w = choose|w: int|
                0 <= w < n && #[trigger] is_candidate(rects@, at_least as int, *props, w)
                    && props.near_spec(rects@[w]) == b;
            let mut i: usize = 0;
            while i < n
                invariant
                    n == rects@.len(),
                    props.comp_spec(b as int, at_least as int),
                    i <= n,
                    all_valid(rects@),
                    forall|j: int|
                        0 <= j < n ==> (is_closest(rects@, at_least as int, *props, j) <==> (
                        is_candidate(rects@, at_least as int, *props, j) && props.near_spec(rects@[j])
                            == b)),
                    forall|k: int| 0 <= k < r@.len() ==> 0 <= #[trigger] r@[k] < i,
                    forall|k: int| 0 <= k < r@.len() ==> is_closest(rects@, at_least as int, *props, #[trigger] r@[k] as int),
                    forall|k: int, m: int| 0 <= k < m < r@.len() ==> #[trigger] r@[k] < #[trigger] r@[m],
                    forall|j: int| 0 <= j < i && is_closest(rects@, at_least as int, *props, j) ==> r@.contains(j as usize),
                decreases n - i,
            {
                let near = props.near(&rects[i]);
                if near == b {
                    let ghost old_r = r@;
                    r.push(i);
                    assert forall|j: int|
                        0 <= j < i + 1 && is_closest(rects@, at_least as int, *props, j) implies r@.contains(
                        j as usize,
                    ) by {
                        if j < i {
                            let k = choose|k: int| 0 <= k < old_r.len() && old_r[k] == j as usize;
                            assert(r@[k] == j as usize);
                        } else {
                            assert(r@[old_r.len() as int] == j as usize);
                        }
                    }
                }
                i = i + 1;
            }
            assert(is_closest(rects@, at_least as int, *props, w));
            assert(r@.contains(w as usize));
        },
    }
    r
}

/// How far `r` lies from `close_to` across the movement.
fn distance_of(props: &Properties, r: &Rect, close_to: i32) -> (d: i64)
    requires
        r.valid(),
    ensures
        d == distance(*props, *r, close_to as int),
{
    let d = props.axis(r) as i64 - close_to as i64;
    if d < 0 {
        -d
    } else {
        d
    }
}

/// Finds the positions of the rectangles that lie nearest to `close_to` across the
/// movement: all of them, ties included, in input order.
pub fn aligned_in_direction(rects: &[Rect], close_to: i32, props: &Properties) -> (r: Vec<usize>)
    requires
        all_valid(rects@),
    ensures
        lists_aligned(r@, rects@, close_to as int, *props),
        rects@.len() > 0 ==> r@.len() > 0,
{
    let n = rects.len();
    let mut best: Option<i64> = None;
    let mut i: usize = 0;
    while i < n
        invariant
            n == rects@.len(),
            i <= n,
            all_valid(rects@),
            best is None ==> i == 0,
            best matches Some(b) ==> {
                &&& exists|j: int|
                    0 <= j < i && #[trigger] distance(*props, rects@[j], close_to as int) == b
                &&& forall|j: int|
                    0 <= j < i ==> b <= #[trigger] distance(*props, rects@[j], close_to as int)
            },
        decreases n - i,
    {
        let d = distance_of(props, &rects[i], close_to);
        match best {
            None => {
                best = Some(d);
            },
            Some(b) => {
                if d < b {
                    best = Some(d);
                }
            },
        }
        proof {
            if let Some(b) = best {
                let w = choose|w: int|
                    0 <= w < i + 1 && #[trigger] distance(*props, rects@[w], close_to as int) == b;
            }
        }
        i = i + 1;
    }
    let mut r: Vec<usize> = Vec::new();
    match best {
        None => {},
        Some(b) => {
            assert forall|j: int|
                0 <= j < n implies (is_aligned(rects@, close_to as int, *props, j) <==> distance(
                *props,
                rects@[j],
                close_to as int,
            ) == b) by {
                if is_aligned(rects@, close_to as int, *props, j) {
                    let w = choose|w: int|
                        0 <= w < n && #[trigger] distance(*props, rects@[w], close_to as int) == b;
                    assert(distance(*props, rects@[j], close_to as int) <= distance(
                        *props,
                        rects@[w],
                        close_to as int,
                    ));
                }
            }
            let mut i: usize = 0;
            while i < n
                invariant
                    n == rects@.len(),
                    i <= n,
                    all_valid(rects@),
                    forall|j: int|
                        0 <= j < n ==> (is_aligned(rects@, close_to as int, *props, j) <==> distance(
                            *props,
                            rects@[j],
                            close_to as int,
                        ) == b),
                    forall|k: int| 0 <= k < r@.len() ==> 0 <= #[trigger] r@[k] < i,
                    forall|k: int|
                        0 <= k < r@.len() ==> is_aligned(
                            rects@,
                            close_to as int,
                            *props,
                            #[trigger] r@[k] as int,
                        ),
                    forall|k: int, m: int|
                        0 <= k < m < r@.len() ==> #[trigger] r@[k] < #[trigger] r@[m],
                    forall|j: int|
                        0 <= j < i && is_aligned(rects@, close_to as int, *props, j)
                            ==> r@.contains(j as usize),
                decreases n - i,
            {
                let d = distance_of(props, &rects[i], close_to);
                if d == b {
                    let ghost old_r = r@;
                    r.push(i);
                    assert forall|j: int|
                        0 <= j < i + 1 && is_aligned(
                            rects@,
                            close_to as int,
                            *props,
                            j,
                        ) implies r@.contains(j as usize) by {
                        if j < i {
                            let k = choose|k: int| 0 <= k < old_r.len() && old_r[k] == j as usize;
                            assert(r@[k] == j as usize);
                        } else {
                            assert(r@[old_r.len() as int] == j as usize);
                        }
                    }
                }
                i = i + 1;
            }
            let ghost w = choose|w: int|
                0 <= w < n && #[trigger] distance(*props, rects@[w], close_to as int) == b;
            assert(is_aligned(rects@, close_to as int, *props, w));
            assert(r@.contains(w as usize));
        },
    }
    r
}

/// The threshold one unit further in the searched direction than `t`.
pub open spec fn step_away(props: Properties, t: int) -> int {
    match props.comp {
        Comparison::AtMost => t - 1,
        Comparison::AtLeast => t + 1,
    }
}

/// Where a search for the neighbour of the rectangle at `current` starts: its far edge, or
/// one unit beyond it when the rectangle itself would be among the closest there.
pub open spec fn next_threshold(rects: Seq<Rect>, current: int, props: Properties) -> int {
    let t = props.far_spec(rects[current]);
    if is_closest(rects, t, props, current) {
        step_away(props, t)
    } else {
        t
    }
}

/// Where a search for the outermost rectangles starts: the far end of the coordinates in
/// the direction opposite to the search.
pub open spec fn first_threshold(props: Properties) -> int {
    match props.comp {
        Comparison::AtMost => i32::MAX as int,
        Comparison::AtLeast => i32::MIN as int,
    }
}

/// Each projection of a valid rectangle is a value of `i32`.
proof fn lemma_extent_bounds(e: Extent, r: Rect)
    requires
        r.valid(),
    ensures
        i32::MIN <= extent_spec(e, r) <= i32::MAX,
{
    crate::rect::lemma_extents(r);
}

/// Whether `x` is one of the values of `v`.
fn contains_index(v: &Vec<usize>, x: usize) -> (r: bool)
    ensures
        r == v@.contains(x),
{
    let mut i: usize = 0;
    while i < v.len()
        invariant
            i <= v@.len(),
            forall|k: int| 0 <= k < i ==> v@[k] != x,
        decreases v@.len() - i,
    {
        if v[i] == x {
            assert(v@[i as int] == x);
            return true;
        }
        i = i + 1;
    }
    false
}

/// The first position of the rectangle that lies closest past `at_least` and, among the
/// closest, nearest to `close_to` across the movement.
fn first_best(rects: &[Rect], at_least: i32, close_to: i32, props: &Properties) -> (r: Option<
    usize,
>)
    requires
        all_valid(rects@),
    ensures
        picks_first_best(rects@, at_least as int, close_to as int, *props, r),
        (exists|i: int| 0 <= i < rects@.len() && is_candidate(rects@, at_least as int, *props, i))
            ==> r is Some,
{
    if rects.len() == 0 {
        return None;
    }
    let closest = closest_in_direction(rects, at_least, props);
    let ghost t = at_least as int;
    let mut sub: Vec<Rect> = Vec::new();
    let mut m: usize = 0;
    while m < closest.len()
        invariant
            m <= closest@.len(),
            sub@.len() == m,
            lists_closest(closest@, rects@, t, *props),
            forall|q: int| 0 <= q < m ==> #[trigger] sub@[q] == rects@[closest@[q] as int],
        decreases closest@.len() - m,
    {
        sub.push(rects[closest[m]]);
        m = m + 1;
    }
    assert(all_valid(sub@)) by {
        assert forall|q: int| 0 <= q < sub@.len() implies (#[trigger] sub@[q]).valid() by {
            assert(0 <= closest@[q] < rects@.len());
        }
    }
    let aligned = aligned_in_direction(sub.as_slice(), close_to, props);
    if aligned.len() == 0 {
        assert forall|i: int| !#[trigger] is_closest(rects@, t, *props, i) by {
            if is_closest(rects@, t, *props, i) {
                assert(closest@.contains(i as usize));
            }
        }
        None
    } else {
        let a0 = aligned[0];
        let k = closest[a0];
        let ghost c = close_to as int;
        assert(is_aligned(sub@, c, *props, a0 as int));
        assert forall|j: int| #[trigger] is_closest(rects@, t, *props, j) implies distance(
            *props,
            rects@[k as int],
            c,
        ) <= distance(*props, rects@[j], c) by {
            assert(closest@.contains(j as usize));
            let q = choose|q: int| 0 <= q < closest@.len() && closest@[q] == j as usize;
            assert(sub@[q] == rects@[j]);
        }
        assert forall|j: int| 0 <= j < k implies !#[trigger] is_best(rects@, t, c, *props, j) by {
            if is_best(rects@, t, c, *props, j) {
                assert(closest@.contains(j as usize));
                let q = choose|q: int| 0 <= q < closest@.len() && closest@[q] == j as usize;
                assert forall|q2: int| 0 <= q2 < sub@.len() implies distance(*props, sub@[q], c)
                    <= #[trigger] distance(*props, sub@[q2], c) by {
                    assert(sub@[q2] == rects@[closest@[q2] as int]);
                    assert(is_closest(rects@, t, *props, closest@[q2] as int));
                }
                assert(is_aligned(sub@, c, *props, q));
                assert(aligned@.contains(q as usize));
                let p = choose|p: int| 0 <= p < aligned@.len() && aligned@[p] == q as usize;
                if p > 0 {
                    assert(aligned@[0] < aligned@[p]);
                }
                if a0 < q {
                    assert(closest@[a0 as int] < closest@[q]);
                }
            }
        }
        Some(k)
    }
}

/// The position of the rectangle that a movement from the rectangle at `current` reaches:
/// among the rectangles whose near edge lies closest past the far edge of the current one
/// (one unit further when the current one is itself among them), the first one that lies
/// nearest to it across the movement. `None` when nothing lies in that direction.
pub fn next_in_direction(rects: &[Rect], current: usize, props: &Properties) -> (r: Option<usize>)
    requires
        all_valid(rects@),
        current < rects@.len(),
    ensures
        picks_first_best(
            rects@,
            next_threshold(rects@, current as int, *props),
            props.axis_spec(rects@[current as int]),
            *props,
            r,
        ),
        r == pick(
            rects@,
            next_threshold(rects@, current as int, *props),
            props.axis_spec(rects@[current as int]),
            *props,
        ),
{
    let r = next_search(rects, current, props);
    proof {
        lemma_pick_unique(
            rects@,
            next_threshold(rects@, current as int, *props),
            props.axis_spec(rects@[current as int]),
            *props,
            r,
        );
    }
    r
}

fn next_search(rects: &[Rect], current: usize, props: &Properties) -> (r: Option<usize>)
    requires
        all_valid(rects@),
        current < rects@.len(),
    ensures
        picks_first_best(
            rects@,
            next_threshold(rects@, current as int, *props),
            props.axis_spec(rects@[current as int]),
            *props,
            r,
        ),
{
    let at_least = props.far(&rects[current]);
    let axis = props.axis(&rects[current]);
    let closest = closest_in_direction(rects, at_least, props);
    if contains_index(&closest, current) {
        match props.comp {
            Comparison::AtMost => {
                if at_least == i32::MIN {
                    assert forall|i: int| !#[trigger] is_closest(rects@, at_least - 1, *props, i) by {
                        if 0 <= i < rects@.len() {
                            lemma_extent_bounds(props.near, rects@[i]);
                        }
                    }
                    return None;
                }
                first_best(rects, at_least - 1, axis, props)
            },
            Comparison::AtLeast => {
                if at_least == i32::MAX {
                    assert forall|i: int| !#[trigger] is_closest(rects@, at_least + 1, *props, i) by {
                        if 0 <= i < rects@.len() {
                            lemma_extent_bounds(props.near, rects@[i]);
                        }
                    }
                    return None;
                }
                first_best(rects, at_least + 1, axis, props)
            },
        }
    } else {
        assert(!is_closest(rects@, at_least as int, *props, current as int));
        first_best(rects, at_least, axis, props)
    }
}

/// The position of the outermost rectangle in the direction of the search: among the
/// rectangles whose near edge lies furthest along it, the first one that lies nearest to
/// the rectangle at `current` across the movement. There always is one, as `current` is a
/// position of `rects`.
pub fn first_of_direction(rects: &[Rect], current: usize, props: &Properties) -> (r: Option<usize>)
    requires
        all_valid(rects@),
        current < rects@.len(),
    ensures
        picks_first_best(
            rects@,
            first_threshold(*props),
            props.axis_spec(rects@[current as int]),
            *props,
            r,
        ),
        r == pick(rects@, first_threshold(*props), props.axis_spec(rects@[current as int]), *props),
        r is Some,
{
    proof {
        lemma_extent_bounds(props.near, rects@[0]);
        assert(is_candidate(rects@, first_threshold(*props), *props, 0));
    }
    let axis = props.axis(&rects[current]);
    let at_least: i32 = match props.comp {
        Comparison::AtMost => i32::MAX,
        Comparison::AtLeast => i32::MIN,
    };
    let r = first_best(rects, at_least, axis, props);
    proof {
        lemma_pick_unique(rects@, first_threshold(*props), axis as int, *props, r);
    }
    r
}

/// The direction opposite to `direction`.
pub open spec fn opposite(direction: Direction) -> Direction {
    match direction {
        Direction::Left => Direction::Right,
        Direction::Right => Direction::Left,
        Direction::Up => Direction::Down,
        Direction::Down => Direction::Up,
    }
}

/// Ties are kept: a rectangle whose near edge equals that of a rectangle among the closest
/// ones is among them too.
pub proof fn lemma_closest_keeps_ties(
    rects: Seq<Rect>,
    at_least: int,
    props: Properties,
    r: Seq<usize>,
    i: usize,
    j: usize,
)
    requires
        lists_closest(r, rects, at_least, props),
        r.contains(i),
        j < rects.len(),
        props.near_spec(rects[i as int]) == props.near_spec(rects[j as int]),
    ensures
        r.contains(j),
{
    let k = choose|k: int| 0 <= k < r.len() && r[k] == i;
    assert(is_closest(rects, at_least, props, r[k] as int));
    assert(is_closest(rects, at_least, props, j as int));
}

/// A movement to the outermost rectangle in one direction and from there to the outermost
/// rectangle in the opposite direction comes back in line with the origin, when the origin
/// is in line with one of the outermost rectangles of the first direction and each of
/// those is in line with one of the outermost rectangles of the opposite direction, as in
/// a grid of rows and columns.
pub proof fn lemma_first_round_trip(
    rects: Seq<Rect>,
    relation: Relation,
    direction: Direction,
    origin: int,
    there: usize,
    back: usize,
)
    requires
        0 <= origin < rects.len(),
        picks_first_best(
            rects,
            first_threshold(properties_spec(relation, direction)),
            properties_spec(relation, direction).axis_spec(rects[origin]),
            properties_spec(relation, direction),
            Some(there),
        ),
        picks_first_best(
            rects,
            first_threshold(properties_spec(relation, opposite(direction))),
            properties_spec(relation, opposite(direction)).axis_spec(rects[there as int]),
            properties_spec(relation, opposite(direction)),
            Some(back),
        ),
        exists|i: int|
            #[trigger] is_closest(
                rects,
                first_threshold(properties_spec(relation, direction)),
                properties_spec(relation, direction),
                i,
            ) && properties_spec(relation, direction).axis_spec(rects[i])
                == properties_spec(relation, direction).axis_spec(rects[origin]),
        forall|i: int|
            #[trigger] is_closest(
                rects,
                first_threshold(properties_spec(relation, direction)),
                properties_spec(relation, direction),
                i,
            ) ==> exists|j: int|
                #[trigger] is_closest(
                    rects,
                    first_threshold(properties_spec(relation, opposite(direction))),
                    properties_spec(relation, opposite(direction)),
                    j,
                ) && properties_spec(relation, direction).axis_spec(rects[j])
                    == properties_spec(relation, direction).axis_spec(rects[i]),
    ensures
        properties_spec(relation, direction).axis_spec(rects[back as int])
            == properties_spec(relation, direction).axis_spec(rects[origin]),
{
    let p = properties_spec(relation, direction);
    let q = properties_spec(relation, opposite(direction));
    assert(p.axis == q.axis);
    let i = choose|i: int|
        #[trigger] is_closest(rects, first_threshold(p), p, i) && p.axis_spec(rects[i])
            == p.axis_spec(rects[origin]);
    assert(distance(p, rects[i], p.axis_spec(rects[origin])) == 0);
    assert(p.axis_spec(rects[there as int]) == p.axis_spec(rects[origin]));
    assert(is_closest(rects, first_threshold(p), p, there as int));
    let j = choose|j: int|
        #[trigger] is_closest(rects, first_threshold(q), q, j) && p.axis_spec(rects[j])
            == p.axis_spec(rects[there as int]);
    assert(distance(q, rects[j], q.axis_spec(rects[there as int])) == 0);
}

/// The single position that `picks_first_best` allows.
pub open spec fn pick(rects: Seq<Rect>, at_least: int, close_to: int, props: Properties) -> Option<
    usize,
> {
    if exists|k: usize| picks_first_best(rects, at_least, close_to, props, Some(k)) {
        Some(choose|k: usize| picks_first_best(rects, at_least, close_to, props, Some(k)))
    } else {
        None
    }
}

/// At most one result meets `picks_first_best`, and `pick` is it.
pub proof fn lemma_pick_unique(
    rects: Seq<Rect>,
    at_least: int,
    close_to: int,
    props: Properties,
    r: Option<usize>,
)
    requires
        picks_first_best(rects, at_least, close_to, props, r),
    ensures
        r == pick(rects, at_least, close_to, props),
{
    if exists|k: usize| picks_first_best(rects, at_least, close_to, props, Some(k)) {
        let k = choose|k: usize| picks_first_best(rects, at_least, close_to, props, Some(k));
        assert(is_closest(rects, at_least, props, k as int));
        if let Some(m) = r {
            if m < k {
                assert(!is_best(rects, at_least, close_to, props, m as int));
            } else if k < m {
                assert(!is_best(rects, at_least, close_to, props, k as int));
            }
        }
    }
}

/// `r` is the cell in row `row` and column `col` of a grid of `w` by `h` cells.
pub open spec fn is_cell(r: Rect, row: int, col: int, w: int, h: int) -> bool {
    &&& r.x == col * w
    &&& r.y == row * h
    &&& r.w == w
    &&& r.h == h
}

/// `r` is one of the cells of a grid of `rows` rows and `cols` columns of `w` by `h` cells.
pub open spec fn in_grid(r: Rect, rows: int, cols: int, w: int, h: int) -> bool {
    exists|row: int, col: int| 0 <= row < rows && 0 <= col < cols && #[trigger] is_cell(r, row, col, w, h)
}

/// Some rectangle of `rects` is the cell in row `row` and column `col`.
pub open spec fn has_cell(rects: Seq<Rect>, row: int, col: int, w: int, h: int) -> bool {
    exists|j: int| 0 <= j < rects.len() && #[trigger] is_cell(rects[j], row, col, w, h)
}

/// `rects` tile a grid of `rows` rows and `cols` columns of `w` by `h` cells, in any order:
/// each rectangle is a cell of the grid, and each cell is among the rectangles.
pub open spec fn is_grid(rects: Seq<Rect>, rows: int, cols: int, w: int, h: int) -> bool {
    &&& rows > 0
    &&& cols > 0
    &&& w > 0
    &&& h > 0
    &&& all_valid(rects)
    &&& forall|j: int| 0 <= j < rects.len() ==> #[trigger] in_grid(rects[j], rows, cols, w, h)
    &&& forall|row: int, col: int|
        0 <= row < rows && 0 <= col < cols ==> #[trigger] has_cell(rects, row, col, w, h)
}

/// On a grid, every cell lies in line (in its row for left and right, in its column for up
/// and down) with one of the outermost cells in `direction`.
proof fn lemma_in_line_with_outermost(
    rects: Seq<Rect>,
    rows: int,
    cols: int,
    w: int,
    h: int,
    direction: Direction,
    i: int,
)
    requires
        is_grid(rects, rows, cols, w, h),
        0 <= i < rects.len(),
    ensures
        exists|j: int|
            #[trigger] is_closest(
                rects,
                first_threshold(properties_spec(Relation::Border, direction)),
                properties_spec(Relation::Border, direction),
                j,
            ) && properties_spec(Relation::Border, direction).axis_spec(rects[j])
                == properties_spec(Relation::Border, direction).axis_spec(rects[i]),
{
    let p = properties_spec(Relation::Border, direction);
    let n = rects.len() as int;
    assert forall|j: int| 0 <= j < n implies {
        &&& 0 <= (#[trigger] rects[j]).x
        &&& rects[j].x + w <= (cols - 1) * w + w
        &&& 0 <= rects[j].y
        &&& rects[j].y + h <= (rows - 1) * h + h
        &&& rects[j].w == w
        &&& rects[j].h == h
    } by {
        assert(in_grid(rects[j], rows, cols, w, h));
        let (rj, cj) = choose|row: int, col: int|
            0 <= row < rows && 0 <= col < cols && #[trigger] is_cell(rects[j], row, col, w, h);
        lemma_mul_nonnegative(cj, w);
        lemma_mul_nonnegative(rj, h);
        lemma_mul_inequality(cj, cols - 1, w);
        lemma_mul_inequality(rj, rows - 1, h);
    }
    assert(in_grid(rects[i], rows, cols, w, h));
    let (r, c) = choose|row: int, col: int|
        0 <= row < rows && 0 <= col < cols && #[trigger] is_cell(rects[i], row, col, w, h);
    // The cells at the ends of the row and of the column of `i`.
    assert(has_cell(rects, r, 0, w, h));
    assert(has_cell(rects, r, cols - 1, w, h));
    assert(has_cell(rects, 0, c, w, h));
    assert(has_cell(rects, rows - 1, c, w, h));
    let first_col = choose|j: int| 0 <= j < n && #[trigger] is_cell(rects[j], r, 0, w, h);
    let last_col = choose|j: int| 0 <= j < n && #[trigger] is_cell(rects[j], r, cols - 1, w, h);
    let first_row = choose|j: int| 0 <= j < n && #[trigger] is_cell(rects[j], 0, c, w, h);
    let last_row = choose|j: int| 0 <= j < n && #[trigger] is_cell(rects[j], rows - 1, c, w, h);
    assert(0 * w == 0);
    assert(0 * h == 0);
    match direction {
        Direction::Right => {
            assert(is_closest(rects, first_threshold(p), p, first_col));
        },
        Direction::Left => {
            assert(is_closest(rects, first_threshold(p), p, last_col));
        },
        Direction::Down => {
            assert(is_closest(rects, first_threshold(p), p, first_row));
        },
        Direction::Up => {
            assert(is_closest(rects, first_threshold(p), p, last_row));
        },
    }
}

/// On a grid, a movement in `direction` from a cell to the outermost cell in that
/// direction, and from there to the outermost cell in the opposite direction, comes back to
/// the row of the origin (for left and right) or to its column (for up and down).
pub proof fn lemma_grid_round_trip(
    rects: Seq<Rect>,
    rows: int,
    cols: int,
    w: int,
    h: int,
    direction: Direction,
    origin: int,
    there: usize,
    back: usize,
)
    requires
        is_grid(rects, rows, cols, w, h),
        0 <= origin < rects.len(),
        picks_first_best(
            rects,
            first_threshold(properties_spec(Relation::Border, direction)),
            properties_spec(Relation::Border, direction).axis_spec(rects[origin]),
            properties_spec(Relation::Border, direction),
            Some(there),
        ),
        picks_first_best(
            rects,
            first_threshold(properties_spec(Relation::Border, opposite(direction))),
            properties_spec(Relation::Border, opposite(direction)).axis_spec(rects[there as int]),
            properties_spec(Relation::Border, opposite(direction)),
            Some(back),
        ),
    ensures
        properties_spec(Relation::Border, direction).axis_spec(rects[back as int])
            == properties_spec(Relation::Border, direction).axis_spec(rects[origin]),
{
    let p = properties_spec(Relation::Border, direction);
    let q = properties_spec(Relation::Border, opposite(direction));
    assert(q.axis == p.axis);
    lemma_in_line_with_outermost(rects, rows, cols, w, h, direction, origin);
    assert forall|i: int| #[trigger] is_closest(rects, first_threshold(p), p, i) implies exists|
        j: int,
    |
        #[trigger] is_closest(rects, first_threshold(q), q, j) && p.axis_spec(rects[j])
            == p.axis_spec(rects[i]) by {
        lemma_in_line_with_outermost(rects, rows, cols, w, h, opposite(direction), i);
    }
    lemma_first_round_trip(rects, Relation::Border, direction, origin, there, back);
}

} // verus!
