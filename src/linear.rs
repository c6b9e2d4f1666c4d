use vstd::prelude::*;

verus! {

/// A step through a tab order.
#[derive(Debug, Clone, Copy, PartialEq, Eq, Structural)]
pub enum Direction {
    Next,
    Prev,
}

/// An ordered list of window identifiers with the position of the current one.
#[derive(Debug)]
pub struct Sequence {
    items: Vec<u64>,
    current: usize,
}

impl View for Sequence {
    type V = (Seq<u64>, nat);

    closed spec fn view(&self) -> (Seq<u64>, nat) {
        (self.items@, self.current as nat)
    }
}

/// The position that a step from `current` lands on, if it is a position at all.
pub open spec fn step_spec(current: nat, direction: Direction) -> int {
    match direction {
        Direction::Next => current as int + 1,
        Direction::Prev => current as int - 1,
    }
}

/// The item one step away from position `current` in `direction`, if that is a position
/// of `items`.
pub open spec fn next_of(items: Seq<u64>, current: nat, direction: Direction) -> Option<u64> {
    let i = step_spec(current, direction);
    if 0 <= i < items.len() {
        Some(items[i])
    } else {
        None
    }
}

/// The item at the end that a walk in `direction` starts from: the first one for `Next`,
/// the last one for `Prev`.
pub open spec fn first_of(items: Seq<u64>, direction: Direction) -> Option<u64> {
    if items.len() == 0 {
        None
    } else {
        match direction {
            Direction::Next => Some(items[0]),
            Direction::Prev => Some(items.last()),
        }
    }
}

impl Sequence {
    /// The identifiers in order.
    pub open spec fn items_spec(&self) -> Seq<u64> {
        self@.0
    }

    /// The position of the current identifier.
    pub open spec fn current_spec(&self) -> nat {
        self@.1
    }

    /// The identifier one step away from the current one in `direction`, if there is one.
    pub open spec fn next_spec(&self, direction: Direction) -> Option<u64> {
        next_of(self.items_spec(), self.current_spec(), direction)
    }

    /// The identifier at the end that a walk in `direction` starts from.
    pub open spec fn first_spec(&self, direction: Direction) -> Option<u64> {
        first_of(self.items_spec(), direction)
    }

    /// A sequence of `items` whose current position is `current`, or the first position
    /// when `current` lies outside the items.
    pub fn new(items: Vec<u64>, current: usize) -> (r: Self)
        ensures
            r.items_spec() == items@,
            r.current_spec() == if current < items@.len() {
                current
            } else {
                0
            },
    {
        let current = if current < items.len() {
            current
        } else {
            0
        };
        Self { items, current }
    }

    /// The identifier one step away from the current one; a step before the first or past
    /// the last position gives `None` (no wrap-around).
    pub fn next(&self, direction: Direction) -> (r: Option<u64>)
        ensures
            r == self.next_spec(direction),
    {
        let n = self.items.len();
        match direction {
            Direction::Prev => {
                if self.current >= 1 && self.current - 1 < n {
                    Some(self.items[self.current - 1])
                } else {
                    None
                }
            },
            Direction::Next => {
                if self.current < usize::MAX && self.current + 1 < n {
                    Some(self.items[self.current + 1])
                } else {
                    None
                }
            },
        }
    }

    /// The first identifier for `Next`, the last one for `Prev`; `None` when empty.
    pub fn first(&self, direction: Direction) -> (r: Option<u64>)
        ensures
            r == self.first_spec(direction),
    {
        if self.items.len() == 0 {
            None
        } else {
            match direction {
                Direction::Next => Some(self.items[0]),
                Direction::Prev => Some(self.items[self.items.len() - 1]),
            }
        }
    }

    /// The number of identifiers.
    pub fn size(&self) -> (r: usize)
        ensures
            r == self.items_spec().len(),
    {
        self.items.len()
    }
}

impl std::ops::Index<usize> for Sequence {
    type Output = u64;

    fn index(&self, index: usize) -> (r: &u64)
        ensures
            *r == self.items_spec()[index as int],
    {
        &self.items[index]
    }
}

impl vstd::std_specs::core::IndexSpecImpl<usize> for Sequence {
    open spec fn index_req(&self, index: &usize) -> bool {
        *index < self.items_spec().len()
    }
}

} // verus!
