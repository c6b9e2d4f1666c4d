use vstd::prelude::*;
use crate::alignment;
use crate::alignment::Relation;
use crate::arrangement::{all_rects_valid, rects_of, Arrangement};
use crate::converters;
use crate::converters::{any_focused_spec, current_of, ids_of, sort_by_x, with_floating};
use crate::linear;
use crate::linear::{first_of, next_of, Sequence};
use crate::window::{Window, Windows};

pub use crate::converters::{any_focused, as_arrangement, as_sequence, floating, focused_index, tiled};

verus! {

/// What a navigation command comes to.
#[derive(Debug, Clone, Copy, PartialEq, Eq, Structural)]
pub enum Target {
    /// Move the focus to the window with this identifier.
    Focus(u64),
    /// No window lies in that direction and no wrap-around was asked for.
    NothingToDo,
    /// No window lies in that direction even with wrap-around.
    NoWindow,
}

/// Why a window number could not be resolved.
#[derive(Debug, PartialEq, Eq)]
pub enum NumberError {
    /// The windows to count could not be had; the message says why.
    Source(String),
    /// The number is not below the count of windows.
    OutOfRange { number: usize, size: usize },
}

/// A floating window holds the focus, so navigation goes among the floating windows.
pub open spec fn floating_domain(visible: Seq<Window>) -> bool {
    any_focused_spec(with_floating(visible, true))
}

/// The floating windows in tab order: from left to right.
pub open spec fn floating_sequence(visible: Seq<Window>) -> Seq<Window> {
    sort_by_x(with_floating(visible, true))
}

/// The target of a step through `items` from position `current`, falling back to the end
/// that a walk starts from when `wrap` is asked for.
pub open spec fn linear_target(items: Seq<u64>, current: nat, direction: linear::Direction, wrap: bool) -> Target {
    match next_of(items, current, direction) {
        Some(id) => Target::Focus(id),
        None => if wrap {
            match first_of(items, direction) {
                Some(id) => Target::Focus(id),
                None => Target::NoWindow,
            }
        } else {
            Target::NothingToDo
        },
    }
}

/// The target of a step in tab order through `ws` from its focused window.
pub open spec fn linear_target_of(ws: Seq<Window>, direction: linear::Direction, wrap: bool) -> Target {
    linear_target(ids_of(ws), current_of(ws) as nat, direction, wrap)
}

/// The windows among which planar navigation goes, and how distances between them are
/// measured: the floating ones by their centers when one of them holds the focus, else the
/// tiled ones by their borders.
pub open spec fn planar_domain(visible: Seq<Window>) -> (Seq<Window>, Relation) {
    if floating_domain(visible) {
        (with_floating(visible, true), Relation::Center)
    } else {
        (with_floating(visible, false), Relation::Border)
    }
}

/// The position in `ws` that a movement in `direction` from the focused window reaches.
pub open spec fn planar_next(ws: Seq<Window>, relation: Relation, direction: alignment::Direction) -> Option<usize> {
    let props = alignment::properties_spec(relation, direction);
    let rects = rects_of(ws);
    if ws.len() == 0 {
        None
    } else {
        alignment::pick(
            rects,
            alignment::next_threshold(rects, current_of(ws), props),
            props.axis_spec(rects[current_of(ws)]),
            props,
        )
    }
}

/// The position in `ws` of the outermost window in `direction` nearest to the focused one
/// across the movement.
pub open spec fn planar_first(ws: Seq<Window>, relation: Relation, direction: alignment::Direction) -> Option<usize> {
    let props = alignment::properties_spec(relation, direction);
    let rects = rects_of(ws);
    if ws.len() == 0 {
        None
    } else {
        alignment::pick(
            rects,
            alignment::first_threshold(props),
            props.axis_spec(rects[current_of(ws)]),
            props,
        )
    }
}

/// The target of a movement in `direction` among `ws`, falling back to the outermost
/// window when `wrap` is asked for.
pub open spec fn planar_target(ws: Seq<Window>, relation: Relation, direction: alignment::Direction, wrap: bool) -> Target {
    match planar_next(ws, relation, direction) {
        Some(k) => Target::Focus(ws[k as int].id),
        None => if wrap {
            match planar_first(ws, relation, direction) {
                Some(k) => Target::Focus(ws[k as int].id),
                None => Target::NoWindow,
            }
        } else {
            Target::NothingToDo
        },
    }
}

/// The tab order to navigate in: the floating windows from left to right when one of them
/// holds the focus, else the available tabs; the error of the tabs when they are needed and
/// could not be had.
pub fn get_linear_sequence(visible: &Windows, tabs: &Result<Windows, String>) -> (r: Result<Sequence, String>)
    ensures
        floating_domain(visible@) ==> (r matches Ok(s) && s.items_spec() == ids_of(floating_sequence(visible@))
            && s.current_spec() == current_of(floating_sequence(visible@))),
        !floating_domain(visible@) ==> match tabs {
            Ok(t) => (r matches Ok(s) && s.items_spec() == ids_of(t@) && s.current_spec() == current_of(t@)),
            Err(e) => (r matches Err(m) && m@ == e@),
        },
{
    let floating = converters::floating(visible);
    if converters::any_focused(&floating) {
        let sorted = converters::sorted_by_x(&floating);
        Ok(converters::as_sequence(&sorted))
    } else {
        match tabs {
            Ok(t) => Ok(converters::as_sequence(t)),
            Err(e) => Err(e.clone()),
        }
    }
}

/// The arrangement to navigate in: the floating windows measured by their centers when one
/// of them holds the focus, else the tiled windows measured by their borders.
pub fn get_planar_arrangement(visible: &Windows) -> (r: Arrangement)
    ensures
        r.windows@ == planar_domain(visible@).0,
        r.relation == planar_domain(visible@).1,
        r.current == current_of(planar_domain(visible@).0),
{
    let floating = converters::floating(visible);
    if converters::any_focused(&floating) {
        converters::as_arrangement(floating, Relation::Center)
    } else {
        converters::as_arrangement(converters::tiled(visible), Relation::Border)
    }
}

/// The window to move to by a step in tab order (see `get_linear_sequence`), wrapping around
/// to the first or last one when `wrap` is asked for.
pub fn get_window_to_switch_to(
    visible: &Windows,
    tabs: &Result<Windows, String>,
    direction: linear::Direction,
    wrap: bool,
) -> (r: Result<Target, String>)
    ensures
        floating_domain(visible@) ==> r == Ok::<Target, String>(
            linear_target_of(floating_sequence(visible@), direction, wrap),
        ),
        !floating_domain(visible@) ==> match tabs {
            Ok(t) => r == Ok::<Target, String>(linear_target_of(t@, direction, wrap)),
            Err(e) => (r matches Err(m) && m@ == e@),
        },
{
    let sequence = match get_linear_sequence(visible, tabs) {
        Ok(s) => s,
        Err(e) => return Err(e),
    };
    let target = match sequence.next(direction) {
        Some(id) => Target::Focus(id),
        None => if wrap {
            match sequence.first(direction) {
                Some(id) => Target::Focus(id),
                None => Target::NoWindow,
            }
        } else {
            Target::NothingToDo
        },
    };
    Ok(target)
}

/// The window to move to by a movement in `direction` in the plane (see
/// `get_planar_arrangement`), falling back to the outermost window in that direction when
/// `wrap` is asked for.
pub fn get_window_in_direction(visible: &Windows, direction: alignment::Direction, wrap: bool) -> (r: Target)
    requires
        all_rects_valid(visible@),
    ensures
        r == planar_target(planar_domain(visible@).0, planar_domain(visible@).1, direction, wrap),
{
    let arrangement = get_planar_arrangement(visible);
    let ghost ws = arrangement.windows@;
    proof {
        converters::lemma_current_of(ws);
        let b = !floating_domain(visible@);
        converters::lemma_with_floating_from(visible@, !b);
        converters::lemma_with_floating_from(visible@, b);
        assert forall|i: int| 0 <= i < ws.len() implies (#[trigger] ws[i]).rect.valid() by {
            let j = choose|j: int| 0 <= j < visible@.len() && visible@[j] == ws[i];
        }
    }
    let target = match arrangement.next(direction) {
        Some(w) => Target::Focus(w.id),
        None => if wrap {
            match arrangement.first(direction) {
                Some(w) => Target::Focus(w.id),
                None => Target::NoWindow,
            }
        } else {
            Target::NothingToDo
        },
    };
    target
}

/// The identifier of the window at position `number` of the tab order (see
/// `get_linear_sequence`). A number at or past the count of windows is an error, never
/// clamped.
pub fn get_window_of_number(visible: &Windows, tabs: &Result<Windows, String>, number: usize) -> (r: Result<u64, NumberError>)
    ensures
        floating_domain(visible@) ==> r == number_result(floating_sequence(visible@), number),
        !floating_domain(visible@) ==> match tabs {
            Ok(t) => r == number_result(t@, number),
            Err(e) => (r matches Err(NumberError::Source(m)) && m@ == e@),
        },
{
    let sequence = match get_linear_sequence(visible, tabs) {
        Ok(s) => s,
        Err(e) => return Err(NumberError::Source(e)),
    };
    if number >= sequence.size() {
        return Err(NumberError::OutOfRange { number, size: sequence.size() });
    }
    Ok(sequence[number])
}

/// The identifier at position `number` of `ws`, or the error for a number out of range.
pub open spec fn number_result(ws: Seq<Window>, number: usize) -> Result<u64, NumberError> {
    if number < ws.len() {
        Ok(ws[number as int].id)
    } else {
        Err(NumberError::OutOfRange { number, size: ws.len() as usize })
    }
}

} // verus!
