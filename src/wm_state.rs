use vstd::prelude::*;
use crate::window::{Window, Windows};

verus! {

/// The window manager states of a window that navigation reads.
#[derive(Debug, Clone, Copy, PartialEq, Eq, Structural)]
pub enum State {
    MaxHorz,
    MaxVert,
    Hidden,
    /// Any other state.
    Other,
}

/// The window is maximized along some axis, which a tiling manager reports for tiled windows.
pub open spec fn is_tiled_spec(states: Seq<State>) -> bool {
    exists|i: int|
        0 <= i < states.len() && (#[trigger] states[i] == State::MaxHorz || states[i] == State::MaxVert)
}

/// The window is not hidden.
pub open spec fn is_visible_spec(states: Seq<State>) -> bool {
    forall|i: int| 0 <= i < states.len() ==> #[trigger] states[i] != State::Hidden
}

/// Whether the states mark a tiled window.
pub fn is_tiled(states: &Vec<State>) -> (r: bool)
    ensures
        r == is_tiled_spec(states@),
{
    let mut i: usize = 0;
    while i < states.len()
        invariant
            i <= states@.len(),
            forall|j: int|
                0 <= j < i ==> !(#[trigger] states@[j] == State::MaxHorz || states@[j] == State::MaxVert),
        decreases states@.len() - i,
    {
        if states[i] == State::MaxHorz || states[i] == State::MaxVert {
            return true;
        }
        i = i + 1;
    }
    false
}

/// Whether the states mark a floating window: one that is not tiled.
pub fn is_floating(states: &Vec<State>) -> (r: bool)
    ensures
        r == !is_tiled_spec(states@),
{
    !is_tiled(states)
}

/// Whether the states mark a window on screen: one that is not hidden.
pub fn is_visible(states: &Vec<State>) -> (r: bool)
    ensures
        r == is_visible_spec(states@),
{
    let mut i: usize = 0;
    while i < states.len()
        invariant
            i <= states@.len(),
            forall|j: int| 0 <= j < i ==> #[trigger] states@[j] != State::Hidden,
        decreases states@.len() - i,
    {
        if states[i] == State::Hidden {
            return false;
        }
        i = i + 1;
    }
    true
}

/// The windows at the positions that `visibility` marks, in order.
pub open spec fn marked(windows: Seq<Window>, visibility: Seq<bool>) -> Seq<Window>
    decreases windows.len(),
{
    if windows.len() == 0 {
        Seq::empty()
    } else {
        let n = windows.len() - 1;
        let rest = marked(windows.subrange(0, n), visibility);
        if visibility[n] {
            rest.push(windows[n])
        } else {
            rest
        }
    }
}

/// The windows that `visibility` marks as on screen, in order.
pub fn keep_visible(windows: &Windows, visibility: &Vec<bool>) -> (r: Windows)
    requires
        windows@.len() == visibility@.len(),
    ensures
        r@ == marked(windows@, visibility@),
{
    let mut r: Windows = Vec::new();
    let mut i: usize = 0;
    while i < windows.len()
        invariant
            i <= windows@.len(),
            windows@.len() == visibility@.len(),
            r@ == marked(windows@.take(i as int), visibility@),
        decreases windows@.len() - i,
    {
        if visibility[i] {
            r.push(windows[i]);
        }
        i = i + 1;
        proof {
            let t = windows@.take(i as int);
            assert(t.subrange(0, t.len() - 1) =~= windows@.take(i - 1));
        }
    }
    assert(windows@.take(i as int) =~= windows@);
    r
}

/// Whether an X window is hidden: its ICCCM state is withdrawn, or its EWMH states hold the
/// hidden atom.
pub fn is_hidden(wm_state: &Vec<u32>, ewmh_state: &Vec<u32>, withdrawn: u32, hidden: u32) -> (r: bool)
    requires
        wm_state@.len() > 0,
    ensures
        r == (wm_state@[0] == withdrawn || ewmh_state@.contains(hidden)),
{
    if wm_state[0] == withdrawn {
        return true;
    }
    let mut i: usize = 0;
    while i < ewmh_state.len()
        invariant
            i <= ewmh_state@.len(),
            forall|j: int| 0 <= j < i ==> ewmh_state@[j] != hidden,
        decreases ewmh_state@.len() - i,
    {
        if ewmh_state[i] == hidden {
            assert(ewmh_state@[i as int] == hidden);
            return true;
        }
        i = i + 1;
    }
    false
}

} // verus!
