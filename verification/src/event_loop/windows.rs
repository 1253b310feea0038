//! The windows that the event loop goes through.

use vstd::prelude::*;

verus! {

/// Whether a window is to be seen.
#[derive(Clone, Copy, Debug, PartialEq, Eq, Structural)]
pub enum WindowVisibility {
    /// The window is hidden.
    Hidden,
    /// The window is shown for the first time.
    ShownFirstTime,
    /// The window is shown, and has been before.
    Shown,
}

/// What the event loop has to know of a window.
#[derive(Clone, Copy, Debug, PartialEq, Eq, Structural)]
pub struct WindowStatus {
    pub id: u64,
    /// How the window is to be seen; `None` where it is gone.
    pub visibility: Option<WindowVisibility>,
    /// Whether an animation runs in the window.
    pub animated: bool,
}

/// Whether a window is there and hidden.
pub open spec fn is_hidden(window: WindowStatus) -> bool {
    window.visibility == Some(WindowVisibility::Hidden)
}

/// Whether a window is there and an animation runs in it.
pub open spec fn is_animated(window: WindowStatus) -> bool {
    window.visibility is Some && window.animated
}

/// The ids of the windows of which `which` holds, in order.
pub open spec fn ids(windows: Seq<WindowStatus>, which: spec_fn(WindowStatus) -> bool) -> Seq<u64> {
    windows.filter(which).map_values(|w: WindowStatus| w.id)
}

proof fn lemma_ids_push(
    windows: Seq<WindowStatus>,
    which: spec_fn(WindowStatus) -> bool,
    window: WindowStatus,
)
    ensures
        ids(windows.push(window), which) == if which(window) {
            ids(windows, which).push(window.id)
        } else {
            ids(windows, which)
        },
{
    reveal(Seq::filter);
    assert(windows.push(window).drop_last() =~= windows);
    if which(window) {
        assert(ids(windows.push(window), which) =~= ids(windows, which).push(window.id));
    }
}

/// The windows whose graphics resources are freed when the loop is left: those that are hidden.
pub fn windows_to_suspend(windows: &Vec<WindowStatus>) -> (result: Vec<u64>)
    ensures
        result@ == ids(windows@, |w: WindowStatus| is_hidden(w)),
{
    let ghost which = |w: WindowStatus| is_hidden(w);
    let mut result: Vec<u64> = Vec::new();
    let mut i: usize = 0;
    proof {
        reveal(Seq::filter);
        assert(ids(windows@.take(0), which) =~= result@);
    }
    while i < windows.len()
        invariant
            i <= windows.len(),
            which == |w: WindowStatus| is_hidden(w),
            result@ == ids(windows@.take(i as int), which),
        decreases windows.len() - i,
    {
        let window = windows[i];
        proof {
            lemma_ids_push(windows@.take(i as int), which, window);
            assert(windows@.take(i + 1) =~= windows@.take(i as int).push(window));
        }
        match window.visibility {
            Some(WindowVisibility::Hidden) => {
                result.push(window.id);
            },
            _ => {},
        }
        i = i + 1;
    }
    assert(windows@.take(i as int) =~= windows@);
    result
}

/// The windows that are drawn again before the loop waits: those in which an animation runs.
pub fn windows_to_redraw(windows: &Vec<WindowStatus>) -> (result: Vec<u64>)
    ensures
        result@ == ids(windows@, |w: WindowStatus| is_animated(w)),
{
    let ghost which = |w: WindowStatus| is_animated(w);
    let mut result: Vec<u64> = Vec::new();
    let mut i: usize = 0;
    proof {
        reveal(Seq::filter);
        assert(ids(windows@.take(0), which) =~= result@);
    }
    while i < windows.len()
        invariant
            i <= windows.len(),
            which == |w: WindowStatus| is_animated(w),
            result@ == ids(windows@.take(i as int), which),
        decreases windows.len() - i,
    {
        let window = windows[i];
        proof {
            lemma_ids_push(windows@.take(i as int), which, window);
            assert(windows@.take(i + 1) =~= windows@.take(i as int).push(window));
        }
        if window.visibility.is_some() && window.animated {
            result.push(window.id);
        }
        i = i + 1;
    }
    assert(windows@.take(i as int) =~= windows@);
    result
}

/// Whether a window with this id is among the windows, and `which` holds of it.
pub open spec fn is_among(
    windows: Seq<WindowStatus>,
    which: spec_fn(WindowStatus) -> bool,
    id: u64,
) -> bool {
    exists|i: int| 0 <= i < windows.len() && which(#[trigger] windows[i]) && windows[i].id == id
}

/// The windows that are picked are those of which `which` holds, and no others.
pub proof fn law_picked_windows(
    windows: Seq<WindowStatus>,
    which: spec_fn(WindowStatus) -> bool,
    id: u64,
)
    ensures
        ids(windows, which).contains(id) <==> is_among(windows, which, id),
    decreases windows.len(),
{
    if windows.len() > 0 {
        let before = windows.drop_last();
        let last = windows.last();
        law_picked_windows(before, which, id);
        lemma_ids_push(before, which, last);
        assert(before.push(last) =~= windows);
        let earlier = ids(before, which);
        let all = ids(windows, which);
        if all.contains(id) {
            let k = choose|k: int| 0 <= k < all.len() && all[k] == id;
            if k < earlier.len() {
                assert(earlier[k] == id);
                let i = choose|i: int|
                    0 <= i < before.len() && which(#[trigger] before[i]) && before[i].id == id;
                assert(windows[i] == before[i]);
            } else {
                assert(windows[windows.len() - 1].id == id);
            }
        }
        if is_among(windows, which, id) {
            let i = choose|i: int|
                0 <= i < windows.len() && which(#[trigger] windows[i]) && windows[i].id == id;
            if i < before.len() {
                assert(before[i] == windows[i]);
                let k = choose|k: int| 0 <= k < earlier.len() && earlier[k] == id;
                assert(all[k] == id);
            } else {
                assert(all[all.len() - 1] == id);
            }
        }
    } else {
        reveal(Seq::filter);
        assert(ids(windows, which).len() == 0);
    }
}

/// A window is drawn again before the loop waits if and only if it is there, hidden or shown, for the
/// first time or not, and an animation runs in it.
pub proof fn law_redrawn_windows(windows: Seq<WindowStatus>, id: u64)
    ensures
        ids(windows, |w: WindowStatus| is_animated(w)).contains(id) <==> exists|i: int|
            0 <= i < windows.len() && (#[trigger] windows[i]).id == id && windows[i].animated && (
            windows[i].visibility == Some(WindowVisibility::Hidden) || windows[i].visibility
                == Some(WindowVisibility::ShownFirstTime) || windows[i].visibility == Some(
                WindowVisibility::Shown,
            )),
{
    let which = |w: WindowStatus| is_animated(w);
    law_picked_windows(windows, which, id);
    if is_among(windows, which, id) {
        let i = choose|i: int|
            0 <= i < windows.len() && which(#[trigger] windows[i]) && windows[i].id == id;
        assert(windows[i].id == id && windows[i].animated);
        match windows[i].visibility {
            Some(WindowVisibility::Hidden) => {},
            Some(WindowVisibility::ShownFirstTime) => {},
            Some(WindowVisibility::Shown) => {},
            None => {},
        }
    }
    assert forall|i: int|
        0 <= i < windows.len() && (#[trigger] windows[i]).id == id && windows[i].animated && (
        windows[i].visibility == Some(WindowVisibility::Hidden) || windows[i].visibility == Some(
            WindowVisibility::ShownFirstTime,
        ) || windows[i].visibility == Some(WindowVisibility::Shown)) implies is_among(
        windows,
        which,
        id,
    ) by {
        assert(which(windows[i]));
    }
}

/// A window is suspended when the loop is left if and only if it is there and hidden, whether or not
/// an animation runs in it.
pub proof fn law_suspended_windows(windows: Seq<WindowStatus>, id: u64)
    ensures
        ids(windows, |w: WindowStatus| is_hidden(w)).contains(id) <==> exists|i: int|
            0 <= i < windows.len() && (#[trigger] windows[i]).id == id && windows[i].visibility
                == Some(WindowVisibility::Hidden),
{
    let which = |w: WindowStatus| is_hidden(w);
    law_picked_windows(windows, which, id);
    if is_among(windows, which, id) {
        let i = choose|i: int|
            0 <= i < windows.len() && which(#[trigger] windows[i]) && windows[i].id == id;
        assert(windows[i].id == id);
    }
    assert forall|i: int|
        0 <= i < windows.len() && (#[trigger] windows[i]).id == id && windows[i].visibility == Some(
            WindowVisibility::Hidden,
        ) implies is_among(windows, which, id) by {
        assert(which(windows[i]));
    }
}

/// Each window is judged by itself, and the order is that of the windows: one more window at the end
/// adds its id at the end, if it is there and animated, or there and hidden, and nothing otherwise.
/// Of no windows none is picked.
pub proof fn law_windows_are_judged_alone(windows: Seq<WindowStatus>, window: WindowStatus)
    ensures
        ids(windows.push(window), |w: WindowStatus| is_animated(w)) == ids(
            windows,
            |w: WindowStatus| is_animated(w),
        ) + (if window.visibility is Some && window.animated {
            seq![window.id]
        } else {
            seq![]
        }),
        ids(windows.push(window), |w: WindowStatus| is_hidden(w)) == ids(
            windows,
            |w: WindowStatus| is_hidden(w),
        ) + (if window.visibility == Some(WindowVisibility::Hidden) {
            seq![window.id]
        } else {
            seq![]
        }),
        ids(Seq::empty(), |w: WindowStatus| is_animated(w)) == Seq::<u64>::empty(),
        ids(Seq::empty(), |w: WindowStatus| is_hidden(w)) == Seq::<u64>::empty(),
{
    reveal(Seq::filter);
    let animated = |w: WindowStatus| is_animated(w);
    let hidden = |w: WindowStatus| is_hidden(w);
    lemma_ids_push(windows, animated, window);
    lemma_ids_push(windows, hidden, window);
    assert(ids(windows, animated).push(window.id) =~= ids(windows, animated) + seq![window.id]);
    assert(ids(windows, hidden).push(window.id) =~= ids(windows, hidden) + seq![window.id]);
    assert(ids(windows, animated) =~= ids(windows, animated) + seq![]);
    assert(ids(windows, hidden) =~= ids(windows, hidden) + seq![]);
}

} // verus!
