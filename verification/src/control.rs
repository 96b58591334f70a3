//! What a session does in answer to one round of input.

use vstd::prelude::*;

verus! {

/// What the presentation layer saw since the last round.
#[derive(Clone, Copy, Debug, PartialEq, Eq, Structural)]
pub struct Inputs {
    /// The window was asked to close.
    pub close_requested: bool,
    /// The escape key went down.
    pub escape: bool,
    /// The space key went down.
    pub space: bool,
    /// The up key went down.
    pub up: bool,
    /// The down key went down.
    pub down: bool,
}

/// One thing to do to the view.
#[derive(Clone, Copy, Debug, PartialEq, Eq, Structural)]
pub enum Action {
    /// Draw the frame again as it is.
    Redraw,
    /// Look closer: a smaller scale.
    ZoomIn,
    /// Look from further away: a larger scale.
    ZoomOut,
    /// The slow zoom that every round brings: the scale decays.
    Decay,
}

/// Whether the session ends on these inputs.
pub open spec fn ends_session(inputs: Inputs) -> bool {
    inputs.escape || inputs.close_requested
}

/// What a round with these inputs does to the view, in order: a redraw for
/// the space key, a zoom for each arrow key, and the decay that closes
/// every round.
pub open spec fn actions_of(inputs: Inputs) -> Seq<Action> {
    (if inputs.space {
        seq![Action::Redraw]
    } else {
        Seq::<Action>::empty()
    }) + (if inputs.up {
        seq![Action::ZoomIn]
    } else {
        Seq::<Action>::empty()
    }) + (if inputs.down {
        seq![Action::ZoomOut]
    } else {
        Seq::<Action>::empty()
    }) + seq![Action::Decay]
}

/// Decides one round: `None` where the session ends, otherwise what to do to
/// the view, in order. Keys that are not among the inputs change nothing.
pub fn respond(inputs: Inputs) -> (round: Option<Vec<Action>>)
    ensures
        ends_session(inputs) <==> round.is_none(),
        round matches Some(actions) ==> actions@ == actions_of(inputs),
{
    if inputs.escape || inputs.close_requested {
        return None;
    }
    let mut actions: Vec<Action> = Vec::new();
    if inputs.space {
        actions.push(Action::Redraw);
    }
    if inputs.up {
        actions.push(Action::ZoomIn);
    }
    if inputs.down {
        actions.push(Action::ZoomOut);
    }
    actions.push(Action::Decay);
    assert(actions@ =~= actions_of(inputs));
    Some(actions)
}

} // verus!
