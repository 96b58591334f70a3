//! The state of a viewing session and the drawing of its frame.

use vstd::prelude::*;
use crate::geometry::frame_bytes;
use crate::render::paint_every_pixel;
use crate::render::lemma_rendering_is_determined;
use crate::render::rendered;
use crate::render::shades_frame;
use crate::render::single_valued;

verus! {

/// What a `ViewState` stands for in contracts.
pub struct ViewModel<S> {
    /// The parameter that is added at every step of an orbit.
    pub constant: (S, S),
    /// Plane units per pixel.
    pub scale: S,
    /// The most steps that an orbit is followed.
    pub max_iteration: nat,
    /// Whether the frame no longer shows the view.
    pub needs_redraw: bool,
}

/// The view of one session: where it looks, how closely, and whether its
/// frame is out of date. `S` is the number type of the plane.
pub struct ViewState<S> {
    constant: (S, S),
    scale: S,
    max_iteration: usize,
    needs_redraw: bool,
}

impl<S> View for ViewState<S> {
    type V = ViewModel<S>;

    closed spec fn view(&self) -> ViewModel<S> {
        ViewModel {
            constant: self.constant,
            scale: self.scale,
            max_iteration: self.max_iteration as nat,
            needs_redraw: self.needs_redraw,
        }
    }
}

/// What one call of `draw` does to a view and its frame. A view that needs
/// no redraw leaves the frame as it was; otherwise the frame is rendered
/// anew. Either way the view needs no redraw afterwards, and nothing else of
/// it has changed.
pub open spec fn drawn<S, F: Fn(i64, i64) -> u8>(
    before: ViewModel<S>,
    frame_before: Seq<u8>,
    after: ViewModel<S>,
    frame_after: Seq<u8>,
    width: u32,
    height: u32,
    shade: F,
) -> bool {
    &&& after == (ViewModel { needs_redraw: false, ..before })
    &&& before.needs_redraw ==> rendered(frame_after, shade, width, height)
    &&& !before.needs_redraw ==> frame_after == frame_before
}

impl<S> ViewState<S> {
    #[verifier::type_invariant]
    spec fn bounded(self) -> bool {
        self.max_iteration > 0
    }

    /// A view that has yet to be drawn.
    pub fn new(constant: (S, S), scale: S, max_iteration: usize) -> (state: Self)
        requires
            max_iteration > 0,
        ensures
            state@ == (ViewModel {
                constant,
                scale,
                max_iteration: max_iteration as nat,
                needs_redraw: true,
            }),
    {
        ViewState { constant, scale, max_iteration, needs_redraw: true }
    }

    /// The parameter that is added at every step of an orbit.
    pub fn constant(&self) -> (constant: &(S, S))
        ensures
            *constant == self@.constant,
    {
        &self.constant
    }

    /// Plane units per pixel.
    pub fn scale(&self) -> (scale: &S)
        ensures
            *scale == self@.scale,
    {
        &self.scale
    }

    /// The most steps that an orbit is followed; never zero.
    pub fn max_iteration(&self) -> (max_iteration: usize)
        ensures
            max_iteration == self@.max_iteration,
            max_iteration > 0,
    {
        proof {
            use_type_invariant(self);
        }
        self.max_iteration
    }

    /// Whether the frame no longer shows the view.
    pub fn needs_redraw(&self) -> (needs_redraw: bool)
        ensures
            needs_redraw == self@.needs_redraw,
    {
        self.needs_redraw
    }

    /// Asks for the frame to be drawn again though the view is the same.
    pub fn request_redraw(&mut self)
        ensures
            final(self)@ == (ViewModel { needs_redraw: true, ..old(self)@ }),
    {
        proof {
            use_type_invariant(&*self);
        }
        self.needs_redraw = true;
    }

    /// Looks at the plane at another scale. The frame is out of date from
    /// then on, whatever the new scale is.
    pub fn set_scale(&mut self, scale: S)
        ensures
            final(self)@ == (ViewModel { scale, needs_redraw: true, ..old(self)@ }),
    {
        proof {
            use_type_invariant(&*self);
        }
        self.scale = scale;
        self.needs_redraw = true;
    }

    /// Brings the frame up to date. Where the view needs a redraw, every
    /// pixel of the frame is painted with the shade that `shade` gives for
    /// its place; where it needs none, nothing is computed and the frame
    /// stays as it is.
    pub fn draw<F: Fn(i64, i64) -> u8 + Sync>(
        &mut self,
        buffer: &mut [u8],
        width: u32,
        height: u32,
        shade: F,
    )
        requires
            old(buffer)@.len() == frame_bytes(width, height),
            shades_frame(shade, width, height),
        ensures
            drawn(old(self)@, old(buffer)@, final(self)@, final(buffer)@, width, height, shade),
            final(buffer)@.len() == old(buffer)@.len(),
    {
        proof {
            use_type_invariant(&*self);
        }
        if self.needs_redraw {
            paint_every_pixel(buffer, width, height, &shade);
        }
        self.needs_redraw = false;
    }
}

/// Drawing twice in a row is drawing once: with the view untouched in
/// between, the second call finds nothing to do and changes neither the
/// frame nor the view.
pub proof fn lemma_second_draw_is_idle<S, F: Fn(i64, i64) -> u8, G: Fn(i64, i64) -> u8>(
    start: ViewModel<S>,
    frame_start: Seq<u8>,
    middle: ViewModel<S>,
    frame_middle: Seq<u8>,
    end: ViewModel<S>,
    frame_end: Seq<u8>,
    width: u32,
    height: u32,
    first: F,
    second: G,
)
    requires
        drawn(start, frame_start, middle, frame_middle, width, height, first),
        drawn(middle, frame_middle, end, frame_end, width, height, second),
    ensures
        end == middle,
        frame_end == frame_middle,
{
}

/// Drawing is determined by the view, the size and the shading function:
/// where that function gives each place one shade, two calls that start from
/// the same view end with the same view and the same bytes. A call that
/// renders does so whatever its frame held before.
pub proof fn lemma_draw_is_determined<S, F: Fn(i64, i64) -> u8>(
    before: ViewModel<S>,
    first_frame_before: Seq<u8>,
    first_after: ViewModel<S>,
    first_frame_after: Seq<u8>,
    second_frame_before: Seq<u8>,
    second_after: ViewModel<S>,
    second_frame_after: Seq<u8>,
    width: u32,
    height: u32,
    shade: F,
)
    requires
        single_valued(shade),
        before.needs_redraw || first_frame_before == second_frame_before,
        drawn(before, first_frame_before, first_after, first_frame_after, width, height, shade),
        drawn(before, second_frame_before, second_after, second_frame_after, width, height, shade),
    ensures
        first_after == second_after,
        first_frame_after == second_frame_after,
{
    if before.needs_redraw {
        lemma_rendering_is_determined(first_frame_after, second_frame_after, shade, width, height);
    }
}

} // verus!
