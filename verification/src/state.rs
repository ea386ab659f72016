//! The save/restore stack: the current transform, the alpha-layer index and
//! the stack of clip rectangles.

use crate::error::DrawError;
use crate::geometry::{Affine, DeviceRect, Matrix, Point, Rect};
use vstd::prelude::*;

verus! {

/// A save-point.
#[derive(Clone, Copy, Debug)]
pub struct State {
    /// The transform relative to the parent state.
    pub rel_transform: Affine,
    /// The transform at the parent state.
    pub transform: Affine,
    /// The number of clips pushed since the save.
    pub n_clip: usize,
    /// The alpha-layer index at the save.
    pub alpha_depth: usize,
}

pub struct StateView {
    pub rel_transform: Matrix,
    pub transform: Matrix,
    pub n_clip: nat,
    pub alpha_depth: usize,
}

impl View for State {
    type V = StateView;

    open spec fn view(&self) -> StateView {
        StateView {
            rel_transform: self.rel_transform@,
            transform: self.transform@,
            n_clip: self.n_clip as nat,
            alpha_depth: self.alpha_depth,
        }
    }
}

/// The transform, the alpha-layer index, the save-points and the clips.
#[derive(Debug)]
pub struct StateStack {
    cur_transform: Affine,
    alpha_depth: usize,
    state_stack: Vec<State>,
    clip_stack: Vec<DeviceRect>,
}

pub struct StackView {
    pub transform: Matrix,
    pub alpha_depth: usize,
    pub states: Seq<StateView>,
    pub clips: Seq<DeviceRect>,
}

/// The number of clips that the save-points account for.
pub open spec fn pushed(states: Seq<StateView>) -> nat
    decreases states.len(),
{
    if states.len() == 0 {
        0
    } else {
        pushed(states.drop_last()) + states.last().n_clip
    }
}

impl StackView {
    pub open spec fn initial() -> StackView {
        StackView {
            transform: Matrix::identity(),
            alpha_depth: 0,
            states: Seq::empty(),
            clips: Seq::empty(),
        }
    }

    /// The transform in effect below save-point `i`; for `i` the number of
    /// save-points, the current transform.
    pub open spec fn transform_at(self, i: int) -> Matrix {
        if 0 <= i < self.states.len() {
            self.states[i].transform
        } else {
            self.transform
        }
    }

    /// At every depth, parent transform times relative transform is the
    /// transform in effect one level up; and the save-points account for no
    /// more clips than the stack holds.
    pub open spec fn wf(self) -> bool {
        &&& self.transform.fits()
        &&& pushed(self.states) <= self.clips.len()
        &&& forall|i: int|
            0 <= i < self.states.len() ==> self.transform_at(i).compose(
                (#[trigger] self.states[i]).rel_transform,
            ) == self.transform_at(i + 1)
    }

    pub open spec fn save(self) -> StackView {
        StackView {
            states: self.states.push(
                StateView {
                    rel_transform: Matrix::identity(),
                    transform: self.transform,
                    n_clip: 0,
                    alpha_depth: self.alpha_depth,
                },
            ),
            ..self
        }
    }

    /// The stack after the last save-point is taken off: its transform and
    /// alpha-layer index are in effect again and the clips pushed since are
    /// gone. Without a save-point, the stack as it is.
    pub open spec fn restore(self) -> StackView {
        if self.states.len() == 0 {
            self
        } else {
            let top = self.states.last();
            StackView {
                transform: top.transform,
                alpha_depth: top.alpha_depth,
                states: self.states.drop_last(),
                clips: if top.n_clip <= self.clips.len() {
                    self.clips.take(self.clips.len() - top.n_clip)
                } else {
                    Seq::empty()
                },
            }
        }
    }

    /// The save-points with `m` multiplied onto the relative transform of
    /// the last.
    pub open spec fn states_transformed(self, m: Matrix) -> Seq<StateView> {
        if self.states.len() == 0 {
            self.states
        } else {
            self.states.update(
                self.states.len() - 1,
                StateView {
                    rel_transform: self.states.last().rel_transform.compose(m),
                    ..self.states.last()
                },
            )
        }
    }

    pub open spec fn transform(self, m: Matrix) -> StackView {
        StackView {
            transform: self.transform.compose(m),
            states: self.states_transformed(m),
            ..self
        }
    }

    /// Whether the coefficients of the transforms that `transform(m)` leaves
    /// behind can all be held.
    pub open spec fn can_transform(self, m: Matrix) -> bool {
        &&& self.transform.compose(m).fits()
        &&& self.states.len() > 0 ==> self.states.last().rel_transform.compose(m).fits()
    }

    /// The stack with `r` as its new clip, counted by the last save-point.
    pub open spec fn push_clip(self, r: DeviceRect) -> StackView {
        StackView {
            clips: self.clips.push(r),
            states: if self.states.len() == 0 {
                self.states
            } else {
                self.states.update(
                    self.states.len() - 1,
                    StateView { n_clip: self.states.last().n_clip + 1, ..self.states.last() },
                )
            },
            ..self
        }
    }

    pub open spec fn get_current_clip(self) -> Option<DeviceRect> {
        if self.clips.len() == 0 {
            None
        } else {
            Some(self.clips.last())
        }
    }

    /// The clip in effect; the zero rectangle where there is none.
    pub open spec fn current_clip(self) -> DeviceRect {
        match self.get_current_clip() {
            Some(r) => r,
            None => DeviceRect::spec_zero(),
        }
    }

    /// `rect` moved by the offset of the current transform.
    pub open spec fn to_device(self, rect: Rect) -> DeviceRect {
        rect.spec_to_device(self.transform.e, self.transform.f)
    }

    /// `rect`, in device space, replaces the clip.
    pub open spec fn clip_override(self, rect: Rect) -> StackView {
        self.push_clip(self.to_device(rect))
    }

    /// `rect`, in device space, is intersected with the clip in effect, or
    /// becomes the clip where there is none.
    pub open spec fn clip_nested(self, rect: Rect) -> StackView {
        match self.get_current_clip() {
            Some(current) => self.push_clip(self.to_device(rect).spec_intersect(current)),
            None => self.clip_override(rect),
        }
    }

    pub open spec fn set_alpha_depth(self, alpha_depth: usize) -> StackView {
        StackView { alpha_depth, ..self }
    }

    pub open spec fn incr_alpha_depth(self) -> StackView {
        StackView { alpha_depth: (self.alpha_depth + 1) as usize, ..self }
    }
}

/// A further save-point adds the clips that it counts.
pub proof fn lemma_pushed_push(states: Seq<StateView>, s: StateView)
    ensures
        pushed(states.push(s)) == pushed(states) + s.n_clip,
{
    assert(states.push(s).drop_last() == states);
}

/// Replacing the last save-point by one that counts `n` clips.
pub proof fn lemma_pushed_update_last(states: Seq<StateView>, s: StateView)
    requires
        states.len() > 0,
    ensures
        pushed(states.update(states.len() - 1, s)) == pushed(states.drop_last()) + s.n_clip,
{
    assert(states.update(states.len() - 1, s).drop_last() == states.drop_last());
}

impl View for StateStack {
    type V = StackView;

    closed spec fn view(&self) -> StackView {
        StackView {
            transform: self.cur_transform@,
            alpha_depth: self.alpha_depth,
            states: self.state_stack@.map_values(|s: State| s@),
            clips: self.clip_stack@,
        }
    }
}

impl StateStack {
    /// The view is well formed.
    pub closed spec fn wf(&self) -> bool {
        self@.wf()
    }

    /// What holds of every well-formed stack.
    pub proof fn lemma_wf(&self)
        requires
            self.wf(),
        ensures
            self@.wf(),
            self@.clips.len() <= usize::MAX,
            self@.states.len() <= usize::MAX,
    {
        assert(self.clip_stack.len() <= usize::MAX);
        assert(self.state_stack.len() <= usize::MAX);
    }

    pub fn new() -> (s: StateStack)
        ensures
            s.wf(),
            s@ == StackView::initial(),
    {
        let s = StateStack {
            cur_transform: Affine::identity(),
            alpha_depth: 0,
            state_stack: Vec::new(),
            clip_stack: Vec::new(),
        };
        assert(s@.states =~= Seq::empty());
        s
    }

    pub fn current_transform(&self) -> (t: Affine)
        ensures
            t@ == self@.transform,
    {
        self.cur_transform
    }

    /// The offset by which the current transform moves the origin.
    pub fn translation(&self) -> (p: Point)
        ensures
            p.x == self@.transform.e,
            p.y == self@.transform.f,
    {
        Point { x: self.cur_transform.e, y: self.cur_transform.f }
    }

    pub fn alpha_depth(&self) -> (k: usize)
        ensures
            k == self@.alpha_depth,
    {
        self.alpha_depth
    }

    /// The number of save-points.
    pub fn save_depth(&self) -> (n: usize)
        ensures
            n == self@.states.len(),
    {
        self.state_stack.len()
    }

    /// The number of clips on the stack.
    pub fn clip_depth(&self) -> (n: usize)
        ensures
            n == self@.clips.len(),
    {
        self.clip_stack.len()
    }

    pub fn get_current_clip(&self) -> (r: Option<DeviceRect>)
        ensures
            r == self@.get_current_clip(),
    {
        let n = self.clip_stack.len();
        if n == 0 {
            None
        } else {
            Some(self.clip_stack[n - 1])
        }
    }

    pub fn current_clip(&self) -> (r: DeviceRect)
        ensures
            r == self@.current_clip(),
    {
        match self.get_current_clip() {
            Some(r) => r,
            None => DeviceRect::zero(),
        }
    }

    pub fn set_alpha_depth(&mut self, alpha_depth: usize)
        requires
            old(self).wf(),
        ensures
            final(self).wf(),
            final(self)@ == old(self)@.set_alpha_depth(alpha_depth),
    {
        self.alpha_depth = alpha_depth;
    }

    pub fn incr_alpha_depth(&mut self)
        requires
            old(self).wf(),
            old(self)@.alpha_depth < usize::MAX,
        ensures
            final(self).wf(),
            final(self)@ == old(self)@.incr_alpha_depth(),
    {
        self.alpha_depth += 1;
    }

    /// Pushes a save-point that holds the transform and the alpha-layer
    /// index in effect.
    pub fn save(&mut self)
        requires
            old(self).wf(),
        ensures
            final(self).wf(),
            final(self)@ == old(self)@.save(),
    {
        let state = State {
            rel_transform: Affine::identity(),
            transform: self.cur_transform,
            n_clip: 0,
            alpha_depth: self.alpha_depth,
        };
        self.state_stack.push(state);
        proof {
            assert(self@.states =~= old(self)@.states.push(state@));
            lemma_pushed_push(old(self)@.states, state@);
            Matrix::lemma_compose_identity(self@.transform);
            assert forall|i: int| 0 <= i < self@.states.len() implies self@.transform_at(
                i,
            ).compose((#[trigger] self@.states[i]).rel_transform) == self@.transform_at(i + 1) by {
                if i < old(self)@.states.len() {
                    assert(self@.states[i] == old(self)@.states[i]);
                    assert(self@.transform_at(i) == old(self)@.transform_at(i));
                    assert(self@.transform_at(i + 1) == old(self)@.transform_at(i + 1));
                }
            }
        }
    }

    /// Takes the last save-point off. Without one, nothing changes and the
    /// call fails.
    pub fn restore(&mut self) -> (r: Result<(), DrawError>)
        requires
            old(self).wf(),
        ensures
            final(self).wf(),
            final(self)@ == old(self)@.restore(),
            old(self)@.states.len() == 0 ==> r == Err::<(), DrawError>(DrawError::StackImbalance)
                && final(self)@ == old(self)@,
            old(self)@.states.len() > 0 ==> r.is_ok(),
    {
        let ghost before = self@;
        match self.state_stack.pop() {
            Some(state) => {
                proof {
                    assert(self.state_stack@ == old(self).state_stack@.drop_last());
                    assert(self@.states =~= before.states.drop_last());
                    assert(state@ == before.states.last());
                    assert(pushed(before.states) == pushed(before.states.drop_last())
                        + state.n_clip);
                }
                self.cur_transform = state.transform;
                self.alpha_depth = state.alpha_depth;
                let mut i: usize = 0;
                while i < state.n_clip
                    invariant
                        i <= state.n_clip,
                        state.n_clip <= before.clips.len(),
                        self.clip_stack@ == before.clips.take(before.clips.len() - i),
                        self.state_stack@ == old(self).state_stack@.drop_last(),
                        self.cur_transform == state.transform,
                        self.alpha_depth == state.alpha_depth,
                    decreases state.n_clip - i,
                {
                    self.clip_stack.pop();
                    assert(self.clip_stack@ =~= before.clips.take(before.clips.len() - (i + 1)));
                    i += 1;
                }
                proof {
                    assert(before.clips.take(before.clips.len() as int) == before.clips);
                    assert(self@.states =~= before.states.drop_last());
                    assert(self@ == before.restore());
                    assert forall|i: int| 0 <= i < self@.states.len() implies self@.transform_at(
                        i,
                    ).compose((#[trigger] self@.states[i]).rel_transform) == self@.transform_at(
                        i + 1,
                    ) by {
                        assert(self@.states[i] == before.states[i]);
                        assert(self@.transform_at(i) == before.transform_at(i));
                        assert(self@.transform_at(i + 1) == before.transform_at(i + 1));
                    }
                }
                Ok(())
            },
            None => Err(DrawError::StackImbalance),
        }
    }

    /// Whether `transform(m)` can be called.
    pub fn can_transform(&self, m: &Affine) -> (r: bool)
        ensures
            r == self@.can_transform(m@),
    {
        if self.cur_transform.checked_mul(m).is_none() {
            return false;
        }
        let n = self.state_stack.len();
        if n == 0 {
            assert(self@.states.len() == 0);
            true
        } else {
            assert(self@.states.last() == self.state_stack@[n - 1]@);
            self.state_stack[n - 1].rel_transform.checked_mul(m).is_some()
        }
    }

    /// Multiplies `m` onto the current transform from the right, and onto
    /// the relative transform of the last save-point.
    pub fn transform(&mut self, m: Affine)
        requires
            old(self).wf(),
            old(self)@.can_transform(m@),
        ensures
            final(self).wf(),
            final(self)@ == old(self)@.transform(m@),
    {
        let ghost before = self@;
        let n = self.state_stack.len();
        if n > 0 {
            assert(before.states.last() == self.state_stack@[n - 1]@);
            let top = self.state_stack[n - 1];
            match top.rel_transform.checked_mul(&m) {
                Some(rel) => {
                    self.state_stack[n - 1].rel_transform = rel;
                },
                None => {},
            }
        }
        match self.cur_transform.checked_mul(&m) {
            Some(t) => {
                self.cur_transform = t;
            },
            None => {},
        }
        proof {
            assert(self@.states =~= before.states_transformed(m@));
            assert(self@ == before.transform(m@));
            if n > 0 {
                lemma_pushed_update_last(before.states, self@.states.last());
            }
            assert forall|i: int| 0 <= i < self@.states.len() implies self@.transform_at(
                i,
            ).compose((#[trigger] self@.states[i]).rel_transform) == self@.transform_at(i + 1) by {
                if i < n - 1 {
                    assert(self@.states[i] == before.states[i]);
                    assert(self@.transform_at(i) == before.transform_at(i));
                    assert(self@.transform_at(i + 1) == before.transform_at(i + 1));
                } else {
                    assert(before.transform_at(i).compose(before.states[i].rel_transform)
                        == before.transform_at(i + 1));
                    Matrix::lemma_compose_assoc(
                        before.transform_at(i),
                        before.states[i].rel_transform,
                        m@,
                    );
                }
            }
        }
    }

    /// Pushes `rect` as the new clip and counts it at the last save-point.
    fn add_clip_rect(&mut self, rect: DeviceRect)
        requires
            old(self).wf(),
        ensures
            final(self).wf(),
            final(self)@ == old(self)@.push_clip(rect),
    {
        let ghost before = self@;
        self.clip_stack.push(rect);
        let held = self.clip_stack.len();
        let n = self.state_stack.len();
        if n > 0 {
            proof {
                assert(held == before.clips.len() + 1);
                assert(before.states.last() == self.state_stack@[n - 1]@);
                assert(pushed(before.states) == pushed(before.states.drop_last())
                    + before.states.last().n_clip);
            }
            let count = self.state_stack[n - 1].n_clip;
            self.state_stack[n - 1].n_clip = count + 1;
        }
        proof {
            assert(self@.states =~= before.push_clip(rect).states);
            if n > 0 {
                lemma_pushed_update_last(before.states, self@.states.last());
            }
            assert forall|i: int| 0 <= i < self@.states.len() implies self@.transform_at(
                i,
            ).compose((#[trigger] self@.states[i]).rel_transform) == self@.transform_at(i + 1) by {
                assert(self@.states[i].rel_transform == before.states[i].rel_transform);
                assert(self@.transform_at(i) == before.transform_at(i));
                assert(self@.transform_at(i + 1) == before.transform_at(i + 1));
                assert(before.transform_at(i).compose(before.states[i].rel_transform)
                    == before.transform_at(i + 1));
            }
        }
    }

    /// Makes `rect`, moved into device space, the clip, whatever the clip in
    /// effect.
    pub fn clip_override(&mut self, rect: Rect)
        requires
            old(self).wf(),
        ensures
            final(self).wf(),
            final(self)@ == old(self)@.clip_override(rect),
    {
        let device = rect.to_device(self.cur_transform.e, self.cur_transform.f);
        self.add_clip_rect(device);
    }

    /// Intersects `rect`, moved into device space, with the clip in effect
    /// and makes the result the clip; without a clip in effect, `rect` itself
    /// becomes the clip.
    pub fn clip_nested(&mut self, rect: Rect)
        requires
            old(self).wf(),
        ensures
            final(self).wf(),
            final(self)@ == old(self)@.clip_nested(rect),
    {
        match self.get_current_clip() {
            Some(current) => {
                let device = rect.to_device(self.cur_transform.e, self.cur_transform.f);
                let clipped = device.intersect(&current);
                self.add_clip_rect(clipped);
            },
            None => {
                self.clip_override(rect);
            },
        }
    }
}

} // verus!
