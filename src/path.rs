use vstd::prelude::*;
use crate::time::{keyframe_pair_of, last_below, Bracket, KeyframeTime};

verus! {

/// A borrowed view of one shape sample: its vertices and the control points
/// that leave (`out_points`) and enter (`in_points`) each vertex. The arrays
/// are expected to have equal lengths; shorter arrays end the path early.
#[derive(Copy, Clone)]
pub struct ShapeRef<'a, P> {
    pub in_points: &'a [P],
    pub out_points: &'a [P],
    pub vertices: &'a [P],
}

/// One element of a shape's path, naming the control points to read. In a
/// morph each point is read from both shapes and blended.
#[derive(Copy, Clone, Debug, PartialEq, Eq, Structural)]
pub enum PathStep {
    /// Move to `vertices[0]`.
    MoveTo,
    /// Cubic curve through `out_points[i - 1]` and `in_points[i]` to `vertices[i]`.
    CurveTo(usize),
    /// Cubic curve through the last out point and `in_points[0]` back to `vertices[0]`.
    ClosingCurveTo,
    /// Close the subpath.
    Close,
}

/// Generator state: the next element to produce and whether the path closes.
#[derive(Copy, Clone, Debug, PartialEq, Eq, Structural)]
pub enum State {
    Initial { closing: bool },
    Inner { index: usize, closing: bool },
    Final,
    Close,
    Done,
}

/// The points that one path element reads from a shape.
#[derive(Copy, Clone, Debug, PartialEq)]
pub enum StepPoints<P> {
    /// The point moved to.
    Move(P),
    /// The two control points and the end point of a cubic curve.
    Curve(P, P, P),
    /// No point: the subpath closes.
    Close,
}

impl<'a, P: Copy> ShapeRef<'a, P> {
    /// The points that `step` reads from this shape, or `None` when one of
    /// them is missing.
    pub open spec fn points_spec(&self, step: PathStep) -> Option<StepPoints<P>> {
        match step {
            PathStep::MoveTo => if self.vertices@.len() > 0 {
                Some(StepPoints::Move(self.vertices@[0]))
            } else {
                None
            },
            PathStep::CurveTo(i) => if segment_in(self, i as int) {
                Some(
                    StepPoints::Curve(
                        self.out_points@[i - 1],
                        self.in_points@[i as int],
                        self.vertices@[i as int],
                    ),
                )
            } else {
                None
            },
            PathStep::ClosingCurveTo => if self.vertices@.len() > 0 && self.in_points@.len() > 0
                && self.out_points@.len() > 0 {
                Some(
                    StepPoints::Curve(
                        self.out_points@.last(),
                        self.in_points@[0],
                        self.vertices@[0],
                    ),
                )
            } else {
                None
            },
            PathStep::Close => Some(StepPoints::Close),
        }
    }

    /// Reads the points of `step` from this shape.
    pub fn points(&self, step: PathStep) -> (r: Option<StepPoints<P>>)
        ensures
            r == self.points_spec(step),
    {
        match step {
            PathStep::MoveTo => if self.vertices.len() > 0 {
                Some(StepPoints::Move(self.vertices[0]))
            } else {
                None
            },
            PathStep::CurveTo(i) => if i >= 1 && i < self.vertices.len() && i < self.in_points.len()
                && i - 1 < self.out_points.len() {
                Some(StepPoints::Curve(self.out_points[i - 1], self.in_points[i], self.vertices[i]))
            } else {
                None
            },
            PathStep::ClosingCurveTo => if self.vertices.len() > 0 && self.in_points.len() > 0
                && self.out_points.len() > 0 {
                let last = self.out_points.len() - 1;
                Some(StepPoints::Curve(self.out_points[last], self.in_points[0], self.vertices[0]))
            } else {
                None
            },
            PathStep::Close => Some(StepPoints::Close),
        }
    }
}

/// The curve to vertex `i` of `shape` has all three of its points.
pub open spec fn segment_in<P>(shape: &ShapeRef<'_, P>, i: int) -> bool {
    &&& 1 <= i
    &&& i < shape.vertices@.len()
    &&& i < shape.in_points@.len()
    &&& i - 1 < shape.out_points@.len()
}

/// The curve to vertex `i` has its points in the shape and in the morph target.
pub open spec fn segment_ok<P>(shape: &ShapeRef<'_, P>, target: Option<&ShapeRef<'_, P>>, i: int) -> bool {
    &&& segment_in(shape, i)
    &&& target matches Some(t) ==> segment_in(t, i)
}

/// The points that start a path, and close it when `closed`, are present.
pub open spec fn start_in<P>(shape: &ShapeRef<'_, P>, closed: bool) -> bool {
    &&& shape.vertices@.len() > 0
    &&& closed ==> shape.out_points@.len() > 0 && shape.in_points@.len() > 0
}

/// The path can start, in the shape and in the morph target.
pub open spec fn start_ok<P>(shape: &ShapeRef<'_, P>, target: Option<&ShapeRef<'_, P>>, closed: bool) -> bool {
    &&& start_in(shape, closed)
    &&& target matches Some(t) ==> start_in(t, closed)
}

/// The two elements that close a path, or none.
pub open spec fn closing_steps(closing: bool) -> Seq<PathStep> {
    if closing {
        seq![PathStep::ClosingCurveTo, PathStep::Close]
    } else {
        seq![]
    }
}

/// The elements from the curve to vertex `i` on: one curve per vertex up to
/// the last, then the closing elements; a missing point ends the path.
pub open spec fn steps_from<P>(
    shape: &ShapeRef<'_, P>,
    target: Option<&ShapeRef<'_, P>>,
    closing: bool,
    i: int,
) -> Seq<PathStep>
    decreases shape.vertices@.len() - i,
{
    if !segment_ok(shape, target, i) {
        seq![]
    } else if i + 1 < shape.vertices@.len() {
        seq![PathStep::CurveTo(i as usize)] + steps_from(shape, target, closing, i + 1)
    } else {
        seq![PathStep::CurveTo(i as usize)] + closing_steps(closing)
    }
}

/// The whole path of a shape, or of a morph of it toward `target`.
pub open spec fn path_steps<P>(shape: &ShapeRef<'_, P>, target: Option<&ShapeRef<'_, P>>, closed: bool) -> Seq<PathStep> {
    if start_ok(shape, target, closed) {
        seq![PathStep::MoveTo] + steps_from(shape, target, closed, 1)
    } else {
        seq![]
    }
}

/// A lazy generator of the path elements of a shape, or of a morph between
/// two shapes.
#[derive(Clone)]
pub struct ShapeElements<'a, P> {
    pub shape: ShapeRef<'a, P>,
    pub lerp_target: Option<ShapeRef<'a, P>>,
    pub state: State,
}

impl<'a, P> ShapeElements<'a, P> {
    /// The morph target, if any, as a borrowed view.
    pub open spec fn target(&self) -> Option<&ShapeRef<'a, P>> {
        match &self.lerp_target {
            Some(t) => Some(t),
            None => None,
        }
    }

    /// The elements that are still to come.
    pub open spec fn remaining(&self) -> Seq<PathStep> {
        let target = self.target();
        match self.state {
            State::Initial { closing } => seq![PathStep::MoveTo] + steps_from(&self.shape, target, closing, 1),
            State::Inner { index, closing } => steps_from(&self.shape, target, closing, index as int),
            State::Final => closing_steps(true),
            State::Close => seq![PathStep::Close],
            State::Done => seq![],
        }
    }

    /// Starts the path of one shape; `None` when it has no first vertex, or
    /// is closed and lacks the points of its closing curve.
    pub fn new(shape: ShapeRef<'a, P>, is_closed: bool) -> (r: Option<Self>)
        ensures
            r is Some <==> start_ok(&shape, None, is_closed),
            r matches Some(g) ==> g.remaining() == path_steps(&shape, None, is_closed),
            r matches Some(g) ==> g.shape == shape && g.lerp_target is None,
    {
        if shape.vertices.len() == 0 {
            return None;
        }
        if is_closed && (shape.out_points.len() == 0 || shape.in_points.len() == 0) {
            return None;
        }
        Some(ShapeElements { shape, lerp_target: None, state: State::Initial { closing: is_closed } })
    }

    /// Starts the path of a morph from `shape` toward `target`; `None` when
    /// either shape has no first vertex, or the path is closed and either
    /// lacks the points of its closing curve.
    pub fn new_lerp(shape: ShapeRef<'a, P>, target: ShapeRef<'a, P>, is_closed: bool) -> (r: Option<Self>)
        ensures
            r is Some <==> start_ok(&shape, Some(&target), is_closed),
            r matches Some(g) ==> g.remaining() == path_steps(&shape, Some(&target), is_closed),
            r matches Some(g) ==> g.shape == shape && g.lerp_target == Some(target),
    {
        if shape.vertices.len() == 0 || target.vertices.len() == 0 {
            return None;
        }
        if is_closed && (shape.out_points.len() == 0 || shape.in_points.len() == 0
            || target.out_points.len() == 0 || target.in_points.len() == 0) {
            return None;
        }
        Some(
            ShapeElements {
                shape,
                lerp_target: Some(target),
                state: State::Initial { closing: is_closed },
            },
        )
    }

    /// Whether the curve to vertex `index` has all its points.
    fn segment_available(&self, index: usize) -> (r: bool)
        ensures
            r == segment_ok(&self.shape, self.target(), index as int),
    {
        let here = index >= 1 && index < self.shape.vertices.len() && index < self.shape.in_points.len()
            && index - 1 < self.shape.out_points.len();
        match &self.lerp_target {
            Some(t) => here && index < t.vertices.len() && index < t.in_points.len() && index - 1
                < t.out_points.len(),
            None => here,
        }
    }

    /// Produces the next element of the path, or `None` once it has ended.
    pub fn next(&mut self) -> (r: Option<PathStep>)
        ensures
            final(self).shape == old(self).shape,
            final(self).lerp_target == old(self).lerp_target,
            old(self).remaining().len() == 0 ==> r is None && final(self).remaining().len() == 0,
            old(self).remaining().len() > 0 ==> r == Some(old(self).remaining()[0])
                && final(self).remaining() == old(self).remaining().drop_first(),
    {
        match self.state {
            State::Initial { closing } => {
                self.state = State::Inner { index: 1, closing };
                proof {
                    assert(old(self).remaining().drop_first() =~= self.remaining());
                }
                Some(PathStep::MoveTo)
            },
            State::Inner { index, closing } => {
                if !self.segment_available(index) {
                    self.state = State::Done;
                    return None;
                }
                if index < self.shape.vertices.len() - 1 {
                    self.state = State::Inner { index: index + 1, closing };
                } else if closing {
                    self.state = State::Final;
                } else {
                    self.state = State::Done;
                }
                proof {
                    assert(old(self).remaining().drop_first() =~= self.remaining());
                }
                Some(PathStep::CurveTo(index))
            },
            State::Final => {
                self.state = State::Close;
                proof {
                    assert(old(self).remaining().drop_first() =~= self.remaining());
                }
                Some(PathStep::ClosingCurveTo)
            },
            State::Close => {
                self.state = State::Done;
                proof {
                    assert(old(self).remaining().drop_first() =~= self.remaining());
                }
                Some(PathStep::Close)
            },
            State::Done => None,
        }
    }

    /// Runs the generator to its end and returns the elements it produced.
    pub fn collect_steps(&mut self) -> (r: Vec<PathStep>)
        ensures
            r@ == old(self).remaining(),
            final(self).remaining().len() == 0,
    {
        let ghost all = self.remaining();
        let mut out: Vec<PathStep> = Vec::new();
        loop
            invariant
                out@ + self.remaining() == all,
            ensures
                out@ == all,
                self.remaining().len() == 0,
            decreases self.remaining().len(),
        {
            match self.next() {
                Some(step) => {
                    proof {
                        assert(out@.push(step) + self.remaining() =~= all);
                    }
                    out.push(step);
                },
                None => {
                    proof {
                        assert(out@ + self.remaining() =~= out@);
                    }
                    break;
                },
            }
        }
        out
    }
}

/// The three point arrays of a shape have the same length.
pub open spec fn arrays_agree<P>(shape: &ShapeRef<'_, P>) -> bool {
    &&& shape.in_points@.len() == shape.vertices@.len()
    &&& shape.out_points@.len() == shape.vertices@.len()
}

/// The curves from vertex `i` to the last vertex of a shape with agreeing
/// arrays, followed by the closing elements.
proof fn lemma_steps_from_whole<P>(shape: &ShapeRef<'_, P>, closing: bool, i: int)
    requires
        arrays_agree(shape),
        1 <= i < shape.vertices@.len(),
    ensures
        steps_from(shape, None, closing, i) =~= Seq::new(
            (shape.vertices@.len() - i) as nat,
            |j: int| PathStep::CurveTo((i + j) as usize),
        ) + closing_steps(closing),
    decreases shape.vertices@.len() - i,
{
    if i + 1 < shape.vertices@.len() {
        lemma_steps_from_whole(shape, closing, i + 1);
    }
}

/// The path of a shape with `n >= 2` vertices and agreeing arrays is a move
/// to the first vertex, one curve to each further vertex in order, and, when
/// closed, a closing curve and a close: `n + 2` elements when closed, `n`
/// when open.
pub proof fn lemma_whole_shape_path<P>(shape: &ShapeRef<'_, P>, closed: bool)
    requires
        arrays_agree(shape),
        shape.vertices@.len() >= 2,
    ensures
        path_steps(shape, None, closed) == seq![PathStep::MoveTo] + Seq::new(
            (shape.vertices@.len() - 1) as nat,
            |j: int| PathStep::CurveTo((j + 1) as usize),
        ) + closing_steps(closed),
        path_steps(shape, None, closed).len() == if closed {
            shape.vertices@.len() + 2int
        } else {
            shape.vertices@.len() as int
        },
{
    lemma_steps_from_whole(shape, closed, 1);
    assert(Seq::new((shape.vertices@.len() - 1) as nat, |j: int| PathStep::CurveTo((1 + j) as usize))
        =~= Seq::new((shape.vertices@.len() - 1) as nat, |j: int| PathStep::CurveTo((j + 1) as usize)));
    assert(path_steps(shape, None, closed) =~= seq![PathStep::MoveTo] + Seq::new(
        (shape.vertices@.len() - 1) as nat,
        |j: int| PathStep::CurveTo((j + 1) as usize),
    ) + closing_steps(closed));
}

/// Each array of `target` is as long as the same array of `shape`.
pub open spec fn same_lengths<P>(shape: &ShapeRef<'_, P>, target: &ShapeRef<'_, P>) -> bool {
    &&& target.vertices@.len() == shape.vertices@.len()
    &&& target.in_points@.len() == shape.in_points@.len()
    &&& target.out_points@.len() == shape.out_points@.len()
}

proof fn lemma_morph_steps_from<P>(shape: &ShapeRef<'_, P>, target: &ShapeRef<'_, P>, closing: bool, i: int)
    requires
        same_lengths(shape, target),
    ensures
        steps_from(shape, Some(target), closing, i) == steps_from(shape, None, closing, i),
    decreases shape.vertices@.len() - i,
{
    if segment_ok(shape, None, i) && i + 1 < shape.vertices@.len() {
        lemma_morph_steps_from(shape, target, closing, i + 1);
    }
}

/// A morph between two shapes whose arrays have the same lengths produces
/// the same elements, naming the same points, as the first shape alone, for
/// every blend parameter: the blend changes coordinates, never the path's
/// structure.
pub proof fn lemma_morph_keeps_steps<P>(shape: &ShapeRef<'_, P>, target: &ShapeRef<'_, P>, closed: bool)
    requires
        same_lengths(shape, target),
    ensures
        path_steps(shape, Some(target), closed) == path_steps(shape, None, closed),
{
    lemma_morph_steps_from(shape, target, closed, 1);
}

/// The path of one shape; `None` when it cannot start. The shape closes only
/// when its flag is `Some(true)`.
pub fn shape_to_path<'a, P>(shape: ShapeRef<'a, P>, closed: Option<bool>) -> (r: Option<ShapeElements<'a, P>>)
    ensures
        r is Some <==> start_ok(&shape, None, closed == Some(true)),
        r matches Some(g) ==> g.remaining() == path_steps(&shape, None, closed == Some(true)),
        r matches Some(g) ==> g.shape == shape && g.lerp_target is None,
{
    let is_closed = match closed {
        Some(c) => c,
        None => false,
    };
    ShapeElements::new(shape, is_closed)
}

/// One keyframe of an animated shape: its start time, its shape sample if it
/// has one, and whether that sample is closed.
#[derive(Copy, Clone)]
pub struct ShapeKeyframe<'a, P> {
    pub start_time: KeyframeTime,
    pub shape: Option<ShapeRef<'a, P>>,
    pub closed: bool,
}

/// The start times of a list of shape keyframes.
pub open spec fn start_times<P>(keyframes: Seq<ShapeKeyframe<'_, P>>) -> Seq<KeyframeTime> {
    keyframes.map_values(|k: ShapeKeyframe<'_, P>| k.start_time)
}

/// Selects the pair of shape keyframes to blend at `time`, scanning back
/// from the last keyframe for the closest one that starts before `time`.
pub fn find_keyframes<P>(keyframes: &[ShapeKeyframe<'_, P>], time: KeyframeTime) -> (r: Option<Bracket>)
    ensures
        r == keyframe_pair_of(start_times(keyframes@), time.key()),
        r matches Some(b) ==> b.lo <= b.hi < keyframes@.len(),
{
    let ghost starts = start_times(keyframes@);
    let n = keyframes.len();
    if n == 0 {
        return None;
    }
    let t = time.order();
    let mut k: usize = n;
    while k > 0
        invariant
            n == keyframes@.len(),
            starts == start_times(keyframes@),
            t == time.key(),
            k <= n,
            last_below(starts, t as int, n as int) == last_below(starts, t as int, k as int),
        decreases k,
    {
        if keyframes[k - 1].start_time.order() < t {
            let lo = k - 1;
            if lo + 1 < n {
                return Some(Bracket { lo, hi: lo + 1 });
            } else {
                return Some(Bracket { lo, hi: lo });
            }
        }
        k = k - 1;
    }
    Some(Bracket { lo: 0, hi: 0 })
}

/// The path of an animated shape at one time, and the times that the blend
/// fraction `(time - start) / (end - start)` is taken between, when it morphs.
/// The path reads the earlier keyframe's shape, morphing toward the later
/// keyframe's shape when the two differ.
pub struct ShapeSelection<'a, P> {
    pub elements: ShapeElements<'a, P>,
    pub span: Option<(KeyframeTime, KeyframeTime)>,
}

/// The path steps an animated shape yields at query key `t`: none without
/// keyframes, when a bracketing keyframe has no shape, or when the path
/// cannot start; the first keyframe's shape alone when the bracket holds one
/// keyframe; else the morph from the earlier keyframe's shape toward the
/// later one's, closed as the earlier one is.
pub open spec fn keyframes_path_spec<P>(keyframes: Seq<ShapeKeyframe<'_, P>>, t: int) -> Option<(Seq<PathStep>, Option<(KeyframeTime, KeyframeTime)>)> {
    match keyframe_pair_of(start_times(keyframes), t) {
        None => None,
        Some(b) => {
            let k0 = keyframes[b.lo as int];
            let k1 = keyframes[b.hi as int];
            match (k0.shape, k1.shape) {
                (Some(s0), Some(s1)) => if b.lo == b.hi {
                    if start_ok(&s0, None, k0.closed) {
                        Some((path_steps(&s0, None, k0.closed), None))
                    } else {
                        None
                    }
                } else if start_ok(&s0, Some(&s1), k0.closed) {
                    Some((path_steps(&s0, Some(&s1), k0.closed), Some((k0.start_time, k1.start_time))))
                } else {
                    None
                },
                _ => None,
            }
        },
    }
}

/// The path of an animated shape at `time`.
pub fn shape_keyframes_to_path<'a, P: Copy>(keyframes: &[ShapeKeyframe<'a, P>], time: KeyframeTime) -> (r: Option<ShapeSelection<'a, P>>)
    ensures
        keyframes_path_spec(keyframes@, time.key()) matches Some((steps, span)) ==> r matches Some(sel) && sel.elements.remaining()
            == steps && sel.span == span,
        keyframes_path_spec(keyframes@, time.key()) is None ==> r is None,
        r matches Some(sel) ==> ({
            let b = keyframe_pair_of(start_times(keyframes@), time.key()).unwrap();
            &&& Some(sel.elements.shape) == keyframes@[b.lo as int].shape
            &&& b.lo == b.hi ==> sel.elements.lerp_target is None
            &&& b.lo != b.hi ==> sel.elements.lerp_target == keyframes@[b.hi as int].shape
        }),
{
    let b = match find_keyframes(keyframes, time) {
        Some(b) => b,
        None => return None,
    };
    let k0 = keyframes[b.lo];
    let k1 = keyframes[b.hi];
    let (s0, s1) = match (k0.shape, k1.shape) {
        (Some(s0), Some(s1)) => (s0, s1),
        _ => return None,
    };
    if b.lo == b.hi {
        match ShapeElements::new(s0, k0.closed) {
            Some(elements) => Some(ShapeSelection { elements, span: None }),
            None => None,
        }
    } else {
        match ShapeElements::new_lerp(s0, s1, k0.closed) {
            Some(elements) => Some(ShapeSelection { elements, span: Some((k0.start_time, k1.start_time)) }),
            None => None,
        }
    }
}

/// Every element from the curve to vertex `i` on reads points that exist in
/// the shape and in the morph target.
proof fn lemma_steps_from_have_points<P: Copy>(
    shape: &ShapeRef<'_, P>,
    target: Option<&ShapeRef<'_, P>>,
    closing: bool,
    i: int,
)
    requires
        closing ==> start_ok(shape, target, true),
        shape.vertices@.len() <= usize::MAX,
    ensures
        forall|k: int|
            0 <= k < steps_from(shape, target, closing, i).len() ==> {
                let step = #[trigger] steps_from(shape, target, closing, i)[k];
                &&& shape.points_spec(step) is Some
                &&& target matches Some(t) ==> t.points_spec(step) is Some
            },
    decreases shape.vertices@.len() - i,
{
    let all = steps_from(shape, target, closing, i);
    if segment_ok(shape, target, i) {
        let rest = if i + 1 < shape.vertices@.len() {
            lemma_steps_from_have_points(shape, target, closing, i + 1);
            steps_from(shape, target, closing, i + 1)
        } else {
            closing_steps(closing)
        };
        assert(all == seq![PathStep::CurveTo(i as usize)] + rest);
        assert((i as usize) as int == i);
        assert forall|k: int| 0 <= k < all.len() implies {
            let step = #[trigger] all[k];
            &&& shape.points_spec(step) is Some
            &&& target matches Some(t) ==> t.points_spec(step) is Some
        } by {
            if k > 0 {
                assert(all[k] == rest[k - 1]);
            }
        }
    }
}

/// Every element of a path, of one shape or of a morph, reads points that
/// exist in the shape and in the morph target: drawing a path never lacks
/// a point.
pub proof fn lemma_path_steps_have_points<P: Copy>(
    shape: &ShapeRef<'_, P>,
    target: Option<&ShapeRef<'_, P>>,
    closed: bool,
)
    requires
        shape.vertices@.len() <= usize::MAX,
    ensures
        forall|k: int|
            0 <= k < path_steps(shape, target, closed).len() ==> {
                let step = #[trigger] path_steps(shape, target, closed)[k];
                &&& shape.points_spec(step) is Some
                &&& target matches Some(t) ==> t.points_spec(step) is Some
            },
{
    if start_ok(shape, target, closed) {
        lemma_steps_from_have_points(shape, target, closed, 1);
        let rest = steps_from(shape, target, closed, 1);
        assert forall|k: int| 0 <= k < path_steps(shape, target, closed).len() implies {
            let step = #[trigger] path_steps(shape, target, closed)[k];
            &&& shape.points_spec(step) is Some
            &&& target matches Some(t) ==> t.points_spec(step) is Some
        } by {
            if k > 0 {
                assert(path_steps(shape, target, closed)[k] == rest[k - 1]);
            }
        }
    }
}

} // verus!
