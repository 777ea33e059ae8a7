use vstd::prelude::*;
use crate::time::KeyframeTime;
use crate::value::{MaybeAnimated, Sample};

verus! {

/// The six channels of a layer transform, each fixed or animated: `P` is the
/// type of a point sample, `S` that of a scalar sample (degrees).
#[derive(Clone, Debug)]
pub struct AnimatedTransform<P, S> {
    pub anchor: MaybeAnimated<P>,
    pub position: MaybeAnimated<P>,
    pub rotation: MaybeAnimated<S>,
    pub scale: MaybeAnimated<P>,
    pub skew: MaybeAnimated<S>,
    pub skew_angle: MaybeAnimated<S>,
}

/// The six channel samples of a transform at one time, from which the
/// matrix `translate(position) * rotate(rotation) * skew * scale(scale / 100)
/// * translate(-anchor)` is composed.
#[derive(Copy, Clone, Debug, PartialEq)]
pub struct TransformSample<P, S> {
    pub anchor: Sample<P>,
    pub position: Sample<P>,
    pub rotation: Sample<S>,
    pub scale: Sample<P>,
    pub skew: Sample<S>,
    pub skew_angle: Sample<S>,
}

/// A transform that is a fixed matrix, or one sampled from its channels.
#[derive(Clone, Debug)]
pub enum Transform<M, P, S> {
    Fixed(M),
    Animated(Box<AnimatedTransform<P, S>>),
}

impl<P: Copy, S: Copy> AnimatedTransform<P, S> {
    /// Every animated channel has sorted times.
    pub open spec fn wf(&self) -> bool {
        &&& self.anchor.wf()
        &&& self.position.wf()
        &&& self.rotation.wf()
        &&& self.scale.wf()
        &&& self.skew.wf()
        &&& self.skew_angle.wf()
    }

    /// The channel samples at query key `t`, or none when any channel has
    /// no value.
    pub open spec fn sample_spec(&self, t: int) -> Option<TransformSample<P, S>> {
        match (
            self.anchor.sample_spec(t),
            self.position.sample_spec(t),
            self.rotation.sample_spec(t),
            self.scale.sample_spec(t),
            self.skew.sample_spec(t),
            self.skew_angle.sample_spec(t),
        ) {
            (Some(anchor), Some(position), Some(rotation), Some(scale), Some(skew), Some(skew_angle)) => Some(
                TransformSample { anchor, position, rotation, scale, skew, skew_angle },
            ),
            _ => None,
        }
    }

    /// Whether every channel is fixed, so that the transform can be
    /// evaluated once and kept as a matrix.
    pub fn is_fixed(&self) -> (r: bool)
        ensures
            r == (self.anchor is Fixed && self.position is Fixed && self.rotation is Fixed
                && self.scale is Fixed && self.skew is Fixed && self.skew_angle is Fixed),
    {
        self.anchor.is_fixed() && self.position.is_fixed() && self.rotation.is_fixed()
            && self.scale.is_fixed() && self.skew.is_fixed() && self.skew_angle.is_fixed()
    }

    /// Whether every animated channel has sorted times.
    pub fn is_well_formed(&self) -> (r: bool)
        ensures
            r == self.wf(),
    {
        self.anchor.is_well_formed() && self.position.is_well_formed() && self.rotation.is_well_formed()
            && self.scale.is_well_formed() && self.skew.is_well_formed() && self.skew_angle.is_well_formed()
    }

    /// Samples all six channels at `time`; `None` when any of them has no
    /// value, since a transform cannot be partly defined.
    pub fn evaluate(&self, time: KeyframeTime) -> (r: Option<TransformSample<P, S>>)
        requires
            self.wf(),
        ensures
            r == self.sample_spec(time.key()),
    {
        let anchor = match self.anchor.evaluate(time) {
            Some(v) => v,
            None => return None,
        };
        let position = match self.position.evaluate(time) {
            Some(v) => v,
            None => return None,
        };
        let rotation = match self.rotation.evaluate(time) {
            Some(v) => v,
            None => return None,
        };
        let scale = match self.scale.evaluate(time) {
            Some(v) => v,
            None => return None,
        };
        let skew = match self.skew.evaluate(time) {
            Some(v) => v,
            None => return None,
        };
        let skew_angle = match self.skew_angle.evaluate(time) {
            Some(v) => v,
            None => return None,
        };
        Some(TransformSample { anchor, position, rotation, scale, skew, skew_angle })
    }
}

/// A channel that is animated by an empty track.
pub open spec fn is_empty_track<T>(c: &MaybeAnimated<T>) -> bool {
    c matches MaybeAnimated::Animated(k) && k.times@.len() == 0
}

/// A transform with any one channel animated by an empty track has no value
/// at any time, whatever the other five channels hold.
pub proof fn lemma_empty_channel_no_transform<P: Copy, S: Copy>(x: AnimatedTransform<P, S>, t: int)
    requires
        is_empty_track(&x.anchor) || is_empty_track(&x.position) || is_empty_track(&x.rotation)
            || is_empty_track(&x.scale) || is_empty_track(&x.skew) || is_empty_track(&x.skew_angle),
    ensures
        x.sample_spec(t) is None,
{
}

} // verus!
