use vstd::prelude::*;
use crate::time::{bracket_of, count_below, is_sorted, KeyframeTime};

verus! {

/// A channel's value at a query time: a single sample's value, or the two
/// samples whose times enclose the query, to be blended by the fraction
/// `(time - start) / (end - start)`.
#[derive(Copy, Clone, Debug, PartialEq)]
pub enum Sample<T> {
    Exact(T),
    Between { from: T, to: T, start: KeyframeTime, end: KeyframeTime },
}

/// A track of keyframes: `values[i]` is the value at `times[i]`.
#[derive(Clone, Debug)]
pub struct KeyframeValues<T> {
    pub times: Vec<KeyframeTime>,
    pub values: Vec<T>,
}

impl<T: Copy> KeyframeValues<T> {
    /// The times are sorted.
    pub open spec fn wf(&self) -> bool {
        is_sorted(self.times@)
    }

    /// The sample of the track at query key `t`: none for an empty track or
    /// when a bracketing index has no value; otherwise the value of the
    /// single bracketing sample, or the two values around `t`.
    pub open spec fn sample_spec(&self, t: int) -> Option<Sample<T>> {
        match bracket_of(self.times@, t) {
            None => None,
            Some(b) => if b.hi >= self.values@.len() {
                None
            } else if b.lo == b.hi {
                Some(Sample::Exact(self.values@[b.lo as int]))
            } else {
                Some(
                    Sample::Between {
                        from: self.values@[b.lo as int],
                        to: self.values@[b.hi as int],
                        start: self.times@[b.lo as int],
                        end: self.times@[b.hi as int],
                    },
                )
            },
        }
    }

    /// Whether the track's times are sorted.
    pub fn is_well_formed(&self) -> (r: bool)
        ensures
            r == self.wf(),
    {
        KeyframeTime::is_sorted(self.times.as_slice())
    }

    /// Samples the track at `time`.
    pub fn evaluate(&self, time: KeyframeTime) -> (r: Option<Sample<T>>)
        requires
            self.wf(),
        ensures
            r == self.sample_spec(time.key()),
    {
        let b = match KeyframeTime::find_frames(self.times.as_slice(), time) {
            Some(b) => b,
            None => return None,
        };
        if b.hi >= self.values.len() {
            return None;
        }
        if b.lo == b.hi {
            Some(Sample::Exact(self.values[b.lo]))
        } else {
            Some(
                Sample::Between {
                    from: self.values[b.lo],
                    to: self.values[b.hi],
                    start: self.times[b.lo],
                    end: self.times[b.hi],
                },
            )
        }
    }
}

/// A channel that is either a fixed value or a keyframe track.
#[derive(Clone, Debug)]
pub enum MaybeAnimated<T> {
    Fixed(T),
    Animated(KeyframeValues<T>),
}

impl<T: Copy> MaybeAnimated<T> {
    /// A track's times are sorted.
    pub open spec fn wf(&self) -> bool {
        match self {
            MaybeAnimated::Fixed(_) => true,
            MaybeAnimated::Animated(k) => k.wf(),
        }
    }

    /// The channel's sample at query key `t`.
    pub open spec fn sample_spec(&self, t: int) -> Option<Sample<T>> {
        match self {
            MaybeAnimated::Fixed(v) => Some(Sample::Exact(*v)),
            MaybeAnimated::Animated(k) => k.sample_spec(t),
        }
    }

    /// Whether the channel holds a fixed value.
    pub fn is_fixed(&self) -> (r: bool)
        ensures
            r == self is Fixed,
    {
        match self {
            MaybeAnimated::Fixed(_) => true,
            MaybeAnimated::Animated(_) => false,
        }
    }

    /// Whether the channel is fixed or has sorted times.
    pub fn is_well_formed(&self) -> (r: bool)
        ensures
            r == self.wf(),
    {
        match self {
            MaybeAnimated::Fixed(_) => true,
            MaybeAnimated::Animated(k) => k.is_well_formed(),
        }
    }

    /// Samples the channel at `time`.
    pub fn evaluate(&self, time: KeyframeTime) -> (r: Option<Sample<T>>)
        requires
            self.wf(),
        ensures
            r == self.sample_spec(time.key()),
    {
        match self {
            MaybeAnimated::Fixed(v) => Some(Sample::Exact(*v)),
            MaybeAnimated::Animated(k) => k.evaluate(time),
        }
    }
}

/// A track with one sample yields that sample's value at every time, before
/// and after the sample's own time included; so a fixed channel behaves
/// exactly as a track holding its value once.
pub proof fn lemma_single_sample_constant<T: Copy>(track: KeyframeValues<T>, t: int)
    requires
        track.times@.len() == 1,
        track.values@.len() == 1,
    ensures
        track.sample_spec(t) == Some(Sample::Exact(track.values@[0])),
        MaybeAnimated::Fixed(track.values@[0]).sample_spec(t) == MaybeAnimated::Animated(track).sample_spec(t),
{
    let s = track.times@;
    assert(count_below(s, t, 0) == 0);
    if s[0].key() < t {
        assert(count_below(s, t, 1) == 1);
    } else {
        assert(count_below(s, t, 1) == 0);
    }
}

/// An empty track yields no value at any time.
pub proof fn lemma_empty_track_no_value<T: Copy>(track: KeyframeValues<T>, t: int)
    requires
        track.times@.len() == 0,
    ensures
        track.sample_spec(t) is None,
        MaybeAnimated::Animated(track).sample_spec(t) is None,
{
}

} // verus!
