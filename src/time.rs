use vstd::prelude::*;

verus! {

/// Bit of an `f32` pattern that holds the sign.
pub const SIGN_BIT: u32 = 0x8000_0000;

/// The ordering key of an `f32` bit pattern: its magnitude bits, negated when
/// the sign bit is set. For values that are not NaN this orders exactly as the
/// floating-point values do, with `-0.0` and `+0.0` equal.
pub open spec fn order_key(bits: u32) -> int {
    if bits >= SIGN_BIT {
        -((bits - SIGN_BIT) as int)
    } else {
        bits as int
    }
}

/// A point in time, held as the bit pattern of an `f32` time value.
#[derive(Copy, Clone, Debug, PartialEq, Eq, Structural)]
pub struct KeyframeTime {
    pub bits: u32,
}

/// The keys of a sequence of times never decrease.
pub open spec fn is_sorted(times: Seq<KeyframeTime>) -> bool {
    forall|i: int, j: int| 0 <= i <= j < times.len() ==> #[trigger] times[i].key() <= #[trigger] times[j].key()
}

/// A pair of sample indices around a query time. `lo == hi` means the query
/// resolves to the single sample `lo`; otherwise the query lies strictly
/// between the times of `lo` and `hi`.
#[derive(Copy, Clone, Debug, PartialEq, Eq, Structural)]
pub struct Bracket {
    pub lo: usize,
    pub hi: usize,
}

/// Number of times among the first `k` whose key lies below `t`.
pub open spec fn count_below(times: Seq<KeyframeTime>, t: int, k: int) -> nat
    decreases k,
{
    if k <= 0 {
        0
    } else {
        count_below(times, t, k - 1) + if times[k - 1].key() < t {
            1nat
        } else {
            0nat
        }
    }
}

/// The bracket of query key `t` in a sorted track: `None` for no samples;
/// the last sample past the end; the first sample at or before the start;
/// the first sample whose time equals `t`; else the two samples around `t`.
pub open spec fn bracket_of(times: Seq<KeyframeTime>, t: int) -> Option<Bracket> {
    let n = times.len() as int;
    let ix = count_below(times, t, n) as int;
    if n == 0 {
        None
    } else if ix == n {
        Some(Bracket { lo: (n - 1) as usize, hi: (n - 1) as usize })
    } else if ix == 0 || times[ix].key() == t {
        Some(Bracket { lo: ix as usize, hi: ix as usize })
    } else {
        Some(Bracket { lo: (ix - 1) as usize, hi: ix as usize })
    }
}

/// In a sorted sequence split at `p` (keys below `t` before it, not below
/// after it), `p` is the count of keys below `t` among the first `k`, for
/// every `k >= p`, and `k` itself for `k <= p`.
proof fn lemma_count_below_split(times: Seq<KeyframeTime>, t: int, p: int, k: int)
    requires
        0 <= p <= times.len(),
        0 <= k <= times.len(),
        forall|i: int| 0 <= i < p ==> #[trigger] times[i].key() < t,
        forall|i: int| p <= i < times.len() ==> #[trigger] times[i].key() >= t,
    ensures
        count_below(times, t, k) == if k <= p { k } else { p },
    decreases k,
{
    if k > 0 {
        lemma_count_below_split(times, t, p, k - 1);
    }
}

impl KeyframeTime {
    /// The position of this time in the time order.
    pub open spec fn key(self) -> int {
        order_key(self.bits)
    }

    /// Computes the ordering key of this time.
    pub fn order(&self) -> (r: i64)
        ensures
            r == self.key(),
    {
        if self.bits >= SIGN_BIT {
            -((self.bits - SIGN_BIT) as i64)
        } else {
            self.bits as i64
        }
    }

    /// Whether the keys of `times` never decrease.
    pub fn is_sorted(times: &[KeyframeTime]) -> (r: bool)
        ensures
            r == is_sorted(times@),
    {
        let n = times.len();
        let mut i: usize = 1;
        while i < n
            invariant
                n == times@.len(),
                1 <= i,
                forall|a: int, b: int| 0 <= a <= b < i && b < n ==> #[trigger] times@[a].key() <= #[trigger] times@[b].key(),
            decreases n - i,
        {
            if times[i].order() < times[i - 1].order() {
                return false;
            }
            proof {
                assert forall|a: int, b: int| 0 <= a <= b < i + 1 && b < n implies #[trigger] times@[a].key() <= #[trigger] times@[b].key() by {
                    if b == i && a < i {
                        assert(times@[a].key() <= times@[i - 1].key());
                    }
                }
            }
            i = i + 1;
        }
        true
    }

    /// Finds the bracket of `time` in the sorted sequence `times` by binary search.
    pub fn find_frames(times: &[KeyframeTime], time: KeyframeTime) -> (r: Option<Bracket>)
        requires
            is_sorted(times@),
        ensures
            r == bracket_of(times@, time.key()),
            r matches Some(b) ==> b.lo <= b.hi < times@.len() && b.hi <= b.lo + 1,
    {
        let n = times.len();
        if n == 0 {
            return None;
        }
        let t = time.order();
        let mut lo: usize = 0;
        let mut hi: usize = n;
        while lo < hi
            invariant
                n == times@.len(),
                t == time.key(),
                0 <= lo <= hi <= n,
                is_sorted(times@),
                forall|i: int| 0 <= i < lo ==> #[trigger] times@[i].key() < t,
                forall|i: int| hi <= i < n ==> #[trigger] times@[i].key() >= t,
            decreases hi - lo,
        {
            let mid = lo + (hi - lo) / 2;
            if times[mid].order() < t {
                lo = mid + 1;
            } else {
                hi = mid;
            }
        }
        proof {
            lemma_count_below_split(times@, t as int, lo as int, n as int);
            lemma_bracket_clamped(times@, t as int);
        }
        if lo == n {
            Some(Bracket { lo: n - 1, hi: n - 1 })
        } else if lo == 0 || times[lo].order() == t {
            Some(Bracket { lo, hi: lo })
        } else {
            Some(Bracket { lo: lo - 1, hi: lo })
        }
    }
}

/// In a sorted sequence the count of keys below `t` among the first `k`
/// splits that prefix: keys below `t` come first, the others after.
proof fn lemma_sorted_split(times: Seq<KeyframeTime>, t: int, k: int)
    requires
        is_sorted(times),
        0 <= k <= times.len(),
    ensures
        count_below(times, t, k) <= k,
        forall|i: int| 0 <= i < count_below(times, t, k) ==> #[trigger] times[i].key() < t,
        forall|i: int| count_below(times, t, k) <= i < k ==> #[trigger] times[i].key() >= t,
    decreases k,
{
    if k > 0 {
        lemma_sorted_split(times, t, k - 1);
        let c = count_below(times, t, k - 1) as int;
        if times[k - 1].key() < t {
            assert forall|i: int| c <= i < k - 1 implies times[i].key() < t by {
                assert(times[i].key() <= times[k - 1].key());
            }
            assert(c == k - 1);
        }
    }
}

/// The bracket of a query in a sorted, non-empty track is clamped to the
/// track: before the first sample it is the first sample alone, after the
/// last sample the last sample alone, and a bracket of two distinct samples
/// holds the query strictly between their times, so that the fraction
/// `(t - t_lo) / (t_hi - t_lo)` has a non-zero divisor and lies in `(0, 1)`.
pub proof fn lemma_bracket_clamped(times: Seq<KeyframeTime>, t: int)
    requires
        is_sorted(times),
        0 < times.len() <= usize::MAX,
    ensures
        ({
            let b = bracket_of(times, t).unwrap();
            let n = times.len() as int;
            &&& bracket_of(times, t) is Some
            &&& b.lo <= b.hi < n
            &&& b.hi <= b.lo + 1
            &&& t < times[0].key() ==> b == Bracket { lo: 0, hi: 0 }
            &&& t > times[n - 1].key() ==> b == Bracket { lo: (n - 1) as usize, hi: (n - 1) as usize }
            &&& b.lo < b.hi ==> times[b.lo as int].key() < t < times[b.hi as int].key()
            &&& b.lo == b.hi ==> (times[b.lo as int].key() == t || (b.lo == 0 && t < times[0].key()) || (
            b.lo == n - 1 && t > times[n - 1].key()))
        }),
{
    let n = times.len() as int;
    lemma_sorted_split(times, t, n);
    let ix = count_below(times, t, n) as int;
    if ix < n && ix > 0 {
        assert(times[ix - 1].key() < t);
    }
    if ix == n {
        assert(times[n - 1].key() < t);
    }
    if ix == 0 {
        assert(times[0].key() >= t);
    }
}

/// Index of the last of the first `k` times whose key lies below `t`, or
/// `-1` when there is none.
pub open spec fn last_below(times: Seq<KeyframeTime>, t: int, k: int) -> int
    decreases k,
{
    if k <= 0 {
        -1
    } else if times[k - 1].key() < t {
        k - 1
    } else {
        last_below(times, t, k - 1)
    }
}

/// The pair of keyframes that a shape query at key `t` blends: the last
/// keyframe that starts before `t` and the one after it (clamped to the
/// last), or the first keyframe alone when none starts before `t`.
pub open spec fn keyframe_pair_of(starts: Seq<KeyframeTime>, t: int) -> Option<Bracket> {
    let n = starts.len() as int;
    let i = last_below(starts, t, n);
    if n == 0 {
        None
    } else if i < 0 {
        Some(Bracket { lo: 0, hi: 0 })
    } else if i + 1 < n {
        Some(Bracket { lo: i as usize, hi: (i + 1) as usize })
    } else {
        Some(Bracket { lo: i as usize, hi: i as usize })
    }
}

/// The keyframe pair of a query in a sorted, non-empty list of start times is
/// clamped to the list: at or before the first start it is the first keyframe
/// alone, after the last start the last keyframe alone, and a pair of two
/// distinct keyframes has `t_lo < t <= t_hi`, so that the fraction
/// `(t - t_lo) / (t_hi - t_lo)` has a non-zero divisor and lies in `(0, 1]`.
pub proof fn lemma_keyframe_pair_clamped(starts: Seq<KeyframeTime>, t: int)
    requires
        is_sorted(starts),
        0 < starts.len() <= usize::MAX,
    ensures
        ({
            let b = keyframe_pair_of(starts, t).unwrap();
            let n = starts.len() as int;
            &&& keyframe_pair_of(starts, t) is Some
            &&& b.lo <= b.hi < n
            &&& b.hi <= b.lo + 1
            &&& t <= starts[0].key() ==> b == Bracket { lo: 0, hi: 0 }
            &&& t > starts[n - 1].key() ==> b == Bracket { lo: (n - 1) as usize, hi: (n - 1) as usize }
            &&& b.lo < b.hi ==> starts[b.lo as int].key() < t <= starts[b.hi as int].key()
        }),
{
    let n = starts.len() as int;
    lemma_last_below(starts, t, n);
}

/// `last_below` names a key below `t`, and every later key of the prefix is
/// not below `t`.
proof fn lemma_last_below(times: Seq<KeyframeTime>, t: int, k: int)
    requires
        is_sorted(times),
        0 <= k <= times.len(),
    ensures
        -1 <= last_below(times, t, k) < k,
        last_below(times, t, k) >= 0 ==> times[last_below(times, t, k)].key() < t,
        forall|i: int| last_below(times, t, k) < i < k ==> #[trigger] times[i].key() >= t,
        k > 0 && times[k - 1].key() < t ==> last_below(times, t, k) == k - 1,
        k > 0 && t <= times[0].key() ==> last_below(times, t, k) == -1,
    decreases k,
{
    if k > 0 {
        lemma_last_below(times, t, k - 1);
        if t <= times[0].key() {
            assert(times[0].key() <= times[k - 1].key());
        }
    }
}

} // verus!
