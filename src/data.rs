use vstd::prelude::*;

verus! {

/// Identifies a path stored in a `ScenePathData`.
#[derive(Copy, Clone, PartialEq, Eq, Debug, Structural)]
pub struct PathId(pub usize);

/// Identifies an animated transform of a scene.
#[derive(Copy, Clone, PartialEq, Eq, Debug, Structural)]
pub struct TransformId(pub usize);

/// Identifies a brush of a scene.
#[derive(Copy, Clone, PartialEq, Eq, Debug, Structural)]
pub struct BrushId(pub usize);

/// Where one path's verbs and points lie in the shared buffers:
/// `verb_start .. verb_end` and `point_start .. point_end`.
#[derive(Copy, Clone, PartialEq, Eq, Debug, Structural)]
pub struct PathData {
    pub verb_start: usize,
    pub verb_end: usize,
    pub point_start: usize,
    pub point_end: usize,
}

/// A store of paths, kept end to end in one buffer of verbs `V` and one of
/// points `P`.
#[derive(Debug)]
pub struct ScenePathData<V, P> {
    verbs: Vec<V>,
    points: Vec<P>,
    paths: Vec<PathData>,
}

/// A scene command.
#[derive(Clone, Debug)]
pub enum Command<M> {
    PushTransform(M),
    PushAnimatedTransform(TransformId),
    PopTransform,
    Fill(PathId, BrushId),
    FillAnimated,
}

impl<V: Copy, P: Copy> ScenePathData<V, P> {
    /// All verbs stored, path after path.
    pub closed spec fn verbs(&self) -> Seq<V> {
        self.verbs@
    }

    /// All points stored, path after path.
    pub closed spec fn points(&self) -> Seq<P> {
        self.points@
    }

    /// The ranges of each stored path, in the order the paths were added.
    pub closed spec fn paths(&self) -> Seq<PathData> {
        self.paths@
    }

    /// Path `id`'s verbs.
    pub open spec fn path_verbs(&self, id: PathId) -> Seq<V> {
        self.verbs().subrange(self.paths()[id.0 as int].verb_start as int, self.paths()[id.0 as int].verb_end as int)
    }

    /// Path `id`'s points.
    pub open spec fn path_points(&self, id: PathId) -> Seq<P> {
        self.points().subrange(
            self.paths()[id.0 as int].point_start as int,
            self.paths()[id.0 as int].point_end as int,
        )
    }

    /// Every path's ranges lie within the buffers.
    pub open spec fn wf(&self) -> bool {
        forall|i: int|
            0 <= i < self.paths().len() ==> {
                let d = #[trigger] self.paths()[i];
                &&& d.verb_start <= d.verb_end <= self.verbs().len()
                &&& d.point_start <= d.point_end <= self.points().len()
            }
    }

    /// An empty store.
    pub fn new() -> (r: Self)
        ensures
            r.wf(),
            r.verbs().len() == 0,
            r.points().len() == 0,
            r.paths().len() == 0,
    {
        ScenePathData { verbs: Vec::new(), points: Vec::new(), paths: Vec::new() }
    }

    /// Appends a path and returns its id, the number of paths stored before.
    pub fn add(&mut self, verbs: &[V], points: &[P]) -> (id: PathId)
        requires
            old(self).wf(),
        ensures
            final(self).wf(),
            id == PathId(old(self).paths().len() as usize),
            final(self).verbs() == old(self).verbs() + verbs@,
            final(self).points() == old(self).points() + points@,
            final(self).paths() == old(self).paths().push(
                PathData {
                    verb_start: old(self).verbs().len() as usize,
                    verb_end: final(self).verbs().len() as usize,
                    point_start: old(self).points().len() as usize,
                    point_end: final(self).points().len() as usize,
                },
            ),
            final(self).path_verbs(id) == verbs@,
            final(self).path_points(id) == points@,
    {
        let id = PathId(self.paths.len());
        let verb_start = self.verbs.len();
        let point_start = self.points.len();
        let ghost verbs0 = self.verbs@;
        let ghost points0 = self.points@;
        let mut i: usize = 0;
        while i < verbs.len()
            invariant
                i <= verbs@.len(),
                self.verbs@ == verbs0 + verbs@.subrange(0, i as int),
                self.points@ == points0,
                self.paths@ == old(self).paths@,
                verbs0 == old(self).verbs@,
                points0 == old(self).points@,
            decreases verbs@.len() - i,
        {
            self.verbs.push(verbs[i]);
            proof {
                assert(verbs@.subrange(0, i as int).push(verbs@[i as int]) =~= verbs@.subrange(0, i + 1));
            }
            i = i + 1;
        }
        let mut j: usize = 0;
        while j < points.len()
            invariant
                j <= points@.len(),
                self.verbs@ == verbs0 + verbs@,
                self.points@ == points0 + points@.subrange(0, j as int),
                self.paths@ == old(self).paths@,
                verbs0 == old(self).verbs@,
                points0 == old(self).points@,
            decreases points@.len() - j,
        {
            self.points.push(points[j]);
            proof {
                assert(points@.subrange(0, j as int).push(points@[j as int]) =~= points@.subrange(0, j + 1));
            }
            j = j + 1;
        }
        proof {
            assert(verbs@.subrange(0, verbs@.len() as int) =~= verbs@);
            assert(points@.subrange(0, points@.len() as int) =~= points@);
        }
        let verb_end = self.verbs.len();
        let point_end = self.points.len();
        self.paths.push(PathData { verb_start, verb_end, point_start, point_end });
        proof {
            assert forall|k: int| 0 <= k < self.paths().len() implies {
                let d = #[trigger] self.paths()[k];
                &&& d.verb_start <= d.verb_end <= self.verbs().len()
                &&& d.point_start <= d.point_end <= self.points().len()
            } by {
                if k < old(self).paths().len() {
                    assert(old(self).paths()[k] == self.paths()[k]);
                }
            }
            assert(self.path_verbs(id) =~= verbs@);
            assert(self.path_points(id) =~= points@);
        }
        id
    }

    /// Removes every path.
    pub fn clear(&mut self)
        ensures
            final(self).wf(),
            final(self).verbs().len() == 0,
            final(self).points().len() == 0,
            final(self).paths().len() == 0,
    {
        self.verbs.clear();
        self.points.clear();
        self.paths.clear();
    }
}

} // verus!
