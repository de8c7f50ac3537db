//! The smallest box around the positions that paths name, and how it is
//! found by stretching a box point by point.

use crate::aabb::Aabb;
use crate::path::{LineCommand, Path};
use crate::point::Point2D;
use vstd::prelude::*;

verus! {

/// The positions that a command names outright; none for a command that
/// can only be placed from the pen's position.
pub open spec fn named_by_command<U>(c: LineCommand<i64, U>) -> Set<Point2D<i64, U>> {
    match c.anchors() {
        Some(points) => points.to_set(),
        None => Set::empty(),
    }
}

/// The positions that the commands of a path name.
pub open spec fn named_by_commands<U>(commands: Seq<LineCommand<i64, U>>) -> Set<Point2D<i64, U>> {
    Set::new(
        |p: Point2D<i64, U>|
            exists|i: int|
                0 <= i < commands.len() && #[trigger] named_by_command(commands[i]).contains(p),
    )
}

/// The positions that the commands of some of the paths name.
pub open spec fn named_by_paths<U>(paths: Seq<Seq<LineCommand<i64, U>>>) -> Set<Point2D<i64, U>> {
    Set::new(
        |p: Point2D<i64, U>|
            exists|k: int|
                0 <= k < paths.len() && #[trigger] named_by_commands(paths[k]).contains(p),
    )
}

/// Every command names its positions outright.
pub open spec fn commands_supported<U>(commands: Seq<LineCommand<i64, U>>) -> bool {
    forall|i: int| 0 <= i < commands.len() ==> (#[trigger] commands[i]).anchors().is_some()
}

/// Every command of every path names its positions outright.
pub open spec fn paths_supported<U>(paths: Seq<Seq<LineCommand<i64, U>>>) -> bool {
    forall|k: int| 0 <= k < paths.len() ==> commands_supported(#[trigger] paths[k])
}

impl<U> Aabb<i64, U> {
    /// Every point of the set lies in the box.
    pub open spec fn encloses(self, points: Set<Point2D<i64, U>>) -> bool {
        forall|p: Point2D<i64, U>| #[trigger] points.contains(p) ==> self.holds(p)
    }

    /// On each of its four sides the box is met by a point of the set.
    pub open spec fn touches(self, points: Set<Point2D<i64, U>>) -> bool {
        &&& exists|p: Point2D<i64, U>| #[trigger] points.contains(p) && p.x == self.min.x
        &&& exists|p: Point2D<i64, U>| #[trigger] points.contains(p) && p.y == self.min.y
        &&& exists|p: Point2D<i64, U>| #[trigger] points.contains(p) && p.x == self.max.x
        &&& exists|p: Point2D<i64, U>| #[trigger] points.contains(p) && p.y == self.max.y
    }

    /// The box is fitted to the set: the smallest box that holds every
    /// point of it, or, where the set has no point, the box that holds
    /// nothing.
    pub open spec fn fitted_to(self, points: Set<Point2D<i64, U>>) -> bool {
        if exists|p: Point2D<i64, U>| points.contains(p) {
            self.encloses(points) && self.touches(points)
        } else {
            self == Self::nothing()
        }
    }

    /// The box stretched to hold the positions of each command.
    pub open spec fn grown_by_commands(self, commands: Seq<LineCommand<i64, U>>) -> Self
        decreases commands.len(),
    {
        if commands.len() == 0 {
            self
        } else {
            self.grown_by_commands(commands.drop_last()).grown_by(
                match commands.last().anchors() {
                    Some(points) => points,
                    None => Seq::empty(),
                },
            )
        }
    }

    /// The box stretched to hold the positions of each path.
    pub open spec fn grown_by_paths(self, paths: Seq<Seq<LineCommand<i64, U>>>) -> Self
        decreases paths.len(),
    {
        if paths.len() == 0 {
            self
        } else {
            self.grown_by_paths(paths.drop_last()).grown_by_commands(paths.last())
        }
    }

    /// A box fitted to a set and stretched by a point is fitted to the set
    /// with that point.
    pub proof fn lemma_grown_fitted(self, points: Set<Point2D<i64, U>>, p: Point2D<i64, U>)
        requires
            self.fitted_to(points),
        ensures
            self.grown(p).fitted_to(points.insert(p)),
    {
        let more = points.insert(p);
        let g = self.grown(p);
        assert(more.contains(p));
        if exists|q: Point2D<i64, U>| points.contains(q) {
            let ax = choose|q: Point2D<i64, U>| #[trigger] points.contains(q) && q.x == self.min.x;
            let ay = choose|q: Point2D<i64, U>| #[trigger] points.contains(q) && q.y == self.min.y;
            let bx = choose|q: Point2D<i64, U>| #[trigger] points.contains(q) && q.x == self.max.x;
            let by = choose|q: Point2D<i64, U>| #[trigger] points.contains(q) && q.y == self.max.y;
            assert(more.contains(ax) && more.contains(ay) && more.contains(bx) && more.contains(by));
            let wax = if p.x < self.min.x { p } else { ax };
            let way = if p.y < self.min.y { p } else { ay };
            let wbx = if p.x > self.max.x { p } else { bx };
            let wby = if p.y > self.max.y { p } else { by };
            assert(more.contains(wax) && wax.x == g.min.x);
            assert(more.contains(way) && way.y == g.min.y);
            assert(more.contains(wbx) && wbx.x == g.max.x);
            assert(more.contains(wby) && wby.y == g.max.y);
            assert(g.encloses(more));
        } else {
            assert(more.contains(p) && p.x == g.min.x);
            assert(more.contains(p) && p.y == g.min.y);
            assert(more.contains(p) && p.x == g.max.x);
            assert(more.contains(p) && p.y == g.max.y);
            assert forall|q: Point2D<i64, U>| #[trigger] more.contains(q) implies g.holds(q) by {
                assert(!points.contains(q));
            }
        }
    }

    /// A box fitted to a set and stretched by points one after the other is
    /// fitted to the set with those points.
    pub proof fn lemma_grown_by_fitted(
        self,
        points: Set<Point2D<i64, U>>,
        more: Seq<Point2D<i64, U>>,
    )
        requires
            self.fitted_to(points),
        ensures
            self.grown_by(more).fitted_to(points.union(more.to_set())),
        decreases more.len(),
    {
        if more.len() == 0 {
            assert(points.union(more.to_set()) =~= points);
        } else {
            let front = more.drop_last();
            self.lemma_grown_by_fitted(points, front);
            self.grown_by(front).lemma_grown_fitted(points.union(front.to_set()), more.last());
            assert forall|q: Point2D<i64, U>|
                more.to_set().contains(q) <==> (front.to_set().contains(q) || q
                    == more.last()) by {
                if more.to_set().contains(q) {
                    let i = choose|i: int| 0 <= i < more.len() && more[i] == q;
                    if i < more.len() - 1 {
                        assert(front[i] == q);
                    }
                }
                if front.to_set().contains(q) {
                    let i = choose|i: int| 0 <= i < front.len() && front[i] == q;
                    assert(more[i] == q);
                }
                if q == more.last() {
                    assert(more[more.len() - 1] == q);
                }
            }
            assert(points.union(more.to_set()) =~= points.union(front.to_set()).insert(
                more.last(),
            ));
        }
    }

    /// A box fitted to a set and stretched by the commands of a path is
    /// fitted to the set with the positions that the commands name.
    pub proof fn lemma_grown_by_commands_fitted(
        self,
        points: Set<Point2D<i64, U>>,
        commands: Seq<LineCommand<i64, U>>,
    )
        requires
            self.fitted_to(points),
        ensures
            self.grown_by_commands(commands).fitted_to(points.union(named_by_commands(commands))),
        decreases commands.len(),
    {
        if commands.len() == 0 {
            assert(points.union(named_by_commands(commands)) =~= points);
        } else {
            let front = commands.drop_last();
            let last = commands.last();
            let anchors = match last.anchors() {
                Some(a) => a,
                None => Seq::empty(),
            };
            self.lemma_grown_by_commands_fitted(points, front);
            self.grown_by_commands(front).lemma_grown_by_fitted(
                points.union(named_by_commands(front)),
                anchors,
            );
            assert(anchors.to_set() =~= named_by_command(last));
            assert forall|q: Point2D<i64, U>|
                named_by_commands(commands).contains(q) <==> (named_by_commands(front).contains(q)
                    || named_by_command(last).contains(q)) by {
                if named_by_commands(commands).contains(q) {
                    let i = choose|i: int|
                        0 <= i < commands.len() && #[trigger] named_by_command(
                            commands[i],
                        ).contains(q);
                    if i < commands.len() - 1 {
                        assert(named_by_command(front[i]).contains(q));
                    }
                }
                if named_by_commands(front).contains(q) {
                    let i = choose|i: int|
                        0 <= i < front.len() && #[trigger] named_by_command(front[i]).contains(q);
                    assert(named_by_command(commands[i]).contains(q));
                }
                if named_by_command(last).contains(q) {
                    assert(named_by_command(commands[commands.len() - 1]).contains(q));
                }
            }
            assert(points.union(named_by_commands(commands)) =~= points.union(
                named_by_commands(front),
            ).union(anchors.to_set()));
        }
    }

    /// A box fitted to a set and stretched by paths is fitted to the set
    /// with the positions that the paths name.
    pub proof fn lemma_grown_by_paths_fitted(
        self,
        points: Set<Point2D<i64, U>>,
        paths: Seq<Seq<LineCommand<i64, U>>>,
    )
        requires
            self.fitted_to(points),
        ensures
            self.grown_by_paths(paths).fitted_to(points.union(named_by_paths(paths))),
        decreases paths.len(),
    {
        if paths.len() == 0 {
            assert(points.union(named_by_paths(paths)) =~= points);
        } else {
            let front = paths.drop_last();
            let last = paths.last();
            self.lemma_grown_by_paths_fitted(points, front);
            self.grown_by_paths(front).lemma_grown_by_commands_fitted(
                points.union(named_by_paths(front)),
                last,
            );
            assert forall|q: Point2D<i64, U>|
                named_by_paths(paths).contains(q) <==> (named_by_paths(front).contains(q)
                    || named_by_commands(last).contains(q)) by {
                if named_by_paths(paths).contains(q) {
                    let k = choose|k: int|
                        0 <= k < paths.len() && #[trigger] named_by_commands(paths[k]).contains(q);
                    if k < paths.len() - 1 {
                        assert(named_by_commands(front[k]).contains(q));
                    }
                }
                if named_by_paths(front).contains(q) {
                    let k = choose|k: int|
                        0 <= k < front.len() && #[trigger] named_by_commands(front[k]).contains(q);
                    assert(named_by_commands(paths[k]).contains(q));
                }
                if named_by_commands(last).contains(q) {
                    assert(named_by_commands(paths[paths.len() - 1]).contains(q));
                }
            }
            assert(points.union(named_by_paths(paths)) =~= points.union(
                named_by_paths(front),
            ).union(named_by_commands(last)));
        }
    }

    /// Stretching by paths that come one after another is stretching by the
    /// first ones and then by the others.
    pub proof fn lemma_grown_by_paths_concat(
        self,
        a: Seq<Seq<LineCommand<i64, U>>>,
        b: Seq<Seq<LineCommand<i64, U>>>,
    )
        ensures
            self.grown_by_paths(a + b) == self.grown_by_paths(a).grown_by_paths(b),
        decreases b.len(),
    {
        if b.len() == 0 {
            assert(a + b =~= a);
        } else {
            self.lemma_grown_by_paths_concat(a, b.drop_last());
            assert((a + b).drop_last() =~= a + b.drop_last());
            assert((a + b).last() == b.last());
        }
    }

    /// A set has one fitted box only.
    pub proof fn lemma_fitted_unique(self, other: Self, points: Set<Point2D<i64, U>>)
        requires
            self.fitted_to(points),
            other.fitted_to(points),
        ensures
            self == other,
    {
        if exists|p: Point2D<i64, U>| points.contains(p) {
            let ax = choose|q: Point2D<i64, U>| #[trigger] points.contains(q) && q.x == self.min.x;
            let ay = choose|q: Point2D<i64, U>| #[trigger] points.contains(q) && q.y == self.min.y;
            let bx = choose|q: Point2D<i64, U>| #[trigger] points.contains(q) && q.x == self.max.x;
            let by = choose|q: Point2D<i64, U>| #[trigger] points.contains(q) && q.y == self.max.y;
            let cx = choose|q: Point2D<i64, U>| #[trigger] points.contains(q) && q.x == other.min.x;
            let cy = choose|q: Point2D<i64, U>| #[trigger] points.contains(q) && q.y == other.min.y;
            let dx = choose|q: Point2D<i64, U>| #[trigger] points.contains(q) && q.x == other.max.x;
            let dy = choose|q: Point2D<i64, U>| #[trigger] points.contains(q) && q.y == other.max.y;
            assert(other.holds(ax) && other.holds(ay) && other.holds(bx) && other.holds(by));
            assert(self.holds(cx) && self.holds(cy) && self.holds(dx) && self.holds(dy));
        }
    }

    /// The box fitted to a set that has a point is well formed: on neither
    /// axis is `min` beyond `max`.
    pub proof fn lemma_fitted_wf(self, points: Set<Point2D<i64, U>>)
        requires
            self.fitted_to(points),
            exists|p: Point2D<i64, U>| points.contains(p),
        ensures
            self.wf(),
    {
        let p = choose|p: Point2D<i64, U>| points.contains(p);
        assert(self.holds(p));
    }

    /// The box that holds nothing, stretched by paths, is fitted to the
    /// positions that the paths name.
    pub proof fn lemma_grown_from_nothing(paths: Seq<Seq<LineCommand<i64, U>>>)
        ensures
            Self::nothing().grown_by_paths(paths).fitted_to(named_by_paths(paths)),
    {
        let none = Set::<Point2D<i64, U>>::empty();
        assert(Self::nothing().fitted_to(none));
        Self::nothing().lemma_grown_by_paths_fitted(none, paths);
        assert(none.union(named_by_paths(paths)) =~= named_by_paths(paths));
    }
}

/// Paths that are the same but for their order name the same positions, and
/// all of the ones are supported where all of the others are. So the box
/// fitted to them does not depend on the order in which they were drawn.
pub proof fn lemma_order_independent<U>(
    a: Seq<Seq<LineCommand<i64, U>>>,
    b: Seq<Seq<LineCommand<i64, U>>>,
    box_a: Aabb<i64, U>,
    box_b: Aabb<i64, U>,
)
    requires
        a.to_multiset() == b.to_multiset(),
        box_a.fitted_to(named_by_paths(a)),
        box_b.fitted_to(named_by_paths(b)),
    ensures
        named_by_paths(a) == named_by_paths(b),
        paths_supported(a) == paths_supported(b),
        box_a == box_b,
{
    broadcast use vstd::seq_lib::group_to_multiset_ensures;

    assert forall|path: Seq<LineCommand<i64, U>>| a.contains(path) <==> b.contains(path) by {
        assert(a.contains(path) <==> a.to_multiset().count(path) > 0);
        assert(b.contains(path) <==> b.to_multiset().count(path) > 0);
    }
    assert forall|q: Point2D<i64, U>|
        named_by_paths(a).contains(q) <==> named_by_paths(b).contains(q) by {
        if named_by_paths(a).contains(q) {
            let k = choose|k: int|
                0 <= k < a.len() && #[trigger] named_by_commands(a[k]).contains(q);
            assert(a.contains(a[k]));
            let j = choose|j: int| 0 <= j < b.len() && b[j] == a[k];
            assert(named_by_commands(b[j]).contains(q));
        }
        if named_by_paths(b).contains(q) {
            let k = choose|k: int|
                0 <= k < b.len() && #[trigger] named_by_commands(b[k]).contains(q);
            assert(b.contains(b[k]));
            let j = choose|j: int| 0 <= j < a.len() && a[j] == b[k];
            assert(named_by_commands(a[j]).contains(q));
        }
    }
    assert(named_by_paths(a) =~= named_by_paths(b));
    if paths_supported(a) {
        assert forall|k: int| 0 <= k < b.len() implies commands_supported(#[trigger] b[k]) by {
            assert(b.contains(b[k]));
            let j = choose|j: int| 0 <= j < a.len() && a[j] == b[k];
            assert(commands_supported(a[j]));
        }
    }
    if paths_supported(b) {
        assert forall|k: int| 0 <= k < a.len() implies commands_supported(#[trigger] a[k]) by {
            assert(a.contains(a[k]));
            let j = choose|j: int| 0 <= j < b.len() && b[j] == a[k];
            assert(commands_supported(b[j]));
        }
    }
    box_a.lemma_fitted_unique(box_b, named_by_paths(a));
}

/// The box stretched by the positions of the command, where the command
/// names its positions outright.
pub(crate) fn grow_by_command<U>(start: Aabb<i64, U>, command: &LineCommand<i64, U>) -> (r: Option<
    Aabb<i64, U>,
>)
    ensures
        r.is_some() == command.anchors().is_some(),
        r.is_some() ==> r.unwrap() == start.grown_by(command.anchors().unwrap()),
{
    match command.anchor_points() {
        Some(points) => {
            let mut grown = start;
            let mut i: usize = 0;
            assert(points@.take(0) =~= Seq::empty());
            while i < points.len()
                invariant
                    i <= points@.len(),
                    grown == start.grown_by(points@.take(i as int)),
                decreases points@.len() - i,
            {
                assert(points@.take(i + 1).drop_last() =~= points@.take(i as int));
                grown = grown.enlarge(points[i]);
                i += 1;
            }
            assert(points@.take(i as int) =~= points@);
            Some(grown)
        },
        None => None,
    }
}

/// The box stretched by the positions of the path, where every command of
/// the path names its positions outright.
pub(crate) fn grow_by_path<U>(start: Aabb<i64, U>, path: &Path<i64, U>) -> (r: Option<Aabb<i64, U>>)
    ensures
        r.is_some() == commands_supported(path@),
        r.is_some() ==> r.unwrap() == start.grown_by_commands(path@),
{
    let mut grown = start;
    let mut i: usize = 0;
    assert(path@.take(0) =~= Seq::empty());
    while i < path.commands.len()
        invariant
            i <= path@.len(),
            commands_supported(path@.take(i as int)),
            grown == start.grown_by_commands(path@.take(i as int)),
        decreases path@.len() - i,
    {
        assert(path@.take(i + 1).drop_last() =~= path@.take(i as int));
        match grow_by_command(grown, &path.commands[i]) {
            Some(next) => {
                grown = next;
            },
            None => {
                return None;
            },
        }
        i += 1;
    }
    assert(path@.take(i as int) =~= path@);
    Some(grown)
}

/// The box stretched by the positions of the paths, where every command of
/// every path names its positions outright.
pub(crate) fn grow_by_paths<U>(start: Aabb<i64, U>, paths: &Vec<Path<i64, U>>) -> (r: Option<
    Aabb<i64, U>,
>)
    ensures
        r.is_some() == paths_supported(crate::path::path_views(paths@)),
        r.is_some() ==> r.unwrap() == start.grown_by_paths(crate::path::path_views(paths@)),
{
    let ghost outlines = crate::path::path_views(paths@);
    let mut grown = start;
    let mut i: usize = 0;
    assert(outlines.take(0) =~= Seq::empty());
    while i < paths.len()
        invariant
            i <= paths@.len(),
            outlines == crate::path::path_views(paths@),
            paths_supported(outlines.take(i as int)),
            grown == start.grown_by_paths(outlines.take(i as int)),
        decreases paths@.len() - i,
    {
        assert(outlines.take(i + 1).drop_last() =~= outlines.take(i as int));
        assert(outlines[i as int] == paths@[i as int]@);
        match grow_by_path(grown, &paths[i]) {
            Some(next) => {
                grown = next;
            },
            None => {
                return None;
            },
        }
        i += 1;
    }
    assert(outlines.take(i as int) =~= outlines);
    Some(grown)
}

} // verus!
