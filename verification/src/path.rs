//! Paths: sequences of drawing commands in one coordinate space.

use crate::point::{Point2D, Vector2D};
use crate::polyline::Polyline;
use crate::transform::Transform2D;
use crate::units::fits_i64;
use vstd::prelude::*;

verus! {

/// One drawing command. The commands whose name ends in `To` carry
/// positions; those whose name ends in `By` carry displacements from the
/// pen's position, which a path does not record.
#[derive(Debug, PartialEq, Eq)]
#[allow(inconsistent_fields)]
pub enum LineCommand<T, U> {
    /// Move the pen to a position without drawing.
    MoveTo(Point2D<T, U>),
    /// Move the pen by a displacement without drawing.
    MoveBy(Vector2D<T, U>),
    /// Draw a straight line to a position.
    LineTo(Point2D<T, U>),
    /// Draw a straight line along a displacement.
    LineBy(Vector2D<T, U>),
    /// Draw a horizontal line to the given horizontal coordinate.
    HorizontalLineTo(T),
    /// Draw a horizontal line of the given extent.
    HorizontalLineBy(T),
    /// Draw a vertical line to the given vertical coordinate.
    VerticalLineTo(T),
    /// Draw a vertical line of the given extent.
    VerticalLineBy(T),
    /// Close the current outline with a straight line to its start.
    Close,
    /// Draw a cubic Bezier curve to a position.
    CubicBezierTo {
        /// Control point at the start of the curve.
        control_1: Point2D<T, U>,
        /// Control point at the end of the curve.
        control_2: Point2D<T, U>,
        /// Where the curve ends.
        end: Point2D<T, U>,
    },
    /// Draw a cubic Bezier curve along displacements.
    CubicBezierBy {
        /// Control point at the start of the curve.
        control_1: Vector2D<T, U>,
        /// Control point at the end of the curve.
        control_2: Vector2D<T, U>,
        /// Where the curve ends.
        end: Vector2D<T, U>,
    },
    /// Draw a cubic Bezier curve that continues the one before it.
    SmoothCubicBezierTo {
        /// Control point at the end of the curve.
        control: Point2D<T, U>,
        /// Where the curve ends.
        end: Point2D<T, U>,
    },
    /// Draw a cubic Bezier curve that continues the one before it, along
    /// displacements.
    SmoothCubicBezierBy {
        /// Control point at the end of the curve.
        control: Vector2D<T, U>,
        /// Where the curve ends.
        end: Vector2D<T, U>,
    },
    /// Draw a quadratic Bezier curve to a position.
    QuadraticBezierTo {
        /// The control point.
        control: Point2D<T, U>,
        /// Where the curve ends.
        end: Point2D<T, U>,
    },
    /// Draw a quadratic Bezier curve along displacements.
    QuadraticBezierBy {
        /// The control point.
        control: Vector2D<T, U>,
        /// Where the curve ends.
        end: Vector2D<T, U>,
    },
    /// Draw a quadratic Bezier curve that continues the one before it.
    SmoothQuadraticBezierTo(Point2D<T, U>),
    /// Draw a quadratic Bezier curve that continues the one before it, along
    /// a displacement.
    SmoothQuadraticBezierBy(Vector2D<T, U>),
    /// Draw an arc of an ellipse to a position.
    ArcTo {
        /// Horizontal radius of the ellipse.
        x_radius: T,
        /// Vertical radius of the ellipse.
        y_radius: T,
        /// Rotation of the ellipse against the horizontal axis.
        x_axis_rotation: T,
        /// Whether the longer of the two arcs is drawn.
        large_arc_flag: bool,
        /// Whether the arc turns in the positive direction.
        sweep_flag: bool,
        /// Where the arc ends.
        end: Point2D<T, U>,
    },
    /// Draw an arc of an ellipse along a displacement.
    ArcBy {
        /// Horizontal radius of the ellipse.
        x_radius: T,
        /// Vertical radius of the ellipse.
        y_radius: T,
        /// Rotation of the ellipse against the horizontal axis.
        x_axis_rotation: T,
        /// Whether the longer of the two arcs is drawn.
        large_arc_flag: bool,
        /// Whether the arc turns in the positive direction.
        sweep_flag: bool,
        /// Where the arc ends.
        end: Vector2D<T, U>,
    },
}

impl<T: Copy, U> Clone for LineCommand<T, U> {
    fn clone(&self) -> (r: Self)
        ensures
            r == *self,
    {
        *self
    }
}

impl<T: Copy, U> Copy for LineCommand<T, U> {}

impl<U> LineCommand<i64, U> {
    /// The positions that the command names outright: the end point and the
    /// control points of the commands that carry positions, none for
    /// `Close`. `None` for a command that can only be placed from the pen's
    /// position: the displacements, the horizontal and vertical lines, and
    /// the arcs.
    pub open spec fn anchors(self) -> Option<Seq<Point2D<i64, U>>> {
        match self {
            LineCommand::MoveTo(p) => Some(seq![p]),
            LineCommand::LineTo(p) => Some(seq![p]),
            LineCommand::SmoothQuadraticBezierTo(p) => Some(seq![p]),
            LineCommand::CubicBezierTo { control_1, control_2, end } => Some(
                seq![control_1, control_2, end],
            ),
            LineCommand::SmoothCubicBezierTo { control, end } => Some(seq![control, end]),
            LineCommand::QuadraticBezierTo { control, end } => Some(seq![control, end]),
            LineCommand::Close => Some(Seq::empty()),
            _ => None,
        }
    }

    /// The image of every coordinate of the command can be held.
    pub open spec fn carried_by<V>(self, t: Transform2D<U, V>) -> bool {
        match self {
            LineCommand::MoveTo(p) => t.carries_point(p),
            LineCommand::MoveBy(v) => t.carries_vector(v),
            LineCommand::LineTo(p) => t.carries_point(p),
            LineCommand::LineBy(v) => t.carries_vector(v),
            LineCommand::HorizontalLineTo(x) => fits_i64(t.map_x(x as int)),
            LineCommand::HorizontalLineBy(dx) => fits_i64(t.scaled_x(dx as int)),
            LineCommand::VerticalLineTo(y) => fits_i64(t.map_y(y as int)),
            LineCommand::VerticalLineBy(dy) => fits_i64(t.scaled_y(dy as int)),
            LineCommand::Close => true,
            LineCommand::CubicBezierTo { control_1, control_2, end } => {
                &&& t.carries_point(control_1)
                &&& t.carries_point(control_2)
                &&& t.carries_point(end)
            },
            LineCommand::CubicBezierBy { control_1, control_2, end } => {
                &&& t.carries_vector(control_1)
                &&& t.carries_vector(control_2)
                &&& t.carries_vector(end)
            },
            LineCommand::SmoothCubicBezierTo { control, end } => {
                &&& t.carries_point(control)
                &&& t.carries_point(end)
            },
            LineCommand::SmoothCubicBezierBy { control, end } => {
                &&& t.carries_vector(control)
                &&& t.carries_vector(end)
            },
            LineCommand::QuadraticBezierTo { control, end } => {
                &&& t.carries_point(control)
                &&& t.carries_point(end)
            },
            LineCommand::QuadraticBezierBy { control, end } => {
                &&& t.carries_vector(control)
                &&& t.carries_vector(end)
            },
            LineCommand::SmoothQuadraticBezierTo(p) => t.carries_point(p),
            LineCommand::SmoothQuadraticBezierBy(v) => t.carries_vector(v),
            LineCommand::ArcTo { x_radius, y_radius, x_axis_rotation, large_arc_flag, sweep_flag, end } => {
                &&& fits_i64(t.scaled_x(x_radius as int))
                &&& fits_i64(t.scaled_y(y_radius as int))
                &&& t.carries_point(end)
            },
            LineCommand::ArcBy { x_radius, y_radius, x_axis_rotation, large_arc_flag, sweep_flag, end } => {
                &&& fits_i64(t.scaled_x(x_radius as int))
                &&& fits_i64(t.scaled_y(y_radius as int))
                &&& t.carries_vector(end)
            },
        }
    }

    /// The same command in the space `V`: every position mapped by `t`,
    /// every displacement and radius scaled by it, the rotation and the
    /// flags of an arc kept.
    pub open spec fn image<V>(self, t: Transform2D<U, V>) -> LineCommand<i64, V> {
        match self {
            LineCommand::MoveTo(p) => LineCommand::MoveTo(t.point_image(p)),
            LineCommand::MoveBy(v) => LineCommand::MoveBy(t.vector_image(v)),
            LineCommand::LineTo(p) => LineCommand::LineTo(t.point_image(p)),
            LineCommand::LineBy(v) => LineCommand::LineBy(t.vector_image(v)),
            LineCommand::HorizontalLineTo(x) => LineCommand::HorizontalLineTo(
                t.map_x(x as int) as i64,
            ),
            LineCommand::HorizontalLineBy(dx) => LineCommand::HorizontalLineBy(
                t.scaled_x(dx as int) as i64,
            ),
            LineCommand::VerticalLineTo(y) => LineCommand::VerticalLineTo(t.map_y(y as int) as i64),
            LineCommand::VerticalLineBy(dy) => LineCommand::VerticalLineBy(
                t.scaled_y(dy as int) as i64,
            ),
            LineCommand::Close => LineCommand::Close,
            LineCommand::CubicBezierTo { control_1, control_2, end } => LineCommand::CubicBezierTo {
                control_1: t.point_image(control_1),
                control_2: t.point_image(control_2),
                end: t.point_image(end),
            },
            LineCommand::CubicBezierBy { control_1, control_2, end } => LineCommand::CubicBezierBy {
                control_1: t.vector_image(control_1),
                control_2: t.vector_image(control_2),
                end: t.vector_image(end),
            },
            LineCommand::SmoothCubicBezierTo { control, end } => LineCommand::SmoothCubicBezierTo {
                control: t.point_image(control),
                end: t.point_image(end),
            },
            LineCommand::SmoothCubicBezierBy { control, end } => LineCommand::SmoothCubicBezierBy {
                control: t.vector_image(control),
                end: t.vector_image(end),
            },
            LineCommand::QuadraticBezierTo { control, end } => LineCommand::QuadraticBezierTo {
                control: t.point_image(control),
                end: t.point_image(end),
            },
            LineCommand::QuadraticBezierBy { control, end } => LineCommand::QuadraticBezierBy {
                control: t.vector_image(control),
                end: t.vector_image(end),
            },
            LineCommand::SmoothQuadraticBezierTo(p) => LineCommand::SmoothQuadraticBezierTo(
                t.point_image(p),
            ),
            LineCommand::SmoothQuadraticBezierBy(v) => LineCommand::SmoothQuadraticBezierBy(
                t.vector_image(v),
            ),
            LineCommand::ArcTo { x_radius, y_radius, x_axis_rotation, large_arc_flag, sweep_flag, end } => LineCommand::ArcTo {
                x_radius: t.scaled_x(x_radius as int) as i64,
                y_radius: t.scaled_y(y_radius as int) as i64,
                x_axis_rotation,
                large_arc_flag,
                sweep_flag,
                end: t.point_image(end),
            },
            LineCommand::ArcBy { x_radius, y_radius, x_axis_rotation, large_arc_flag, sweep_flag, end } => LineCommand::ArcBy {
                x_radius: t.scaled_x(x_radius as int) as i64,
                y_radius: t.scaled_y(y_radius as int) as i64,
                x_axis_rotation,
                large_arc_flag,
                sweep_flag,
                end: t.vector_image(end),
            },
        }
    }

    /// The positions that the command names outright, where it can be
    /// placed without the pen's position.
    pub fn anchor_points(&self) -> (r: Option<Vec<Point2D<i64, U>>>)
        ensures
            r.is_some() == self.anchors().is_some(),
            r.is_some() ==> r.unwrap()@ == self.anchors().unwrap(),
    {
        let mut points: Vec<Point2D<i64, U>> = Vec::new();
        match self {
            LineCommand::MoveTo(p) => {
                points.push(*p);
            },
            LineCommand::LineTo(p) => {
                points.push(*p);
            },
            LineCommand::SmoothQuadraticBezierTo(p) => {
                points.push(*p);
            },
            LineCommand::CubicBezierTo { control_1, control_2, end } => {
                points.push(*control_1);
                points.push(*control_2);
                points.push(*end);
            },
            LineCommand::SmoothCubicBezierTo { control, end } => {
                points.push(*control);
                points.push(*end);
            },
            LineCommand::QuadraticBezierTo { control, end } => {
                points.push(*control);
                points.push(*end);
            },
            LineCommand::Close => {},
            _ => {
                return None;
            },
        }
        assert(points@ =~= self.anchors().unwrap());
        Some(points)
    }

    /// The same command in the space `V`, where every coordinate of it can
    /// be held.
    pub fn checked_transform<V>(&self, t: &Transform2D<U, V>) -> (r: Option<LineCommand<i64, V>>)
        requires
            t.wf(),
        ensures
            r == if self.carried_by(*t) {
                Some(self.image(*t))
            } else {
                None
            },
    {
        match self {
            LineCommand::MoveTo(p) => match t.checked_point(*p) {
                Some(q) => Some(LineCommand::MoveTo(q)),
                None => None,
            },
            LineCommand::MoveBy(v) => match t.checked_vector(*v) {
                Some(w) => Some(LineCommand::MoveBy(w)),
                None => None,
            },
            LineCommand::LineTo(p) => match t.checked_point(*p) {
                Some(q) => Some(LineCommand::LineTo(q)),
                None => None,
            },
            LineCommand::LineBy(v) => match t.checked_vector(*v) {
                Some(w) => Some(LineCommand::LineBy(w)),
                None => None,
            },
            LineCommand::HorizontalLineTo(x) => match t.checked_x(*x) {
                Some(c) => Some(LineCommand::HorizontalLineTo(c)),
                None => None,
            },
            LineCommand::HorizontalLineBy(dx) => match t.checked_dx(*dx) {
                Some(c) => Some(LineCommand::HorizontalLineBy(c)),
                None => None,
            },
            LineCommand::VerticalLineTo(y) => match t.checked_y(*y) {
                Some(c) => Some(LineCommand::VerticalLineTo(c)),
                None => None,
            },
            LineCommand::VerticalLineBy(dy) => match t.checked_dy(*dy) {
                Some(c) => Some(LineCommand::VerticalLineBy(c)),
                None => None,
            },
            LineCommand::Close => Some(LineCommand::Close),
            LineCommand::CubicBezierTo { control_1, control_2, end } => match (
                t.checked_point(*control_1),
                t.checked_point(*control_2),
                t.checked_point(*end),
            ) {
                (Some(a), Some(b), Some(c)) => Some(
                    LineCommand::CubicBezierTo { control_1: a, control_2: b, end: c },
                ),
                _ => None,
            },
            LineCommand::CubicBezierBy { control_1, control_2, end } => match (
                t.checked_vector(*control_1),
                t.checked_vector(*control_2),
                t.checked_vector(*end),
            ) {
                (Some(a), Some(b), Some(c)) => Some(
                    LineCommand::CubicBezierBy { control_1: a, control_2: b, end: c },
                ),
                _ => None,
            },
            LineCommand::SmoothCubicBezierTo { control, end } => match (
                t.checked_point(*control),
                t.checked_point(*end),
            ) {
                (Some(a), Some(b)) => Some(LineCommand::SmoothCubicBezierTo { control: a, end: b }),
                _ => None,
            },
            LineCommand::SmoothCubicBezierBy { control, end } => match (
                t.checked_vector(*control),
                t.checked_vector(*end),
            ) {
                (Some(a), Some(b)) => Some(LineCommand::SmoothCubicBezierBy { control: a, end: b }),
                _ => None,
            },
            LineCommand::QuadraticBezierTo { control, end } => match (
                t.checked_point(*control),
                t.checked_point(*end),
            ) {
                (Some(a), Some(b)) => Some(LineCommand::QuadraticBezierTo { control: a, end: b }),
                _ => None,
            },
            LineCommand::QuadraticBezierBy { control, end } => match (
                t.checked_vector(*control),
                t.checked_vector(*end),
            ) {
                (Some(a), Some(b)) => Some(LineCommand::QuadraticBezierBy { control: a, end: b }),
                _ => None,
            },
            LineCommand::SmoothQuadraticBezierTo(p) => match t.checked_point(*p) {
                Some(q) => Some(LineCommand::SmoothQuadraticBezierTo(q)),
                None => None,
            },
            LineCommand::SmoothQuadraticBezierBy(v) => match t.checked_vector(*v) {
                Some(w) => Some(LineCommand::SmoothQuadraticBezierBy(w)),
                None => None,
            },
            LineCommand::ArcTo { x_radius, y_radius, x_axis_rotation, large_arc_flag, sweep_flag, end } => match (
                t.checked_dx(*x_radius),
                t.checked_dy(*y_radius),
                t.checked_point(*end),
            ) {
                (Some(rx), Some(ry), Some(e)) => Some(
                    LineCommand::ArcTo {
                        x_radius: rx,
                        y_radius: ry,
                        x_axis_rotation: *x_axis_rotation,
                        large_arc_flag: *large_arc_flag,
                        sweep_flag: *sweep_flag,
                        end: e,
                    },
                ),
                _ => None,
            },
            LineCommand::ArcBy { x_radius, y_radius, x_axis_rotation, large_arc_flag, sweep_flag, end } => match (
                t.checked_dx(*x_radius),
                t.checked_dy(*y_radius),
                t.checked_vector(*end),
            ) {
                (Some(rx), Some(ry), Some(e)) => Some(
                    LineCommand::ArcBy {
                        x_radius: rx,
                        y_radius: ry,
                        x_axis_rotation: *x_axis_rotation,
                        large_arc_flag: *large_arc_flag,
                        sweep_flag: *sweep_flag,
                        end: e,
                    },
                ),
                _ => None,
            },
        }
    }
}

/// The positions that the image of a command names are the images of the
/// positions that the command names, in the same order; and the image of a
/// command names positions where the command does.
pub proof fn lemma_image_anchors<U, V>(c: LineCommand<i64, U>, t: Transform2D<U, V>)
    ensures
        c.image(t).anchors().is_some() == c.anchors().is_some(),
        c.anchors().is_some() ==> c.image(t).anchors().unwrap() == c.anchors().unwrap().map_values(
            |p: Point2D<i64, U>| t.point_image(p),
        ),
{
    if c.anchors().is_some() {
        assert(c.image(t).anchors().unwrap() =~= c.anchors().unwrap().map_values(
            |p: Point2D<i64, U>| t.point_image(p),
        ));
    }
}

/// A sequence of drawing commands in the space `U`: the unit of drawing.
#[derive(Debug, PartialEq, Eq)]
pub struct Path<T, U> {
    /// The commands, in the order in which the pen follows them.
    pub commands: Vec<LineCommand<T, U>>,
}

impl<T, U> View for Path<T, U> {
    type V = Seq<LineCommand<T, U>>;

    /// The commands of the path, in order.
    open spec fn view(&self) -> Seq<LineCommand<T, U>> {
        self.commands@
    }
}

/// The commands of each path of a sequence of paths.
pub open spec fn path_views<T, U>(paths: Seq<Path<T, U>>) -> Seq<Seq<LineCommand<T, U>>> {
    paths.map_values(|p: Path<T, U>| p@)
}

impl<T, U> Path<T, U> {
    /// A path without commands.
    pub fn new() -> (path: Path<T, U>)
        ensures
            path@ == Seq::<LineCommand<T, U>>::empty(),
    {
        Path { commands: Vec::new() }
    }

    /// The path of the given commands.
    pub fn with_commands(commands: Vec<LineCommand<T, U>>) -> (path: Path<T, U>)
        ensures
            path@ == commands@,
    {
        Path { commands }
    }
}

impl<T: Copy, U> Clone for Path<T, U> {
    fn clone(&self) -> (r: Self)
        ensures
            r@ == self@,
    {
        let mut commands: Vec<LineCommand<T, U>> = Vec::new();
        let mut i: usize = 0;
        while i < self.commands.len()
            invariant
                i <= self.commands@.len(),
                commands@ == self.commands@.take(i as int),
            decreases self.commands@.len() - i,
        {
            commands.push(self.commands[i]);
            assert(self.commands@.take(i as int).push(self.commands@[i as int])
                =~= self.commands@.take(i + 1));
            i += 1;
        }
        assert(self.commands@.take(i as int) =~= self.commands@);
        Path { commands }
    }
}

/// The image of every coordinate of every command can be held.
pub open spec fn commands_carried<U, V>(
    commands: Seq<LineCommand<i64, U>>,
    t: Transform2D<U, V>,
) -> bool {
    forall|i: int| 0 <= i < commands.len() ==> (#[trigger] commands[i]).carried_by(t)
}

/// The image of each command, in the same order.
pub open spec fn commands_image<U, V>(
    commands: Seq<LineCommand<i64, U>>,
    t: Transform2D<U, V>,
) -> Seq<LineCommand<i64, V>> {
    commands.map_values(|c: LineCommand<i64, U>| c.image(t))
}

/// The image of every coordinate of every path can be held.
pub open spec fn outlines_carried<U, V>(
    outlines: Seq<Seq<LineCommand<i64, U>>>,
    t: Transform2D<U, V>,
) -> bool {
    forall|i: int| 0 <= i < outlines.len() ==> commands_carried(#[trigger] outlines[i], t)
}

/// The image of each path, in the same order.
pub open spec fn outlines_image<U, V>(
    outlines: Seq<Seq<LineCommand<i64, U>>>,
    t: Transform2D<U, V>,
) -> Seq<Seq<LineCommand<i64, V>>> {
    outlines.map_values(|o: Seq<LineCommand<i64, U>>| commands_image(o, t))
}

/// The image of commands that come one after another is the image of the
/// first ones followed by the image of the others: a map takes a path
/// command by command.
pub proof fn lemma_commands_image_concat<U, V>(
    a: Seq<LineCommand<i64, U>>,
    b: Seq<LineCommand<i64, U>>,
    t: Transform2D<U, V>,
)
    ensures
        commands_image(a + b, t) == commands_image(a, t) + commands_image(b, t),
        commands_carried(a + b, t) == (commands_carried(a, t) && commands_carried(b, t)),
{
    assert(commands_image(a + b, t) =~= commands_image(a, t) + commands_image(b, t));
    if commands_carried(a + b, t) {
        assert forall|i: int| 0 <= i < a.len() implies (#[trigger] a[i]).carried_by(t) by {
            assert((a + b)[i] == a[i]);
        }
        assert forall|i: int| 0 <= i < b.len() implies (#[trigger] b[i]).carried_by(t) by {
            assert((a + b)[a.len() + i] == b[i]);
        }
    }
}

impl<U> Path<i64, U> {
    /// The image of every coordinate of the path can be held.
    pub open spec fn carried_by<V>(self, t: Transform2D<U, V>) -> bool {
        commands_carried(self@, t)
    }

    /// The commands of the path in the space `V`: the image of each, in the
    /// same order.
    pub open spec fn image<V>(self, t: Transform2D<U, V>) -> Seq<LineCommand<i64, V>> {
        commands_image(self@, t)
    }

    /// The path in the space `V`, where every coordinate of it can be held.
    pub fn checked_transform<V>(&self, t: &Transform2D<U, V>) -> (r: Option<Path<i64, V>>)
        requires
            t.wf(),
        ensures
            r.is_some() == self.carried_by(*t),
            r.is_some() ==> r.unwrap()@ == self.image(*t),
    {
        let mut commands: Vec<LineCommand<i64, V>> = Vec::new();
        let mut i: usize = 0;
        while i < self.commands.len()
            invariant
                t.wf(),
                i <= self.commands@.len(),
                commands@.len() == i,
                forall|j: int| 0 <= j < i ==> (#[trigger] self@[j]).carried_by(*t),
                forall|j: int| 0 <= j < i ==> commands@[j] == (#[trigger] self@[j]).image(*t),
            decreases self.commands@.len() - i,
        {
            match self.commands[i].checked_transform(t) {
                Some(c) => {
                    commands.push(c);
                },
                None => {
                    return None;
                },
            }
            i += 1;
        }
        assert(commands@ =~= self.image(*t));
        Some(Path { commands })
    }

    /// Whether the image of every coordinate of the path can be held.
    pub fn fits<V>(&self, t: &Transform2D<U, V>) -> (b: bool)
        requires
            t.wf(),
        ensures
            b == self.carried_by(*t),
    {
        self.checked_transform(t).is_some()
    }

    /// The path in the space `V`. A new path: this one is left as it is.
    pub fn transform<V>(&self, t: &Transform2D<U, V>) -> (path: Path<i64, V>)
        requires
            t.wf(),
            self.carried_by(*t),
        ensures
            path@ == self.image(*t),
    {
        match self.checked_transform(t) {
            Some(path) => path,
            None => vstd::pervasive::unreached(),
        }
    }
}

/// What can be drawn: anything that stands for a finite sequence of paths
/// in the space `U`.
pub trait ToPaths<T, U> {
    /// The commands of each path that the value stands for.
    spec fn outlines(&self) -> Seq<Seq<LineCommand<T, U>>>;

    /// The paths that the value stands for.
    fn to_paths(&self) -> (paths: Vec<Path<T, U>>)
        ensures
            path_views(paths@) == self.outlines(),
    ;
}

/// The commands of each path that the items stand for: those of the first
/// item, then those of the second, and so on.
pub open spec fn all_outlines<T, U, P: ToPaths<T, U>>(items: Seq<P>) -> Seq<Seq<LineCommand<T, U>>> {
    items.map_values(|p: P| p.outlines()).flatten()
}

/// The paths of one item more come after those of the items before it.
pub proof fn lemma_all_outlines_step<T, U, P: ToPaths<T, U>>(items: Seq<P>, i: int)
    requires
        0 <= i < items.len(),
    ensures
        all_outlines(items.take(i + 1)) == all_outlines(items.take(i)) + items[i].outlines(),
{
    let f = |p: P| p.outlines();
    assert(items.take(i + 1) =~= items.take(i).push(items[i]));
    assert(items.take(i).push(items[i]).map_values(f) =~= items.take(i).map_values(f).push(
        f(items[i]),
    ));
    items.take(i).map_values(f).lemma_flatten_push(f(items[i]));
}

/// The image of paths that come one after another is the image of the
/// first ones followed by the image of the others.
pub proof fn lemma_outlines_image_concat<U, V>(
    a: Seq<Seq<LineCommand<i64, U>>>,
    b: Seq<Seq<LineCommand<i64, U>>>,
    t: Transform2D<U, V>,
)
    ensures
        outlines_image(a + b, t) == outlines_image(a, t) + outlines_image(b, t),
{
    assert(outlines_image(a + b, t) =~= outlines_image(a, t) + outlines_image(b, t));
}

impl<T: Copy, U> ToPaths<T, U> for Path<T, U> {
    /// A path stands for itself.
    open spec fn outlines(&self) -> Seq<Seq<LineCommand<T, U>>> {
        seq![self@]
    }

    fn to_paths(&self) -> (paths: Vec<Path<T, U>>) {
        let mut paths: Vec<Path<T, U>> = Vec::new();
        paths.push(self.clone());
        assert(path_views(paths@) =~= seq![self@]);
        paths
    }
}

/// The commands that draw a line along the given points: a move to the
/// first, then a straight line to each of the others.
pub open spec fn polyline_commands<T, U>(points: Seq<Point2D<T, U>>) -> Seq<LineCommand<T, U>> {
    Seq::new(
        points.len(),
        |i: int|
            if i == 0 {
                LineCommand::MoveTo(points[i])
            } else {
                LineCommand::LineTo(points[i])
            },
    )
}

impl<T: Copy, U> ToPaths<T, U> for Polyline<T, U> {
    /// A polyline stands for one path: a move to its first point and a
    /// straight line to each of the others.
    open spec fn outlines(&self) -> Seq<Seq<LineCommand<T, U>>> {
        seq![polyline_commands(self@)]
    }

    fn to_paths(&self) -> (paths: Vec<Path<T, U>>) {
        let points = self.vertices();
        let mut commands: Vec<LineCommand<T, U>> = Vec::new();
        commands.push(LineCommand::MoveTo(points[0]));
        let mut i: usize = 1;
        while i < points.len()
            invariant
                1 <= i <= points@.len(),
                commands@.len() == i,
                forall|j: int| 0 <= j < i ==> commands@[j] == #[trigger] polyline_commands(points@)[j],
            decreases points@.len() - i,
        {
            commands.push(LineCommand::LineTo(points[i]));
            i += 1;
        }
        assert(commands@ =~= polyline_commands(self@));
        let mut paths: Vec<Path<T, U>> = Vec::new();
        paths.push(Path { commands });
        assert(path_views(paths@) =~= seq![polyline_commands(self@)]);
        paths
    }
}

} // verus!
