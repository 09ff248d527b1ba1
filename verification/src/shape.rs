//! The vocabulary of a drawing: points, paths, shapes and their styling.
//!
//! Every type here is generic over `S`, the scalar of the logical coordinate
//! space, and where it carries paint over `C`, the colour. Nothing in this
//! module computes with either: values are recorded as given and handed on
//! unchanged, in the order in which they came.

use vstd::prelude::*;

verus! {

/// A point of the logical coordinate space, with the y axis pointing up.
#[derive(Clone, Copy, Debug, PartialEq)]
pub struct Point<S> {
    pub x: S,
    pub y: S,
}

/// How the end of a stroked line is drawn.
#[derive(Clone, Copy, Debug, PartialEq, Eq, Structural)]
pub enum LineEnd {
    /// Cut off flat at the end point.
    Butt,
    /// A half disc around the end point.
    Round,
    /// Cut off flat, half the stroke's width beyond the end point.
    Square,
}

/// The styling of an outline.
#[derive(Clone, Copy, Debug, PartialEq)]
pub struct Stroke<S, C> {
    pub color: C,
    /// The width of the outline, in logical units.
    pub width: S,
    pub line_end: LineEnd,
}

/// One command of a path.
#[derive(Clone, Copy, Debug, PartialEq)]
pub enum Segment<S> {
    /// Starts a new subpath at `to`, unconnected to what came before.
    MoveTo { to: Point<S> },
    /// A straight line from the current point to `to`.
    LineTo { to: Point<S> },
    /// A quadratic curve from the current point to `to`, bent towards
    /// `control`.
    QuadTo { control: Point<S>, to: Point<S> },
}

/// A finished path: its commands, in the order in which they were given.
#[derive(Clone, Debug, PartialEq)]
pub struct Path<S> {
    segments: Vec<Segment<S>>,
}

/// A path under construction.
#[derive(Clone, Debug, PartialEq)]
pub struct PathBuilder<S> {
    segments: Vec<Segment<S>>,
}

/// A drawable primitive.
#[derive(Clone, Debug, PartialEq)]
pub enum Shape<S> {
    Circle { center: Point<S>, radius: S },
    Line { start: Point<S>, end: Point<S> },
    QuadraticBezier { start: Point<S>, control: Point<S>, end: Point<S> },
    Path { path: Path<S> },
}

impl<S> Point<S> {
    /// The point with the given coordinates.
    pub fn new(x: S, y: S) -> (p: Point<S>)
        ensures
            p == (Point { x, y }),
    {
        Point { x, y }
    }
}

impl<S, C> Stroke<S, C> {
    /// An outline of the given colour, width and line end.
    pub fn new(color: C, width: S, line_end: LineEnd) -> (stroke: Stroke<S, C>)
        ensures
            stroke == (Stroke { color, width, line_end }),
    {
        Stroke { color, width, line_end }
    }
}

impl<S> View for Path<S> {
    type V = Seq<Segment<S>>;

    closed spec fn view(&self) -> Seq<Segment<S>> {
        self.segments@
    }
}

impl<S> View for PathBuilder<S> {
    type V = Seq<Segment<S>>;

    closed spec fn view(&self) -> Seq<Segment<S>> {
        self.segments@
    }
}

impl<S> Path<S> {
    /// The number of commands.
    pub fn len(&self) -> (n: usize)
        ensures
            n == self@.len(),
    {
        self.segments.len()
    }

    /// Whether the path has no command.
    pub fn is_empty(&self) -> (empty: bool)
        ensures
            empty == (self@.len() == 0),
    {
        self.segments.len() == 0
    }

    /// The command at `index`, counted from the first one given.
    pub fn segment(&self, index: usize) -> (segment: &Segment<S>)
        requires
            index < self@.len(),
        ensures
            *segment == self@[index as int],
    {
        &self.segments[index]
    }

    /// The command at `index`, or `None` past the end.
    pub fn get(&self, index: usize) -> (segment: Option<&Segment<S>>)
        ensures
            index < self@.len() ==> segment == Some(&self@[index as int]),
            index >= self@.len() ==> segment is None,
    {
        if index < self.segments.len() {
            Some(&self.segments[index])
        } else {
            None
        }
    }

    /// All commands, in order.
    pub fn segments(&self) -> (segments: &Vec<Segment<S>>)
        ensures
            segments@ == self@,
    {
        &self.segments
    }
}

impl<S> PathBuilder<S> {
    /// A builder that holds no command yet.
    pub fn new() -> (builder: PathBuilder<S>)
        ensures
            builder@ == Seq::<Segment<S>>::empty(),
    {
        PathBuilder { segments: Vec::new() }
    }

    /// Starts a new subpath at `to`.
    pub fn move_to(&mut self, to: Point<S>)
        ensures
            final(self)@ == old(self)@.push(Segment::MoveTo { to }),
    {
        self.segments.push(Segment::MoveTo { to });
    }

    /// Adds a straight line to `to`.
    pub fn line_to(&mut self, to: Point<S>)
        ensures
            final(self)@ == old(self)@.push(Segment::LineTo { to }),
    {
        self.segments.push(Segment::LineTo { to });
    }

    /// Adds a quadratic curve to `to`, bent towards `control`.
    pub fn quad_to(&mut self, control: Point<S>, to: Point<S>)
        ensures
            final(self)@ == old(self)@.push(Segment::QuadTo { control, to }),
    {
        self.segments.push(Segment::QuadTo { control, to });
    }

    /// The number of commands given so far.
    pub fn len(&self) -> (n: usize)
        ensures
            n == self@.len(),
    {
        self.segments.len()
    }

    /// The finished path: the commands given, in the order given.
    pub fn finish(self) -> (path: Path<S>)
        ensures
            path@ == self@,
    {
        Path { segments: self.segments }
    }
}

} // verus!
