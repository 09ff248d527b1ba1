//! The canvas: an ordered record of styled shapes over a square logical space,
//! and the renderer interface that turns the record into an output.
//!
//! Drawing appends; nothing else changes a canvas. Rendering reads the record
//! from the first shape drawn to the last, so that a later shape lies over an
//! earlier one.

use vstd::prelude::*;
use crate::shape::{Path, Point, Shape, Stroke};

verus! {

/// One drawn shape with its styling. A shape with neither an outline nor a
/// fill is recorded like any other.
#[derive(Clone, Debug, PartialEq)]
pub struct Record<S, C> {
    pub shape: Shape<S>,
    pub stroke: Option<Stroke<S, C>>,
    pub fill: Option<C>,
}

/// A square logical space centred at the origin, and the shapes drawn on it
/// so far.
#[derive(Clone, Debug, PartialEq)]
pub struct Canvas<S, C> {
    size: u32,
    records: Vec<Record<S, C>>,
}

/// A backend that turns a canvas into an output of its own kind.
///
/// A renderer works on a frame: it makes a blank one, draws each record onto
/// it, and finishes it into the output. What each step does is the
/// implementation's to say, in the `ensures` of its own methods; the canvas
/// promises the order of the steps and what each is handed.
pub trait Renderer<S, C> {
    /// The output in progress.
    type Frame;

    /// What a finished rendering is.
    type Output;

    /// Makes the frame for a canvas of the given logical size, with nothing
    /// drawn on it.
    fn begin(&self, size: u32) -> Self::Frame;

    /// Draws one record onto the frame, over what the frame holds.
    fn draw(&self, frame: Self::Frame, record: &Record<S, C>, size: u32) -> Self::Frame;

    /// Finishes the frame.
    fn finish(&self, frame: Self::Frame) -> Self::Output;
}

/// Whether `frames` are the frames of one drawing of `records`: the first is
/// a blank frame of the renderer, and each next one is what the renderer made
/// of the frame before it and the next record, in order.
pub open spec fn is_drawing<S, C, R: Renderer<S, C>>(
    renderer: &R,
    size: u32,
    records: Seq<Record<S, C>>,
    frames: Seq<R::Frame>,
) -> bool {
    &&& frames.len() == records.len() + 1
    &&& call_ensures(R::begin, (renderer, size), frames[0])
    &&& forall|i: int|
        0 <= i < records.len() ==> call_ensures(
            R::draw,
            (renderer, frames[i], &records[i], size),
            #[trigger] frames[i + 1],
        )
}

/// Whether `output` is a rendering of `records`: the renderer finished into
/// it the last frame of a drawing of the records.
pub open spec fn is_rendering<S, C, R: Renderer<S, C>>(
    renderer: &R,
    size: u32,
    records: Seq<Record<S, C>>,
    output: R::Output,
) -> bool {
    exists|frames: Seq<R::Frame>|
        is_drawing(renderer, size, records, frames) && call_ensures(
            R::finish,
            (renderer, #[trigger] frames.last()),
            output,
        )
}

impl<S, C> View for Canvas<S, C> {
    type V = Seq<Record<S, C>>;

    /// The records, in the order in which they were drawn.
    closed spec fn view(&self) -> Seq<Record<S, C>> {
        self.records@
    }
}

impl<S, C> Canvas<S, C> {
    /// The side of the logical square.
    pub closed spec fn logical_size(&self) -> u32 {
        self.size
    }

    /// Whether `output` is a rendering of this canvas by `renderer`.
    pub open spec fn renders_to<R: Renderer<S, C>>(&self, renderer: &R, output: R::Output) -> bool {
        is_rendering(renderer, self.logical_size(), self@, output)
    }

    /// An empty canvas over a square of the given logical size.
    pub fn new(logical_size: u32) -> (canvas: Canvas<S, C>)
        ensures
            canvas@ == Seq::<Record<S, C>>::empty(),
            canvas.logical_size() == logical_size,
    {
        Canvas { size: logical_size, records: Vec::new() }
    }

    /// The side of the logical square.
    pub fn size(&self) -> (size: u32)
        ensures
            size == self.logical_size(),
    {
        self.size
    }

    /// The number of shapes drawn so far.
    pub fn len(&self) -> (n: usize)
        ensures
            n == self@.len(),
    {
        self.records.len()
    }

    /// Whether nothing was drawn yet.
    pub fn is_empty(&self) -> (empty: bool)
        ensures
            empty == (self@.len() == 0),
    {
        self.records.len() == 0
    }

    /// The records, in drawing order.
    pub fn records(&self) -> (records: &Vec<Record<S, C>>)
        ensures
            records@ == self@,
    {
        &self.records
    }

    /// Appends one record.
    pub fn draw(&mut self, shape: Shape<S>, stroke: Option<Stroke<S, C>>, fill: Option<C>)
        ensures
            final(self)@ == old(self)@.push(Record { shape, stroke, fill }),
            final(self).logical_size() == old(self).logical_size(),
    {
        self.records.push(Record { shape, stroke, fill });
    }

    /// Draws a circle.
    pub fn draw_circle(
        &mut self,
        center: Point<S>,
        radius: S,
        stroke: Option<Stroke<S, C>>,
        fill: Option<C>,
    )
        ensures
            final(self)@ == old(self)@.push(
                Record { shape: Shape::Circle { center, radius }, stroke, fill },
            ),
            final(self).logical_size() == old(self).logical_size(),
    {
        self.draw(Shape::Circle { center, radius }, stroke, fill);
    }

    /// Draws a straight line.
    pub fn draw_line(
        &mut self,
        start: Point<S>,
        end: Point<S>,
        stroke: Option<Stroke<S, C>>,
        fill: Option<C>,
    )
        ensures
            final(self)@ == old(self)@.push(
                Record { shape: Shape::Line { start, end }, stroke, fill },
            ),
            final(self).logical_size() == old(self).logical_size(),
    {
        self.draw(Shape::Line { start, end }, stroke, fill);
    }

    /// Draws a quadratic curve from `start` to `end`, bent towards `control`.
    pub fn draw_quadratic_bezier(
        &mut self,
        start: Point<S>,
        control: Point<S>,
        end: Point<S>,
        stroke: Option<Stroke<S, C>>,
        fill: Option<C>,
    )
        ensures
            final(self)@ == old(self)@.push(
                Record { shape: Shape::QuadraticBezier { start, control, end }, stroke, fill },
            ),
            final(self).logical_size() == old(self).logical_size(),
    {
        self.draw(Shape::QuadraticBezier { start, control, end }, stroke, fill);
    }

    /// Draws a path.
    pub fn draw_path(&mut self, path: Path<S>, stroke: Option<Stroke<S, C>>, fill: Option<C>)
        ensures
            final(self)@ == old(self)@.push(Record { shape: Shape::Path { path }, stroke, fill }),
            final(self).logical_size() == old(self).logical_size(),
    {
        self.draw(Shape::Path { path }, stroke, fill);
    }

    /// Renders the canvas: the renderer makes its blank frame, draws every
    /// record onto it, first to last, and finishes it. The canvas is left as
    /// it was.
    pub fn render<R: Renderer<S, C>>(&self, renderer: R) -> (output: R::Output)
        ensures
            self.renders_to(&renderer, output),
    {
        let mut frame = renderer.begin(self.size);
        let ghost mut frames: Seq<R::Frame> = seq![frame];
        let n = self.records.len();
        let mut i: usize = 0;
        while i < n
            invariant
                n == self.records@.len(),
                i <= n,
                frames.last() == frame,
                is_drawing(&renderer, self.size, self.records@.take(i as int), frames),
            decreases n - i,
        {
            let ghost before = frames;
            frame = renderer.draw(frame, &self.records[i], self.size);
            proof {
                frames = before.push(frame);
                let drawn = self.records@.take(i + 1);
                assert forall|k: int| 0 <= k < drawn.len() implies call_ensures(
                    R::draw,
                    (&renderer, frames[k], &drawn[k], self.size),
                    #[trigger] frames[k + 1],
                ) by {
                    if k < i {
                        assert(drawn[k] == self.records@.take(i as int)[k]);
                        assert(frames[k] == before[k]);
                        assert(frames[k + 1] == before[k + 1]);
                    }
                }
            }
            i = i + 1;
        }
        proof {
            assert(self.records@.take(n as int) =~= self.records@);
        }
        let output = renderer.finish(frame);
        assert(is_drawing(&renderer, self.logical_size(), self@, frames));
        output
    }
}


/// Whether each step of a renderer has one result only: two blank frames for
/// one size are equal, and so are two results of drawing one record onto one
/// frame, and two outputs finished from one frame.
pub open spec fn is_deterministic<S, C, R: Renderer<S, C>>(renderer: &R) -> bool {
    &&& forall|size: u32, a: R::Frame, b: R::Frame|
        #[trigger] call_ensures(R::begin, (renderer, size), a) && #[trigger] call_ensures(
            R::begin,
            (renderer, size),
            b,
        ) ==> a == b
    &&& forall|frame: R::Frame, record: &Record<S, C>, size: u32, a: R::Frame, b: R::Frame|
        #[trigger] call_ensures(R::draw, (renderer, frame, record, size), a)
            && #[trigger] call_ensures(R::draw, (renderer, frame, record, size), b) ==> a == b
    &&& forall|frame: R::Frame, a: R::Output, b: R::Output|
        #[trigger] call_ensures(R::finish, (renderer, frame), a) && #[trigger] call_ensures(
            R::finish,
            (renderer, frame),
            b,
        ) ==> a == b
}

/// A rendering of no records is a blank frame, finished: nothing but the
/// renderer's own configuration and the logical size goes into it.
pub proof fn lemma_rendering_of_nothing<S, C, R: Renderer<S, C>>(
    renderer: &R,
    size: u32,
    output: R::Output,
)
    ensures
        is_rendering(renderer, size, Seq::<Record<S, C>>::empty(), output) <==> exists|
            blank: R::Frame,
        |
            call_ensures(R::begin, (renderer, size), blank) && #[trigger] call_ensures(
                R::finish,
                (renderer, blank),
                output,
            ),
{
    let none = Seq::<Record<S, C>>::empty();
    if is_rendering(renderer, size, none, output) {
        let frames = choose|frames: Seq<R::Frame>|
            is_drawing(renderer, size, none, frames) && call_ensures(
                R::finish,
                (renderer, #[trigger] frames.last()),
                output,
            );
        assert(frames.last() == frames[0]);
        assert(call_ensures(R::finish, (renderer, frames[0]), output));
    }
    if exists|blank: R::Frame|
        call_ensures(R::begin, (renderer, size), blank) && #[trigger] call_ensures(
            R::finish,
            (renderer, blank),
            output,
        ) {
        let blank = choose|blank: R::Frame|
            call_ensures(R::begin, (renderer, size), blank) && #[trigger] call_ensures(
                R::finish,
                (renderer, blank),
                output,
            );
        let frames = seq![blank];
        assert(frames.last() == blank);
        assert(is_drawing(renderer, size, none, frames));
    }
}

/// The frames of a drawing, up to the one on which record `k` is drawn, are a
/// drawing of the records before `k`: a record is drawn over exactly those
/// that were drawn before it.
pub proof fn lemma_drawing_prefix<S, C, R: Renderer<S, C>>(
    renderer: &R,
    size: u32,
    records: Seq<Record<S, C>>,
    frames: Seq<R::Frame>,
    k: int,
)
    requires
        is_drawing(renderer, size, records, frames),
        0 <= k <= records.len(),
    ensures
        is_drawing(renderer, size, records.take(k), frames.take(k + 1)),
{
    let head = records.take(k);
    let first = frames.take(k + 1);
    assert forall|i: int| 0 <= i < head.len() implies call_ensures(
        R::draw,
        (renderer, first[i], &head[i], size),
        #[trigger] first[i + 1],
    ) by {
        assert(first[i] == frames[i]);
        assert(first[i + 1] == frames[i + 1]);
        assert(head[i] == records[i]);
    }
}

/// Drawing one more record extends a drawing by one frame, and leaves the
/// frames before it as they were.
pub proof fn lemma_drawing_push<S, C, R: Renderer<S, C>>(
    renderer: &R,
    size: u32,
    records: Seq<Record<S, C>>,
    frames: Seq<R::Frame>,
    record: Record<S, C>,
    next: R::Frame,
)
    requires
        is_drawing(renderer, size, records, frames),
        call_ensures(R::draw, (renderer, frames.last(), &record, size), next),
    ensures
        is_drawing(renderer, size, records.push(record), frames.push(next)),
{
    let more = records.push(record);
    let longer = frames.push(next);
    assert forall|i: int| 0 <= i < more.len() implies call_ensures(
        R::draw,
        (renderer, longer[i], &more[i], size),
        #[trigger] longer[i + 1],
    ) by {
        if i < records.len() {
            assert(longer[i] == frames[i]);
            assert(longer[i + 1] == frames[i + 1]);
            assert(more[i] == records[i]);
        } else {
            assert(longer[i] == frames.last());
            assert(more[i] == record);
        }
    }
}

/// With a deterministic renderer, two drawings of the same records have the
/// same frames.
pub proof fn lemma_drawing_unique<S, C, R: Renderer<S, C>>(
    renderer: &R,
    size: u32,
    records: Seq<Record<S, C>>,
    a: Seq<R::Frame>,
    b: Seq<R::Frame>,
)
    requires
        is_deterministic(renderer),
        is_drawing(renderer, size, records, a),
        is_drawing(renderer, size, records, b),
    ensures
        a == b,
    decreases records.len(),
{
    if records.len() == 0 {
        assert(a =~= b);
    } else {
        let k = records.len() - 1;
        lemma_drawing_prefix(renderer, size, records, a, k);
        lemma_drawing_prefix(renderer, size, records, b, k);
        lemma_drawing_unique(renderer, size, records.take(k), a.take(k + 1), b.take(k + 1));
        assert(a[k] == a.take(k + 1)[k]);
        assert(b[k] == b.take(k + 1)[k]);
        assert(call_ensures(R::draw, (renderer, a[k], &records[k], size), a[k + 1]));
        assert(call_ensures(R::draw, (renderer, b[k], &records[k], size), b[k + 1]));
        assert forall|i: int| 0 <= i < a.len() implies a[i] == b[i] by {
            if i <= k {
                assert(a[i] == a.take(k + 1)[i]);
                assert(b[i] == b.take(k + 1)[i]);
            }
        }
        assert(a =~= b);
    }
}

/// With a deterministic renderer, the records and the logical size decide the
/// output: any two renderings of them are equal.
pub proof fn lemma_rendering_unique<S, C, R: Renderer<S, C>>(
    renderer: &R,
    size: u32,
    records: Seq<Record<S, C>>,
    a: R::Output,
    b: R::Output,
)
    requires
        is_deterministic(renderer),
        is_rendering(renderer, size, records, a),
        is_rendering(renderer, size, records, b),
    ensures
        a == b,
{
    let fa = choose|frames: Seq<R::Frame>|
        is_drawing(renderer, size, records, frames) && call_ensures(
            R::finish,
            (renderer, #[trigger] frames.last()),
            a,
        );
    let fb = choose|frames: Seq<R::Frame>|
        is_drawing(renderer, size, records, frames) && call_ensures(
            R::finish,
            (renderer, #[trigger] frames.last()),
            b,
        );
    lemma_drawing_unique(renderer, size, records, fa, fb);
}

} // verus!
