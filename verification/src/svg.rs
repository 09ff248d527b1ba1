//! The vector backend: a canvas whose numbers are already text, written as an
//! SVG document.
//!
//! The document has the view box of the canvas's logical square, centred at
//! the origin, then the background if there is one, then one element for each
//! record in drawing order, inside a group that turns the y axis upwards.
//! Numbers are not looked into: whatever text stands for a coordinate goes
//! into the document as it is.

use vstd::prelude::*;
use vstd::string::*;
use crate::canvas::{is_drawing, is_rendering, Record, Renderer};
use crate::color::{format_hex, Rgba8};
use crate::decimal::{decimal_text, decimal_value, lemma_decimal_round_trip, push_decimal};
use crate::shape::{LineEnd, Path, Point, Segment, Shape, Stroke};

verus! {

/// The configuration of the vector backend.
#[derive(Clone, Debug, PartialEq, Eq)]
pub struct SvgWriter {
    /// The width of the document, as the text of a number.
    pub width: String,
    /// The height of the document, as the text of a number.
    pub height: String,
    /// The colour behind all shapes, if any.
    pub background: Option<Rgba8>,
    /// Whether paint is written as one `style` attribute rather than as one
    /// attribute for each property.
    pub inline_style: bool,
    /// Whether the document begins with an XML declaration.
    pub prolog: bool,
}

/// An attribute: a space, the name, and the value in double quotes.
pub open spec fn attr_text(name: Seq<char>, value: Seq<char>) -> Seq<char> {
    " "@ + name + "=\""@ + value + "\""@
}

/// A colour as markup: six digits where it is opaque, eight where it is not.
pub open spec fn color_text(c: Rgba8) -> Seq<char> {
    format_hex(c, c.a != 255)
}

/// The name of a line end.
pub open spec fn line_end_text(line_end: LineEnd) -> Seq<char> {
    match line_end {
        LineEnd::Butt => "butt"@,
        LineEnd::Round => "round"@,
        LineEnd::Square => "square"@,
    }
}

/// The value of the fill property: the colour, or `none`.
pub open spec fn fill_text(fill: Option<Rgba8>) -> Seq<char> {
    match fill {
        Some(c) => color_text(c),
        None => "none"@,
    }
}

/// The paint of an element as one attribute for each property. Without an
/// outline, nothing is said of the stroke.
pub open spec fn paint_attrs_text(
    stroke: Option<Stroke<String, Rgba8>>,
    fill: Option<Rgba8>,
) -> Seq<char> {
    attr_text("fill"@, fill_text(fill)) + match stroke {
        Some(s) => attr_text("stroke"@, color_text(s.color)) + attr_text(
            "stroke-width"@,
            s.width@,
        ) + attr_text("stroke-linecap"@, line_end_text(s.line_end)),
        None => Seq::<char>::empty(),
    }
}

/// The paint of an element as the value of one `style` attribute.
pub open spec fn style_text(stroke: Option<Stroke<String, Rgba8>>, fill: Option<Rgba8>) -> Seq<
    char,
> {
    "fill:"@ + fill_text(fill) + match stroke {
        Some(s) => ";stroke:"@ + color_text(s.color) + ";stroke-width:"@ + s.width@
            + ";stroke-linecap:"@ + line_end_text(s.line_end),
        None => Seq::<char>::empty(),
    }
}

/// The paint of an element, in the form that the configuration asks for.
pub open spec fn paint_text(
    inline_style: bool,
    stroke: Option<Stroke<String, Rgba8>>,
    fill: Option<Rgba8>,
) -> Seq<char> {
    if inline_style {
        attr_text("style"@, style_text(stroke, fill))
    } else {
        paint_attrs_text(stroke, fill)
    }
}

/// A point as path data: its two coordinates with a space between.
pub open spec fn point_text(p: Point<String>) -> Seq<char> {
    p.x@ + " "@ + p.y@
}

/// One path command as path data.
pub open spec fn segment_text(segment: Segment<String>) -> Seq<char> {
    match segment {
        Segment::MoveTo { to } => "M "@ + point_text(to),
        Segment::LineTo { to } => "L "@ + point_text(to),
        Segment::QuadTo { control, to } => "Q "@ + point_text(control) + " "@ + point_text(to),
    }
}

/// The commands of a path as path data, in order, with a space between two
/// commands.
pub open spec fn path_data_text(segments: Seq<Segment<String>>) -> Seq<char>
    decreases segments.len(),
{
    if segments.len() == 0 {
        Seq::<char>::empty()
    } else if segments.len() == 1 {
        segment_text(segments[0])
    } else {
        path_data_text(segments.drop_last()) + " "@ + segment_text(segments.last())
    }
}

/// The tag and geometry of a shape. A curve is a path of its own: a move to
/// its start, then one quadratic command.
pub open spec fn shape_text(shape: Shape<String>) -> Seq<char> {
    match shape {
        Shape::Circle { center, radius } => "<circle"@ + attr_text("cx"@, center.x@) + attr_text(
            "cy"@,
            center.y@,
        ) + attr_text("r"@, radius@),
        Shape::Line { start, end } => "<line"@ + attr_text("x1"@, start.x@) + attr_text(
            "y1"@,
            start.y@,
        ) + attr_text("x2"@, end.x@) + attr_text("y2"@, end.y@),
        Shape::QuadraticBezier { start, control, end } => "<path"@ + attr_text(
            "d"@,
            "M "@ + point_text(start) + " Q "@ + point_text(control) + " "@ + point_text(end),
        ),
        Shape::Path { path } => "<path"@ + attr_text("d"@, path_data_text(path@)),
    }
}

/// The element of one record: the shape, its paint, and the end of the tag
/// with a line break.
pub open spec fn element_text(inline_style: bool, record: Record<String, Rgba8>) -> Seq<char> {
    shape_text(record.shape) + paint_text(inline_style, record.stroke, record.fill) + "/>\n"@
}

/// The elements of the records, first to last.
pub open spec fn elements_text(inline_style: bool, records: Seq<Record<String, Rgba8>>) -> Seq<
    char,
>
    decreases records.len(),
{
    if records.len() == 0 {
        Seq::<char>::empty()
    } else {
        elements_text(inline_style, records.drop_last()) + element_text(
            inline_style,
            records.last(),
        )
    }
}

/// Half of a logical size: the whole part, and `.5` where the size is odd.
pub open spec fn half_text(size: u32) -> Seq<char> {
    decimal_text((size / 2) as nat) + if size % 2 == 1 {
        ".5"@
    } else {
        Seq::<char>::empty()
    }
}

/// The least coordinate of the logical square: minus half its side.
pub open spec fn min_text(size: u32) -> Seq<char> {
    "-"@ + half_text(size)
}

/// The view box of the logical square: its least x and y, its width and its
/// height.
pub open spec fn view_box_text(size: u32) -> Seq<char> {
    min_text(size) + " "@ + min_text(size) + " "@ + decimal_text(size as nat) + " "@
        + decimal_text(size as nat)
}

/// The background: a rectangle over the whole logical square.
pub open spec fn background_text(size: u32, color: Rgba8) -> Seq<char> {
    "<rect"@ + attr_text("x"@, min_text(size)) + attr_text("y"@, min_text(size)) + attr_text(
        "width"@,
        decimal_text(size as nat),
    ) + attr_text("height"@, decimal_text(size as nat)) + attr_text("fill"@, color_text(color))
        + "/>\n"@
}

/// What closes the document: the end of the group and of the root element.
pub open spec fn footer_text() -> Seq<char> {
    "</g>\n</svg>\n"@
}

impl SvgWriter {
    /// What opens the document: the declaration if asked for, the root
    /// element with the document's size and the view box, the background if
    /// there is one, and the start of the group that turns the y axis upwards.
    pub open spec fn header_text(&self, size: u32) -> Seq<char> {
        (if self.prolog {
            "<?xml version=\"1.0\" encoding=\"UTF-8\"?>\n"@
        } else {
            Seq::<char>::empty()
        }) + "<svg xmlns=\"http://www.w3.org/2000/svg\""@ + attr_text("width"@, self.width@)
            + attr_text("height"@, self.height@) + attr_text("viewBox"@, view_box_text(size))
            + ">\n"@ + (match self.background {
            Some(c) => background_text(size, c),
            None => Seq::<char>::empty(),
        }) + "<g transform=\"scale(1,-1)\">\n"@
    }

    /// The whole document for the given records.
    pub open spec fn document_text(&self, size: u32, records: Seq<Record<String, Rgba8>>) -> Seq<
        char,
    > {
        self.header_text(size) + elements_text(self.inline_style, records) + footer_text()
    }

    /// A writer for a document of the given size.
    pub fn new(
        width: String,
        height: String,
        background: Option<Rgba8>,
        inline_style: bool,
        prolog: bool,
    ) -> (writer: SvgWriter)
        ensures
            writer == (SvgWriter { width, height, background, inline_style, prolog }),
    {
        SvgWriter { width, height, background, inline_style, prolog }
    }
}

/// Appends an attribute.
fn push_attr(text: &mut String, name: &str, value: &str)
    ensures
        final(text)@ == old(text)@ + attr_text(name@, value@),
{
    text.append(" ");
    text.append(name);
    text.append("=\"");
    text.append(value);
    text.append("\"");
    assert(text@ =~= old(text)@ + attr_text(name@, value@));
}

/// A colour as markup.
fn color_string(c: Rgba8) -> (text: String)
    ensures
        text@ == color_text(c),
{
    c.as_hex(c.a != 255)
}

/// The name of a line end.
fn line_end_str(line_end: LineEnd) -> (text: &'static str)
    ensures
        text@ == line_end_text(line_end),
{
    match line_end {
        LineEnd::Butt => "butt",
        LineEnd::Round => "round",
        LineEnd::Square => "square",
    }
}

/// The value of the fill property.
fn fill_string(fill: &Option<Rgba8>) -> (text: String)
    ensures
        text@ == fill_text(*fill),
{
    match fill {
        Some(c) => color_string(*c),
        None => String::from_str("none"),
    }
}

/// Appends the paint of an element.
fn push_paint(
    text: &mut String,
    inline_style: bool,
    stroke: &Option<Stroke<String, Rgba8>>,
    fill: &Option<Rgba8>,
)
    ensures
        final(text)@ == old(text)@ + paint_text(inline_style, *stroke, *fill),
{
    let filled = fill_string(fill);
    if inline_style {
        let mut style = String::from_str("fill:");
        style.append(filled.as_str());
        match stroke {
            Some(s) => {
                let color = color_string(s.color);
                style.append(";stroke:");
                style.append(color.as_str());
                style.append(";stroke-width:");
                style.append(s.width.as_str());
                style.append(";stroke-linecap:");
                style.append(line_end_str(s.line_end));
            },
            None => {},
        }
        assert(style@ =~= style_text(*stroke, *fill));
        push_attr(text, "style", style.as_str());
    } else {
        push_attr(text, "fill", filled.as_str());
        match stroke {
            Some(s) => {
                let color = color_string(s.color);
                push_attr(text, "stroke", color.as_str());
                push_attr(text, "stroke-width", s.width.as_str());
                push_attr(text, "stroke-linecap", line_end_str(s.line_end));
            },
            None => {},
        }
        assert(text@ =~= old(text)@ + paint_attrs_text(*stroke, *fill));
    }
}

/// Appends a point as path data.
fn push_point(text: &mut String, p: &Point<String>)
    ensures
        final(text)@ == old(text)@ + point_text(*p),
{
    text.append(p.x.as_str());
    text.append(" ");
    text.append(p.y.as_str());
    assert(text@ =~= old(text)@ + point_text(*p));
}

/// Appends one path command as path data.
fn push_segment(text: &mut String, segment: &Segment<String>)
    ensures
        final(text)@ == old(text)@ + segment_text(*segment),
{
    match segment {
        Segment::MoveTo { to } => {
            text.append("M ");
            push_point(text, to);
        },
        Segment::LineTo { to } => {
            text.append("L ");
            push_point(text, to);
        },
        Segment::QuadTo { control, to } => {
            text.append("Q ");
            push_point(text, control);
            text.append(" ");
            push_point(text, to);
        },
    }
    assert(text@ =~= old(text)@ + segment_text(*segment));
}

/// The commands of a path as path data.
fn path_data_string(path: &Path<String>) -> (data: String)
    ensures
        data@ == path_data_text(path@),
{
    let mut data = String::new();
    let n = path.len();
    let mut i: usize = 0;
    while i < n
        invariant
            n == path@.len(),
            i <= n,
            data@ == path_data_text(path@.take(i as int)),
        decreases n - i,
    {
        let ghost before = data@;
        if i > 0 {
            data.append(" ");
        }
        push_segment(&mut data, path.segment(i));
        proof {
            let next = path@.take(i + 1);
            assert(next.drop_last() =~= path@.take(i as int));
            assert(next.last() == path@[i as int]);
            if i == 0 {
                assert(before =~= Seq::<char>::empty());
                assert(next[0] == path@[0]);
                assert(data@ =~= segment_text(next[0]));
            } else {
                assert(data@ =~= before + " "@ + segment_text(next.last()));
            }
        }
        i = i + 1;
    }
    proof {
        assert(path@.take(n as int) =~= path@);
    }
    data
}

/// Appends the tag and geometry of a shape.
fn push_shape(text: &mut String, shape: &Shape<String>)
    ensures
        final(text)@ == old(text)@ + shape_text(*shape),
{
    match shape {
        Shape::Circle { center, radius } => {
            text.append("<circle");
            push_attr(text, "cx", center.x.as_str());
            push_attr(text, "cy", center.y.as_str());
            push_attr(text, "r", radius.as_str());
        },
        Shape::Line { start, end } => {
            text.append("<line");
            push_attr(text, "x1", start.x.as_str());
            push_attr(text, "y1", start.y.as_str());
            push_attr(text, "x2", end.x.as_str());
            push_attr(text, "y2", end.y.as_str());
        },
        Shape::QuadraticBezier { start, control, end } => {
            let mut data = String::from_str("M ");
            push_point(&mut data, start);
            data.append(" Q ");
            push_point(&mut data, control);
            data.append(" ");
            push_point(&mut data, end);
            text.append("<path");
            push_attr(text, "d", data.as_str());
        },
        Shape::Path { path } => {
            let data = path_data_string(path);
            text.append("<path");
            push_attr(text, "d", data.as_str());
        },
    }
    assert(text@ =~= old(text)@ + shape_text(*shape));
}

/// Half of a logical size, as text.
fn half_string(size: u32) -> (text: String)
    ensures
        text@ == half_text(size),
{
    let mut text = String::new();
    push_decimal(&mut text, size / 2);
    if size % 2 == 1 {
        text.append(".5");
    }
    assert(text@ =~= half_text(size));
    text
}

/// The least coordinate of the logical square, as text.
fn min_string(size: u32) -> (text: String)
    ensures
        text@ == min_text(size),
{
    let half = half_string(size);
    let mut text = String::from_str("-");
    text.append(half.as_str());
    text
}

/// A logical size, as text.
fn side_string(size: u32) -> (text: String)
    ensures
        text@ == decimal_text(size as nat),
{
    let mut text = String::new();
    push_decimal(&mut text, size);
    assert(text@ =~= decimal_text(size as nat));
    text
}

/// The view box of the logical square, as text.
fn view_box_string(size: u32) -> (text: String)
    ensures
        text@ == view_box_text(size),
{
    let min = min_string(size);
    let side = side_string(size);
    let mut text = String::new();
    text.append(min.as_str());
    text.append(" ");
    text.append(min.as_str());
    text.append(" ");
    text.append(side.as_str());
    text.append(" ");
    text.append(side.as_str());
    assert(text@ =~= view_box_text(size));
    text
}

/// Appends the background.
fn push_background(text: &mut String, size: u32, color: Rgba8)
    ensures
        final(text)@ == old(text)@ + background_text(size, color),
{
    let min = min_string(size);
    let side = side_string(size);
    let fill = color_string(color);
    text.append("<rect");
    push_attr(text, "x", min.as_str());
    push_attr(text, "y", min.as_str());
    push_attr(text, "width", side.as_str());
    push_attr(text, "height", side.as_str());
    push_attr(text, "fill", fill.as_str());
    text.append("/>\n");
    assert(text@ =~= old(text)@ + background_text(size, color));
}

impl Renderer<String, Rgba8> for SvgWriter {
    type Frame = String;

    type Output = String;

    /// The document up to its first shape.
    fn begin(&self, size: u32) -> (frame: String)
        ensures
            frame@ == self.header_text(size),
    {
        let view_box = view_box_string(size);
        let mut text = String::new();
        if self.prolog {
            text.append("<?xml version=\"1.0\" encoding=\"UTF-8\"?>\n");
        }
        text.append("<svg xmlns=\"http://www.w3.org/2000/svg\"");
        push_attr(&mut text, "width", self.width.as_str());
        push_attr(&mut text, "height", self.height.as_str());
        push_attr(&mut text, "viewBox", view_box.as_str());
        text.append(">\n");
        match self.background {
            Some(c) => {
                push_background(&mut text, size, c);
            },
            None => {},
        }
        text.append("<g transform=\"scale(1,-1)\">\n");
        assert(text@ =~= self.header_text(size));
        text
    }

    /// The document with the element of one more record at its end.
    fn draw(&self, frame: String, record: &Record<String, Rgba8>, size: u32) -> (next: String)
        ensures
            next@ == frame@ + element_text(self.inline_style, *record),
    {
        let mut text = frame;
        push_shape(&mut text, &record.shape);
        push_paint(&mut text, self.inline_style, &record.stroke, &record.fill);
        text.append("/>\n");
        assert(text@ =~= frame@ + element_text(self.inline_style, *record));
        text
    }

    /// The document, closed.
    fn finish(&self, frame: String) -> (output: String)
        ensures
            output@ == frame@ + footer_text(),
    {
        let mut text = frame;
        text.append("</g>\n</svg>\n");
        text
    }
}


/// The elements of two runs of records, one after the other, are the
/// elements of the first run followed by those of the second.
pub proof fn lemma_elements_concat(
    inline_style: bool,
    a: Seq<Record<String, Rgba8>>,
    b: Seq<Record<String, Rgba8>>,
)
    ensures
        elements_text(inline_style, a + b) == elements_text(inline_style, a) + elements_text(
            inline_style,
            b,
        ),
    decreases b.len(),
{
    if b.len() == 0 {
        assert(a + b =~= a);
        assert(elements_text(inline_style, a) + Seq::<char>::empty() =~= elements_text(
            inline_style,
            a,
        ));
    } else {
        lemma_elements_concat(inline_style, a, b.drop_last());
        assert((a + b).drop_last() =~= a + b.drop_last());
        assert((a + b).last() == b.last());
        assert(elements_text(inline_style, a + b) =~= elements_text(inline_style, a)
            + elements_text(inline_style, b));
    }
}

/// In the text of the elements, the element of a record drawn earlier stands
/// before the element of one drawn later, each in full.
pub proof fn lemma_element_order(
    inline_style: bool,
    records: Seq<Record<String, Rgba8>>,
    i: int,
    j: int,
)
    requires
        0 <= i < j < records.len(),
    ensures
        elements_text(inline_style, records) == elements_text(inline_style, records.take(i))
            + element_text(inline_style, records[i]) + elements_text(
            inline_style,
            records.subrange(i + 1, j),
        ) + element_text(inline_style, records[j]) + elements_text(
            inline_style,
            records.skip(j + 1),
        ),
{
    let one_i = seq![records[i]];
    let one_j = seq![records[j]];
    let head = records.take(i);
    let mid = records.subrange(i + 1, j);
    let tail = records.skip(j + 1);
    assert(records =~= head + one_i + mid + one_j + tail);
    lemma_elements_concat(inline_style, head + one_i + mid + one_j, tail);
    lemma_elements_concat(inline_style, head + one_i + mid, one_j);
    lemma_elements_concat(inline_style, head + one_i, mid);
    lemma_elements_concat(inline_style, head, one_i);
    lemma_single_element(inline_style, records[i]);
    lemma_single_element(inline_style, records[j]);
}

/// The elements of one record are its element.
pub proof fn lemma_single_element(inline_style: bool, record: Record<String, Rgba8>)
    ensures
        elements_text(inline_style, seq![record]) == element_text(inline_style, record),
{
    let one = seq![record];
    assert(one.drop_last() =~= Seq::<Record<String, Rgba8>>::empty());
    assert(one.last() == record);
    assert(elements_text(inline_style, one.drop_last()) =~= Seq::<char>::empty());
    assert(Seq::<char>::empty() + element_text(inline_style, record) =~= element_text(
        inline_style,
        record,
    ));
}

/// Every frame of a drawing by the writer is the opening of the document
/// followed by the elements of the records drawn so far.
pub proof fn lemma_frames_of_drawing(
    writer: &SvgWriter,
    size: u32,
    records: Seq<Record<String, Rgba8>>,
    frames: Seq<String>,
    k: int,
)
    requires
        is_drawing(writer, size, records, frames),
        0 <= k <= records.len(),
    ensures
        frames[k]@ == writer.header_text(size) + elements_text(
            writer.inline_style,
            records.take(k),
        ),
    decreases k,
{
    if k == 0 {
        assert(records.take(0) =~= Seq::<Record<String, Rgba8>>::empty());
        assert(frames[0]@ =~= writer.header_text(size) + Seq::<char>::empty());
    } else {
        lemma_frames_of_drawing(writer, size, records, frames, k - 1);
        let drawn = records.take(k);
        assert(drawn.drop_last() =~= records.take(k - 1));
        assert(drawn.last() == records[k - 1]);
        assert(call_ensures(
            <SvgWriter as Renderer<String, Rgba8>>::draw,
            (writer, frames[k - 1], &records[k - 1], size),
            frames[k - 1 + 1],
        ));
        assert(frames[k]@ =~= writer.header_text(size) + elements_text(
            writer.inline_style,
            drawn,
        ));
    }
}

/// Whatever the writer renders of a canvas is the document of its records:
/// the opening, one element for each record in drawing order, and the
/// closing.
pub proof fn lemma_rendering_is_document(
    writer: &SvgWriter,
    size: u32,
    records: Seq<Record<String, Rgba8>>,
    output: String,
)
    requires
        is_rendering(writer, size, records, output),
    ensures
        output@ == writer.document_text(size, records),
{
    let frames = choose|frames: Seq<String>|
        is_drawing(writer, size, records, frames) && call_ensures(
            <SvgWriter as Renderer<String, Rgba8>>::finish,
            (writer, #[trigger] frames.last()),
            output,
        );
    lemma_frames_of_drawing(writer, size, records, frames, records.len() as int);
    assert(records.take(records.len() as int) =~= records);
}

/// The document of an empty canvas holds the opening and the closing and
/// nothing between them: the background, where there is one, is its only
/// element.
pub proof fn lemma_empty_document(writer: &SvgWriter, size: u32)
    ensures
        writer.document_text(size, Seq::<Record<String, Rgba8>>::empty()) == writer.header_text(
            size,
        ) + footer_text(),
{
    assert(elements_text(writer.inline_style, Seq::<Record<String, Rgba8>>::empty())
        =~= Seq::<char>::empty());
    assert(writer.header_text(size) + Seq::<char>::empty() =~= writer.header_text(size));
}


/// Twice the number that `half_text` spells: twice its whole part, and one
/// more where `.5` follows.
pub open spec fn twice_half_value(size: u32) -> nat {
    2 * decimal_value(decimal_text((size / 2) as nat)) + if size % 2 == 1 {
        1nat
    } else {
        0nat
    }
}

/// The view box is centred at the origin: its least coordinate is minus half
/// of its side, exactly, for every logical size.
pub proof fn lemma_view_box_centred(size: u32)
    ensures
        twice_half_value(size) == size,
        decimal_value(decimal_text(size as nat)) == size,
{
    lemma_decimal_round_trip((size / 2) as nat);
    lemma_decimal_round_trip(size as nat);
}

} // verus!
