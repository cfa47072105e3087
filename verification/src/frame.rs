//! The frame: the panel's pixel buffer, and the strokes painted on it.
//!
//! The buffer is `weact_studio_epd`'s and the strokes are drawn by
//! `embedded_graphics`, the texts in `profont`'s faces. What a stroke leaves
//! in the buffer is not spelled out here: it has a name, and painting a list
//! of strokes is stated as the strokes' results applied one after the other.

use embedded_graphics::geometry::{Point, Size};
use embedded_graphics::mono_font::MonoTextStyle;
use embedded_graphics::primitives::{Circle, Line, PrimitiveStyle, Rectangle, StyledDrawable};
use embedded_graphics::text::{Text, TextStyle};
use embedded_graphics::Drawable;
use profont::{
    PROFONT_10_POINT, PROFONT_12_POINT, PROFONT_14_POINT, PROFONT_18_POINT, PROFONT_24_POINT,
    PROFONT_7_POINT, PROFONT_9_POINT,
};
use vstd::prelude::*;
use vstd::string::StrSliceExecFns;
use weact_studio_epd::graphics::Display;
use weact_studio_epd::TriColor;

use crate::cells::{endpoint_texts, ip_text, lemma_bytes_cover_chars};
use crate::net::{Ipv4Address, Ipv4Cidr};
use crate::eink::{
    address_label, broker_label, broker_shapes, fits_message, link_shapes, message_lines,
    message_shapes, shapes, startup_shapes, DrawOp, MyColor, MyFontSize, MyPoint, Shape,
    MAX_MSG_WIDTH, SCREEN_WIDTH, SEP_LINE_Y,
};
use crate::layout::{
    lemma_render_len, lemma_word_is_short, lemma_words_len, lemma_wrap_holds_words,
    lemma_wrap_len, lemma_wrap_lines_fit, lines_of, words_of, wrap,
};

verus! {

/// Bytes in the buffer of the panel: one bit per pixel in each of two planes.
pub const FRAME_BYTES: usize = 9472;

/// Farthest that a point of a shape may lie from the origin, in pixels.
pub const REACH: i32 = 4096;

/// Widest and highest that a rectangle or a circle may be, in pixels.
pub const SIZE_REACH: u32 = 512;

/// Widest that the stroke of a line or an outline may be, in pixels.
pub const STROKE_REACH: u32 = 15;

/// Heaviest that a line may be: the largest number whose square fits 32
/// bits with a sign.
pub const WEIGHT_REACH: i64 = 46340;

/// Most characters in one written text.
pub const TEXT_REACH: usize = 1024;

/// `weact_studio_epd`'s in-memory buffer of a display.
#[verifier::external_type_specification]
#[verifier::external_body]
#[verifier::reject_recursive_types(C)]
pub struct ExDisplay<const WIDTH: u32, const HEIGHT: u32, const BUFFER_SIZE: usize, C>(
    Display<WIDTH, HEIGHT, BUFFER_SIZE, C>,
);

/// `weact_studio_epd`'s colours of a three-colour panel.
#[verifier::external_type_specification]
#[verifier::external_body]
pub struct ExTriColor(TriColor);

/// The bytes that the buffer of `frame` holds: the black-and-white plane,
/// then the red plane.
pub uninterp spec fn frame_bytes(frame: Display<128, 296, 9472, TriColor>) -> Seq<u8>;

/// The rotation that `frame` was set to, in quarter turns.
pub uninterp spec fn frame_turn(frame: Display<128, 296, 9472, TriColor>) -> int;

/// The buffer `bytes` of a frame turned by `turn` after a line was stroked.
pub uninterp spec fn line_stroked(
    bytes: Seq<u8>,
    turn: int,
    from: MyPoint,
    to: MyPoint,
    color: MyColor,
    stroke: u32,
) -> Seq<u8>;

/// The buffer `bytes` of a frame turned by `turn` after a text was written.
pub uninterp spec fn text_written(
    bytes: Seq<u8>,
    turn: int,
    text: Seq<char>,
    at: MyPoint,
    color: MyColor,
    font: MyFontSize,
) -> Seq<u8>;

/// The buffer `bytes` of a frame turned by `turn` after a circle was filled.
pub uninterp spec fn circle_filled(
    bytes: Seq<u8>,
    turn: int,
    center: MyPoint,
    diameter: u32,
    color: MyColor,
) -> Seq<u8>;

/// The buffer `bytes` of a frame turned by `turn` after a circle was
/// outlined.
pub uninterp spec fn circle_stroked(
    bytes: Seq<u8>,
    turn: int,
    center: MyPoint,
    diameter: u32,
    color: MyColor,
    stroke: u32,
) -> Seq<u8>;

/// The buffer `bytes` of a frame turned by `turn` after a rectangle was
/// filled.
pub uninterp spec fn rect_filled(
    bytes: Seq<u8>,
    turn: int,
    top_left: MyPoint,
    width: u32,
    height: u32,
    color: MyColor,
) -> Seq<u8>;

/// The byte that stands for eight pixels of `color` in the black-and-white
/// plane.
pub open spec fn plain_byte(color: MyColor) -> u8 {
    match color {
        MyColor::Black => 0x00,
        MyColor::White => 0xFF,
        MyColor::Red => 0x00,
    }
}

/// The byte that stands for eight pixels of `color` in the red plane.
pub open spec fn red_byte(color: MyColor) -> u8 {
    match color {
        MyColor::Black => 0x00,
        MyColor::White => 0x00,
        MyColor::Red => 0xFF,
    }
}

/// The buffer of a frame that is all of one colour.
pub open spec fn filled(color: MyColor) -> Seq<u8> {
    Seq::new(
        FRAME_BYTES as nat,
        |i: int|
            if i < FRAME_BYTES / 2 {
                plain_byte(color)
            } else {
                red_byte(color)
            },
    )
}

/// Whether `point` lies within reach.
pub open spec fn near(point: MyPoint) -> bool {
    -REACH <= point.x <= REACH && -REACH <= point.y <= REACH
}

/// The longer side of the box that a line spans.
pub open spec fn line_span(from: MyPoint, to: MyPoint) -> int {
    let dx = if to.x >= from.x {
        to.x - from.x
    } else {
        from.x - to.x
    };
    let dy = if to.y >= from.y {
        to.y - from.y
    } else {
        from.y - to.y
    };
    if dx >= dy {
        dx
    } else {
        dy
    }
}

/// The weight of a line: its span, taken two times and three times more
/// for each pixel of its stroke.
pub open spec fn line_weight(from: MyPoint, to: MyPoint, stroke: u32) -> int {
    (3 * stroke + 2) * line_span(from, to)
}

/// Whether a line can be stroked: its ends lie within reach, its stroke is
/// no wider than `STROKE_REACH`, and it is no heavier than `WEIGHT_REACH`.
pub open spec fn line_in_reach(from: MyPoint, to: MyPoint, stroke: u32) -> bool {
    near(from) && near(to) && stroke <= STROKE_REACH && line_weight(from, to, stroke)
        <= WEIGHT_REACH
}

/// Whether `shape` can be painted: its points lie within reach, it is no
/// larger than `SIZE_REACH`, its stroke is no wider than `STROKE_REACH`, its
/// text is no longer than `TEXT_REACH`, and a line is no heavier than
/// `WEIGHT_REACH`.
pub open spec fn in_reach(shape: Shape) -> bool {
    match shape {
        Shape::Clear { color } => true,
        Shape::Line { from, to, color, stroke } => line_in_reach(from, to, stroke),
        Shape::Text { text, at, color, font } => near(at) && text.len() <= TEXT_REACH,
        Shape::Disc { center, diameter, color } => near(center) && diameter <= SIZE_REACH,
        Shape::Ring { center, diameter, color, stroke } => near(center) && diameter
            <= SIZE_REACH && stroke <= STROKE_REACH,
        Shape::Rect { top_left, width, height, color } => near(top_left) && width <= SIZE_REACH
            && height <= SIZE_REACH,
    }
}

/// Whether every shape of `list` can be painted.
pub open spec fn all_in_reach(list: Seq<Shape>) -> bool {
    forall|i: int| 0 <= i < list.len() ==> in_reach(#[trigger] list[i])
}

/// The buffer `bytes` of a frame turned by `turn` after `shape` was painted.
pub open spec fn painted(bytes: Seq<u8>, turn: int, shape: Shape) -> Seq<u8> {
    match shape {
        Shape::Clear { color } => filled(color),
        Shape::Line { from, to, color, stroke } => line_stroked(
            bytes,
            turn,
            from,
            to,
            color,
            stroke,
        ),
        Shape::Text { text, at, color, font } => text_written(bytes, turn, text, at, color, font),
        Shape::Disc { center, diameter, color } => circle_filled(
            bytes,
            turn,
            center,
            diameter,
            color,
        ),
        Shape::Ring { center, diameter, color, stroke } => circle_stroked(
            bytes,
            turn,
            center,
            diameter,
            color,
            stroke,
        ),
        Shape::Rect { top_left, width, height, color } => rect_filled(
            bytes,
            turn,
            top_left,
            width,
            height,
            color,
        ),
    }
}

/// The buffer `bytes` of a frame turned by `turn` after the shapes of `list`
/// were painted, first to last.
pub open spec fn painted_all(bytes: Seq<u8>, turn: int, list: Seq<Shape>) -> Seq<u8>
    decreases list.len(),
{
    if list.len() == 0 {
        bytes
    } else {
        painted(painted_all(bytes, turn, list.drop_last()), turn, list.last())
    }
}

/// `Display::clear` of `weact_studio_epd`: every byte of the
/// black-and-white plane and every byte of the red plane is set to the byte
/// that stands for the colour there. The rotation stays.
#[verifier::external_body]
fn fill(frame: &mut Display<128, 296, 9472, TriColor>, color: MyColor)
    ensures
        frame_bytes(*final(frame)) == filled(color),
        frame_turn(*final(frame)) == frame_turn(*old(frame)),
{
    let ink = match color {
        MyColor::Black => TriColor::Black,
        MyColor::White => TriColor::White,
        MyColor::Red => TriColor::Red,
    };
    frame.clear(ink);
}

/// `Line::new(..).draw_styled(..)` of `embedded_graphics` with a stroke
/// style: the buffer afterwards is a function of the buffer before, the
/// rotation and the line. The rotation stays.
///
/// To place the parallels of a thick line the crate adds up steps of twice
/// the line's sides until the sum exceeds twice the stroke width times the
/// line's length, and squares the sum in 32 bits with a sign. The sum stays
/// under the line's weight, so that the weight must not exceed
/// `WEIGHT_REACH`.
#[verifier::external_body]
fn stroke_line(
    frame: &mut Display<128, 296, 9472, TriColor>,
    from: MyPoint,
    to: MyPoint,
    color: MyColor,
    stroke: u32,
)
    requires
        line_in_reach(from, to, stroke),
    ensures
        frame_bytes(*final(frame)) == line_stroked(
            frame_bytes(*old(frame)),
            frame_turn(*old(frame)),
            from,
            to,
            color,
            stroke,
        ),
        frame_turn(*final(frame)) == frame_turn(*old(frame)),
{
    let ink = match color {
        MyColor::Black => TriColor::Black,
        MyColor::White => TriColor::White,
        MyColor::Red => TriColor::Red,
    };
    let line = Line::new(Point::new(from.x, from.y), Point::new(to.x, to.y));
    let _ = line.draw_styled(&PrimitiveStyle::with_stroke(ink, stroke), frame);
}

/// `Text::with_text_style(..).draw(..)` of `embedded_graphics`, in
/// `profont`'s face of the given size and the default text style: the buffer
/// afterwards is a function of the buffer before, the rotation and the text.
/// The rotation stays.
#[verifier::external_body]
fn write_text(
    frame: &mut Display<128, 296, 9472, TriColor>,
    text: &str,
    at: MyPoint,
    color: MyColor,
    font: MyFontSize,
)
    requires
        near(at),
        text@.len() <= TEXT_REACH,
    ensures
        frame_bytes(*final(frame)) == text_written(
            frame_bytes(*old(frame)),
            frame_turn(*old(frame)),
            text@,
            at,
            color,
            font,
        ),
        frame_turn(*final(frame)) == frame_turn(*old(frame)),
{
    let ink = match color {
        MyColor::Black => TriColor::Black,
        MyColor::White => TriColor::White,
        MyColor::Red => TriColor::Red,
    };
    let face = match font {
        MyFontSize::Pf24pt => &PROFONT_24_POINT,
        MyFontSize::Pf18pt => &PROFONT_18_POINT,
        MyFontSize::Pf14pt => &PROFONT_14_POINT,
        MyFontSize::Pf12pt => &PROFONT_12_POINT,
        MyFontSize::Pf10pt => &PROFONT_10_POINT,
        MyFontSize::Pf9pt => &PROFONT_9_POINT,
        MyFontSize::Pf7pt => &PROFONT_7_POINT,
    };
    let _ = Text::with_text_style(text, Point::new(at.x, at.y), MonoTextStyle::new(face, ink), TextStyle::default()).draw(frame);
}

/// `Circle::with_center(..).draw_styled(..)` of `embedded_graphics` with a
/// fill style: the buffer afterwards is a function of the buffer before, the
/// rotation and the circle. The rotation stays.
#[verifier::external_body]
fn fill_circle(
    frame: &mut Display<128, 296, 9472, TriColor>,
    center: MyPoint,
    diameter: u32,
    color: MyColor,
)
    requires
        near(center),
        diameter <= SIZE_REACH,
    ensures
        frame_bytes(*final(frame)) == circle_filled(
            frame_bytes(*old(frame)),
            frame_turn(*old(frame)),
            center,
            diameter,
            color,
        ),
        frame_turn(*final(frame)) == frame_turn(*old(frame)),
{
    let ink = match color {
        MyColor::Black => TriColor::Black,
        MyColor::White => TriColor::White,
        MyColor::Red => TriColor::Red,
    };
    let circle = Circle::with_center(Point::new(center.x, center.y), diameter);
    let _ = circle.draw_styled(&PrimitiveStyle::with_fill(ink), frame);
}

/// `Circle::with_center(..).draw_styled(..)` of `embedded_graphics` with a
/// stroke style: the buffer afterwards is a function of the buffer before,
/// the rotation and the circle. The rotation stays.
#[verifier::external_body]
fn stroke_circle(
    frame: &mut Display<128, 296, 9472, TriColor>,
    center: MyPoint,
    diameter: u32,
    color: MyColor,
    stroke: u32,
)
    requires
        near(center),
        diameter <= SIZE_REACH,
        stroke <= STROKE_REACH,
    ensures
        frame_bytes(*final(frame)) == circle_stroked(
            frame_bytes(*old(frame)),
            frame_turn(*old(frame)),
            center,
            diameter,
            color,
            stroke,
        ),
        frame_turn(*final(frame)) == frame_turn(*old(frame)),
{
    let ink = match color {
        MyColor::Black => TriColor::Black,
        MyColor::White => TriColor::White,
        MyColor::Red => TriColor::Red,
    };
    let circle = Circle::with_center(Point::new(center.x, center.y), diameter);
    let _ = circle.draw_styled(&PrimitiveStyle::with_stroke(ink, stroke), frame);
}

/// `Rectangle::new(..).draw_styled(..)` of `embedded_graphics` with a fill
/// style: the buffer afterwards is a function of the buffer before, the
/// rotation and the rectangle. The rotation stays.
#[verifier::external_body]
fn fill_rect(
    frame: &mut Display<128, 296, 9472, TriColor>,
    top_left: MyPoint,
    width: u32,
    height: u32,
    color: MyColor,
)
    requires
        near(top_left),
        width <= SIZE_REACH,
        height <= SIZE_REACH,
    ensures
        frame_bytes(*final(frame)) == rect_filled(
            frame_bytes(*old(frame)),
            frame_turn(*old(frame)),
            top_left,
            width,
            height,
            color,
        ),
        frame_turn(*final(frame)) == frame_turn(*old(frame)),
{
    let ink = match color {
        MyColor::Black => TriColor::Black,
        MyColor::White => TriColor::White,
        MyColor::Red => TriColor::Red,
    };
    let rect = Rectangle::new(Point::new(top_left.x, top_left.y), Size::new(width, height));
    let _ = rect.draw_styled(&PrimitiveStyle::with_fill(ink), frame);
}

fn is_near(point: MyPoint) -> (yes: bool)
    ensures
        yes == near(point),
{
    -REACH <= point.x && point.x <= REACH && -REACH <= point.y && point.y <= REACH
}

fn is_light(from: MyPoint, to: MyPoint, stroke: u32) -> (yes: bool)
    ensures
        yes == line_in_reach(from, to, stroke),
{
    if !(is_near(from) && is_near(to) && stroke <= STROKE_REACH) {
        return false;
    }
    let dx: i64 = if to.x >= from.x {
        to.x as i64 - from.x as i64
    } else {
        from.x as i64 - to.x as i64
    };
    let dy: i64 = if to.y >= from.y {
        to.y as i64 - from.y as i64
    } else {
        from.y as i64 - to.y as i64
    };
    let span: i64 = if dx >= dy {
        dx
    } else {
        dy
    };
    let factor: i64 = 3 * stroke as i64 + 2;
    assert(0 <= factor * span <= 47 * 8192) by (nonlinear_arith)
        requires
            0 <= factor <= 47,
            0 <= span <= 8192,
    ;
    factor * span <= WEIGHT_REACH
}

/// Whether `op` can be painted.
pub fn within_reach(op: &DrawOp) -> (yes: bool)
    ensures
        yes == in_reach(op@),
{
    match op {
        DrawOp::Clear { color } => true,
        DrawOp::Line { from, to, color, stroke } => is_light(*from, *to, *stroke),
        DrawOp::Text { text, at, color, font } => is_near(*at) && text.as_str().unicode_len()
            <= TEXT_REACH,
        DrawOp::Disc { center, diameter, color } => is_near(*center) && *diameter <= SIZE_REACH,
        DrawOp::Ring { center, diameter, color, stroke } => is_near(*center) && *diameter
            <= SIZE_REACH && *stroke <= STROKE_REACH,
        DrawOp::Rect { top_left, width, height, color } => is_near(*top_left) && *width
            <= SIZE_REACH && *height <= SIZE_REACH,
    }
}

/// Paints `op` on `frame`.
pub fn paint(frame: &mut Display<128, 296, 9472, TriColor>, op: &DrawOp)
    requires
        in_reach(op@),
    ensures
        frame_bytes(*final(frame)) == painted(
            frame_bytes(*old(frame)),
            frame_turn(*old(frame)),
            op@,
        ),
        frame_turn(*final(frame)) == frame_turn(*old(frame)),
{
    match op {
        DrawOp::Clear { color } => fill(frame, *color),
        DrawOp::Line { from, to, color, stroke } => stroke_line(frame, *from, *to, *color, *stroke),
        DrawOp::Text { text, at, color, font } => write_text(
            frame,
            text.as_str(),
            *at,
            *color,
            *font,
        ),
        DrawOp::Disc { center, diameter, color } => fill_circle(frame, *center, *diameter, *color),
        DrawOp::Ring { center, diameter, color, stroke } => stroke_circle(
            frame,
            *center,
            *diameter,
            *color,
            *stroke,
        ),
        DrawOp::Rect { top_left, width, height, color } => fill_rect(
            frame,
            *top_left,
            *width,
            *height,
            *color,
        ),
    }
}

/// Whether every stroke of `ops` can be painted.
pub fn all_within_reach(ops: &Vec<DrawOp>) -> (yes: bool)
    ensures
        yes == all_in_reach(shapes(ops@)),
{
    let mut i: usize = 0;
    while i < ops.len()
        invariant
            i <= ops@.len(),
            forall|k: int| 0 <= k < i ==> in_reach(#[trigger] shapes(ops@)[k]),
        decreases ops@.len() - i,
    {
        if !within_reach(&ops[i]) {
            assert(!in_reach(shapes(ops@)[i as int]));
            return false;
        }
        i += 1;
    }
    true
}

/// Paints the strokes of `ops` on `frame`, first to last, if every one of
/// them can be painted. Otherwise the frame stays as it is and the answer
/// is `false`.
pub fn paint_all(frame: &mut Display<128, 296, 9472, TriColor>, ops: &Vec<DrawOp>) -> (done: bool)
    ensures
        done == all_in_reach(shapes(ops@)),
        done ==> frame_bytes(*final(frame)) == painted_all(
            frame_bytes(*old(frame)),
            frame_turn(*old(frame)),
            shapes(ops@),
        ),
        !done ==> frame_bytes(*final(frame)) == frame_bytes(*old(frame)),
        frame_turn(*final(frame)) == frame_turn(*old(frame)),
{
    if !all_within_reach(ops) {
        return false;
    }
    let ghost before = frame_bytes(*frame);
    let ghost turn = frame_turn(*frame);
    let ghost list = shapes(ops@);
    let mut i: usize = 0;
    assert(list.take(0).len() == 0);
    while i < ops.len()
        invariant
            i <= ops@.len(),
            list == shapes(ops@),
            all_in_reach(list),
            frame_turn(*frame) == turn,
            frame_bytes(*frame) == painted_all(before, turn, list.take(i as int)),
        decreases ops@.len() - i,
    {
        proof {
            assert(in_reach(list[i as int]));
            assert(list.take(i + 1).drop_last() == list.take(i as int));
            assert(list.take(i + 1).last() == ops@[i as int]@);
        }
        paint(frame, &ops[i]);
        i += 1;
    }
    proof {
        assert(list.take(i as int) == list);
    }
    true
}

/// The first screen can be painted.
pub proof fn lemma_startup_in_reach()
    ensures
        all_in_reach(startup_shapes()),
{
    reveal_strlit("IP:");
    reveal_strlit("MQQT:");
    reveal_strlit("None");
    reveal_strlit("Unconnected");
    reveal_strlit("Message:");
    reveal_strlit("ABCDEFGHIJKLMNOPQRSTUVWXYZabcdefghijklmnopqrstuvwxyz");
    let list = startup_shapes();
    assert(in_reach(list[0]));
    assert(in_reach(list[1])) by {
        let from = MyPoint { x: 0, y: SEP_LINE_Y };
        let to = MyPoint { x: SCREEN_WIDTH, y: SEP_LINE_Y };
        assert(list[1] == Shape::Line { from, to, color: MyColor::Black, stroke: 1 });
        assert(line_span(from, to) == 296);
        assert(line_weight(from, to, 1) == 5 * 296);
    }
    assert(in_reach(list[2]));
    assert(in_reach(list[3]));
    assert(in_reach(list[4]));
    assert(in_reach(list[5]));
    assert(in_reach(list[6]));
    assert(in_reach(list[7]));
}

/// The repaint after a link change can be painted as long as the text of
/// the address is no longer than `TEXT_REACH`.
pub proof fn lemma_link_shapes_in_reach(ip_up: bool, ip: Option<Seq<char>>)
    requires
        address_label(ip).len() <= TEXT_REACH,
    ensures
        all_in_reach(link_shapes(ip_up, ip)),
{
}

/// The repaint after a broker change can be painted as long as the texts
/// of the address and of the broker are no longer than `TEXT_REACH`.
pub proof fn lemma_broker_shapes_in_reach(
    mqtt_up: bool,
    ip: Option<Seq<char>>,
    broker: Option<(Seq<char>, Seq<char>)>,
)
    requires
        address_label(ip).len() <= TEXT_REACH,
        broker_label(broker).len() <= TEXT_REACH,
    ensures
        all_in_reach(broker_shapes(mqtt_up, ip, broker)),
{
}

/// What the shared cells hold can always be painted: the texts they keep
/// are cut to their capacities, far below `TEXT_REACH`.
pub proof fn lemma_cell_texts_in_reach(
    up: bool,
    ip: Option<Ipv4Cidr>,
    broker: Option<(Ipv4Address, u16)>,
)
    ensures
        all_in_reach(
            link_shapes(
                up,
                match ip {
                    Some(cidr) => Some(ip_text(cidr)),
                    None => None,
                },
            ),
        ),
        all_in_reach(
            broker_shapes(
                up,
                match ip {
                    Some(cidr) => Some(ip_text(cidr)),
                    None => None,
                },
                match broker {
                    Some(endpoint) => Some(endpoint_texts(endpoint)),
                    None => None,
                },
            ),
        ),
{
    reveal_strlit("None");
    reveal_strlit("Unconnected!");
    let ip_label = match ip {
        Some(cidr) => Some(ip_text(cidr)),
        None => None,
    };
    let broker_pair = match broker {
        Some(endpoint) => Some(endpoint_texts(endpoint)),
        None => None,
    };
    if let Some(cidr) = ip {
        lemma_bytes_cover_chars(ip_text(cidr));
    }
    if let Some(endpoint) = broker {
        lemma_bytes_cover_chars(endpoint_texts(endpoint).0);
        lemma_bytes_cover_chars(endpoint_texts(endpoint).1);
    }
    lemma_link_shapes_in_reach(up, ip_label);
    lemma_broker_shapes_in_reach(up, ip_label, broker_pair);
}

/// Every message can be painted: none of its lines is longer than the
/// message, and the last of them starts within reach.
pub proof fn lemma_message_shapes_in_reach(text: Seq<char>)
    requires
        fits_message(text),
    ensures
        all_in_reach(message_shapes(text)),
{
    let words = words_of(text);
    let budget = MAX_MSG_WIDTH as nat;
    let lines = lines_of(words, budget);
    lemma_bytes_cover_chars(text);
    lemma_words_len(text);
    lemma_wrap_len(words, budget);
    assert forall|i: int| 0 <= i < message_shapes(text).len() implies in_reach(
        #[trigger] message_shapes(text)[i],
    ) by {
        if i > 0 {
            let line = lines[i - 1];
            assert(message_lines(text)[i - 1] == crate::layout::render(line));
            lemma_render_len(line);
            if words.len() > 0 {
                lemma_wrap_lines_fit(words, budget, i - 1);
                if !(crate::layout::width(line) < budget) {
                    lemma_wrap_holds_words(words, budget, i - 1, 0);
                    let k = choose|k: int| 0 <= k < words.len() && words[k] == wrap(
                        words,
                        budget,
                    )[i - 1][0];
                    lemma_word_is_short(text, k);
                    assert(line.drop_last().len() == 0);
                    assert(crate::layout::chars_in(line.drop_last()) == 0);
                }
            }
        }
    }
}

} // verus!
