//! The e-paper screen: the message record, the drawing vocabulary and the
//! fixed layout that each bus event repaints.

use vstd::prelude::*;
use vstd::string::StringExecFns;
use vstd::utf8::encode_utf8;
use weact_studio_epd::graphics::Display;
use weact_studio_epd::TriColor;

use crate::cells::lemma_bytes_cover_chars;
use crate::frame::{
    all_in_reach, frame_bytes, frame_turn, lemma_message_shapes_in_reach,
    lemma_startup_in_reach, paint_all, painted_all,
};
use crate::layout::{
    lemma_words_len, lemma_wrap_len, line_texts, lines_of, rendered, words_of, wrap_text,
};

verus! {

/// Characters under which a line of the message region must stay.
pub const MAX_MSG_WIDTH: usize = 35;

/// Width of the screen in pixels, as it is mounted.
pub const SCREEN_WIDTH: i32 = 296;

/// Left edge of the titles and of the message.
pub const MARGIN_X: i32 = 10;

/// Baseline of the address row.
pub const IP_Y: i32 = 10;

/// Left edge of the address value.
pub const IP_ADDR_X: i32 = 40;

/// Baseline of the broker row.
pub const MQTT_Y: i32 = 30;

/// Left edge of the broker value.
pub const MQTT_ADDR_X: i32 = 60;

/// Height at which the separator runs.
pub const SEP_LINE_Y: i32 = 40;

/// Baseline of the title of the message region.
pub const MSG_TITLE_Y: i32 = 55;

/// Baseline of the first line of the message.
pub const MSG_CONT_Y: i32 = 75;

/// Distance between the baselines of two lines of the message.
pub const LINE_HEIGHT: i32 = 13;

/// Centre of the status mark, from the left.
pub const STATUS_X: i32 = 276;

/// Centre of the status mark, from the top.
pub const STATUS_Y: i32 = 20;

/// Diameter of the status mark.
pub const STATUS_DIAMETER: u32 = 15;

/// How far the glyphs of the screen's font rise above their baseline.
pub const ROW_ASCENT: i32 = 11;

/// Height of the glyphs of the screen's font.
pub const ROW_HEIGHT: u32 = 15;

/// Width of the rectangle that wipes the address value: from its left edge
/// to the status mark.
pub const IP_WIPE_WIDTH: u32 = 228;

/// Width of the rectangle that wipes the broker value: from its left edge
/// to the status mark.
pub const MQTT_WIPE_WIDTH: u32 = 208;

/// Left edge of the rectangle that wipes the message region.
pub const WIPE_X: i32 = 5;

/// Upper edge of the rectangle that wipes the message region.
pub const WIPE_Y: i32 = 60;

/// Width of the rectangle that wipes the message region.
pub const WIPE_WIDTH: u32 = 291;

/// Height of the rectangle that wipes the message region.
pub const WIPE_HEIGHT: u32 = 80;

/// The three inks of the panel.
#[derive(Debug, Clone, Copy, PartialEq, Eq, Structural)]
pub enum MyColor {
    Black,
    White,
    Red,
}

/// A pixel position: `x` from the left, `y` from the top.
#[derive(Debug, Clone, Copy, PartialEq, Eq, Structural)]
pub struct MyPoint {
    pub x: i32,
    pub y: i32,
}

/// The sizes in which the font comes.
#[derive(Debug, Clone, Copy, PartialEq, Eq, Structural)]
pub enum MyFontSize {
    Pf24pt,
    Pf18pt,
    Pf14pt,
    Pf12pt,
    Pf10pt,
    Pf9pt,
    Pf7pt,
}

/// One stroke of the brush on the frame.
#[derive(Debug, Clone, PartialEq, Eq)]
pub enum DrawOp {
    /// Fill the whole frame.
    Clear { color: MyColor },
    /// A straight line, `stroke` pixels wide.
    Line { from: MyPoint, to: MyPoint, color: MyColor, stroke: u32 },
    /// A text whose baseline starts at `at`.
    Text { text: String, at: MyPoint, color: MyColor, font: MyFontSize },
    /// A filled circle.
    Disc { center: MyPoint, diameter: u32, color: MyColor },
    /// The outline of a circle, `stroke` pixels wide.
    Ring { center: MyPoint, diameter: u32, color: MyColor, stroke: u32 },
    /// A filled rectangle.
    Rect { top_left: MyPoint, width: u32, height: u32, color: MyColor },
}

/// What a `DrawOp` draws, with its text as a sequence of characters.
pub enum Shape {
    Clear { color: MyColor },
    Line { from: MyPoint, to: MyPoint, color: MyColor, stroke: u32 },
    Text { text: Seq<char>, at: MyPoint, color: MyColor, font: MyFontSize },
    Disc { center: MyPoint, diameter: u32, color: MyColor },
    Ring { center: MyPoint, diameter: u32, color: MyColor, stroke: u32 },
    Rect { top_left: MyPoint, width: u32, height: u32, color: MyColor },
}

impl View for DrawOp {
    type V = Shape;

    open spec fn view(&self) -> Shape {
        match *self {
            DrawOp::Clear { color } => Shape::Clear { color },
            DrawOp::Line { from, to, color, stroke } => Shape::Line { from, to, color, stroke },
            DrawOp::Text { text, at, color, font } => Shape::Text { text: text@, at, color, font },
            DrawOp::Disc { center, diameter, color } => Shape::Disc { center, diameter, color },
            DrawOp::Ring { center, diameter, color, stroke } => Shape::Ring {
                center,
                diameter,
                color,
                stroke,
            },
            DrawOp::Rect { top_left, width, height, color } => Shape::Rect {
                top_left,
                width,
                height,
                color,
            },
        }
    }
}

/// What a list of strokes draws.
pub open spec fn shapes(ops: Seq<DrawOp>) -> Seq<Shape> {
    ops.map_values(|op: DrawOp| op@)
}

/// `text` in the screen's one font, its baseline starting at (`x`, `y`).
pub open spec fn label(text: Seq<char>, x: int, y: int, color: MyColor) -> Shape {
    Shape::Text { text, at: MyPoint { x: x as i32, y: y as i32 }, color, font: MyFontSize::Pf12pt }
}

/// The status mark as a filled circle.
pub open spec fn status_disc(color: MyColor) -> Shape {
    Shape::Disc {
        center: MyPoint { x: STATUS_X, y: STATUS_Y },
        diameter: STATUS_DIAMETER,
        color,
    }
}

/// The text that stands for one's own address.
pub open spec fn address_label(ip: Option<Seq<char>>) -> Seq<char> {
    match ip {
        Some(text) => text,
        None => "None"@,
    }
}

/// The text that stands for the broker: address and port with a colon
/// between them, or a word for the lack of one.
pub open spec fn broker_label(broker: Option<(Seq<char>, Seq<char>)>) -> Seq<char> {
    match broker {
        Some(pair) => pair.0 + seq![':'] + pair.1,
        None => "Unconnected!"@,
    }
}

/// The screen as it is first drawn: the titles, both values as unknown,
/// the separator and a sample text in the message region.
pub open spec fn startup_shapes() -> Seq<Shape> {
    seq![
        Shape::Clear { color: MyColor::White },
        Shape::Line {
            from: MyPoint { x: 0, y: SEP_LINE_Y },
            to: MyPoint { x: SCREEN_WIDTH, y: SEP_LINE_Y },
            color: MyColor::Black,
            stroke: 1,
        },
        label("IP:"@, MARGIN_X as int, IP_Y as int, MyColor::Black),
        label("MQQT:"@, MARGIN_X as int, MQTT_Y as int, MyColor::Black),
        label("None"@, IP_ADDR_X as int, IP_Y as int, MyColor::Red),
        label("Unconnected"@, MQTT_ADDR_X as int, MQTT_Y as int, MyColor::Red),
        label("Message:"@, MARGIN_X as int, MSG_TITLE_Y as int, MyColor::Black),
        label(
            "ABCDEFGHIJKLMNOPQRSTUVWXYZabcdefghijklmnopqrstuvwxyz"@,
            MARGIN_X as int,
            MSG_CONT_Y as int,
            MyColor::Red,
        ),
    ]
}

/// The rectangle that wipes the value of a row: from (`x`, `y`), where the
/// baseline of the value starts, `width` pixels to the right, over the full
/// height of the glyphs.
pub open spec fn row_wipe(x: int, y: int, width: u32) -> Shape {
    Shape::Rect {
        top_left: MyPoint { x: x as i32, y: (y - ROW_ASCENT) as i32 },
        width,
        height: ROW_HEIGHT,
        color: MyColor::White,
    }
}

/// What is drawn when the link reports a change: the status mark and the
/// value of the address row are wiped, the address is written, and where
/// the link is up the mark is outlined.
pub open spec fn link_shapes(ip_up: bool, ip: Option<Seq<char>>) -> Seq<Shape> {
    let wiped = seq![
        status_disc(MyColor::White),
        row_wipe(IP_ADDR_X as int, IP_Y as int, IP_WIPE_WIDTH),
        label(address_label(ip), IP_ADDR_X as int, IP_Y as int, MyColor::Red),
    ];
    if ip_up {
        wiped.push(
            Shape::Ring {
                center: MyPoint { x: STATUS_X, y: STATUS_Y },
                diameter: STATUS_DIAMETER,
                color: MyColor::White,
                stroke: 2,
            },
        )
    } else {
        wiped
    }
}

/// What is drawn when the broker reports a change: the values of both rows
/// are wiped, both values are written, and the status mark is filled while
/// the broker is up and wiped while it is down.
pub open spec fn broker_shapes(
    mqtt_up: bool,
    ip: Option<Seq<char>>,
    broker: Option<(Seq<char>, Seq<char>)>,
) -> Seq<Shape> {
    seq![
        row_wipe(IP_ADDR_X as int, IP_Y as int, IP_WIPE_WIDTH),
        row_wipe(MQTT_ADDR_X as int, MQTT_Y as int, MQTT_WIPE_WIDTH),
        label(address_label(ip), IP_ADDR_X as int, IP_Y as int, MyColor::Red),
        label(broker_label(broker), MQTT_ADDR_X as int, MQTT_Y as int, MyColor::Red),
        status_disc(
            if mqtt_up {
                MyColor::Red
            } else {
                MyColor::White
            },
        ),
    ]
}

/// The lines in which `text` is shown in the message region.
pub open spec fn message_lines(text: Seq<char>) -> Seq<Seq<char>> {
    rendered(lines_of(words_of(text), MAX_MSG_WIDTH as nat))
}

/// The rectangle that wipes the message region.
pub open spec fn wipe() -> Shape {
    Shape::Rect {
        top_left: MyPoint { x: WIPE_X, y: WIPE_Y },
        width: WIPE_WIDTH,
        height: WIPE_HEIGHT,
        color: MyColor::White,
    }
}

/// What is drawn for a new message: the region is wiped, then each line is
/// written one line height below the line before.
pub open spec fn message_shapes(text: Seq<char>) -> Seq<Shape> {
    seq![wipe()] + Seq::new(
        message_lines(text).len(),
        |i: int| label(message_lines(text)[i], MARGIN_X as int, MSG_CONT_Y + LINE_HEIGHT * i, MyColor::Red),
    )
}

/// Most bytes that the text of a display message may take.
pub const MSG_CAPACITY: usize = 300;

/// Whether `text` fits a display message.
pub open spec fn fits_message(text: Seq<char>) -> bool {
    encode_utf8(text).len() <= MSG_CAPACITY
}

/// A text to show in the message region of the screen. Its UTF-8 encoding
/// never takes more than `MSG_CAPACITY` bytes.
#[derive(Debug, PartialEq, Eq)]
pub struct Msg {
    data: String,
}

impl View for Msg {
    type V = Seq<char>;

    closed spec fn view(&self) -> Seq<char> {
        self.data@
    }
}

impl Msg {
    #[verifier::type_invariant]
    spec fn bounded(self) -> bool {
        fits_message(self.data@)
    }

    /// Wraps `data` as a message, unless it is too long for one.
    pub fn new(data: String) -> (msg: Option<Msg>)
        ensures
            msg is Some <==> fits_message(data@),
            msg matches Some(m) ==> m@ == data@,
    {
        if data.as_str().as_bytes().len() <= MSG_CAPACITY {
            Some(Msg { data })
        } else {
            None
        }
    }

    /// The text of the message.
    pub fn data(&self) -> (text: &str)
        ensures
            text@ == self@,
            fits_message(text@),
    {
        proof {
            use_type_invariant(self);
        }
        self.data.as_str()
    }
}

fn write(text: String, x: i32, y: i32, color: MyColor) -> (op: DrawOp)
    ensures
        op@ == label(text@, x as int, y as int, color),
{
    DrawOp::Text { text, at: MyPoint { x, y }, color, font: MyFontSize::Pf12pt }
}

fn wipe_row(x: i32, y: i32, width: u32) -> (op: DrawOp)
    requires
        y >= i32::MIN + ROW_ASCENT,
    ensures
        op@ == row_wipe(x as int, y as int, width),
{
    DrawOp::Rect {
        top_left: MyPoint { x, y: y - ROW_ASCENT },
        width,
        height: ROW_HEIGHT,
        color: MyColor::White,
    }
}

fn mark(color: MyColor) -> (op: DrawOp)
    ensures
        op@ == status_disc(color),
{
    DrawOp::Disc {
        center: MyPoint { x: STATUS_X, y: STATUS_Y },
        diameter: STATUS_DIAMETER,
        color,
    }
}

fn address_text(ip: Option<String>) -> (text: String)
    ensures
        text@ == address_label(text_of(ip)),
{
    match ip {
        Some(text) => text,
        None => String::from_str("None"),
    }
}

fn broker_text(broker: Option<(String, String)>) -> (text: String)
    ensures
        text@ == broker_label(texts_of(broker)),
{
    match broker {
        Some(pair) => {
            proof {
                reveal_strlit(":");
                assert(":"@ == seq![':']);
            }
            let mut text = pair.0;
            text.append(":");
            text.append(pair.1.as_str());
            text
        },
        None => String::from_str("Unconnected!"),
    }
}

/// The view of an optional text.
pub open spec fn text_of(text: Option<String>) -> Option<Seq<char>> {
    match text {
        Some(t) => Some(t@),
        None => None,
    }
}

/// The view of an optional pair of texts.
pub open spec fn texts_of(pair: Option<(String, String)>) -> Option<(Seq<char>, Seq<char>)> {
    match pair {
        Some(p) => Some((p.0@, p.1@)),
        None => None,
    }
}

/// The strokes that draw the screen for the first time.
pub fn startup() -> (ops: Vec<DrawOp>)
    ensures
        shapes(ops@) == startup_shapes(),
{
    let mut ops: Vec<DrawOp> = Vec::new();
    ops.push(DrawOp::Clear { color: MyColor::White });
    ops.push(
        DrawOp::Line {
            from: MyPoint { x: 0, y: SEP_LINE_Y },
            to: MyPoint { x: SCREEN_WIDTH, y: SEP_LINE_Y },
            color: MyColor::Black,
            stroke: 1,
        },
    );
    ops.push(write(String::from_str("IP:"), MARGIN_X, IP_Y, MyColor::Black));
    ops.push(write(String::from_str("MQQT:"), MARGIN_X, MQTT_Y, MyColor::Black));
    ops.push(write(String::from_str("None"), IP_ADDR_X, IP_Y, MyColor::Red));
    ops.push(write(String::from_str("Unconnected"), MQTT_ADDR_X, MQTT_Y, MyColor::Red));
    ops.push(write(String::from_str("Message:"), MARGIN_X, MSG_TITLE_Y, MyColor::Black));
    ops.push(
        write(
            String::from_str("ABCDEFGHIJKLMNOPQRSTUVWXYZabcdefghijklmnopqrstuvwxyz"),
            MARGIN_X,
            MSG_CONT_Y,
            MyColor::Red,
        ),
    );
    assert(shapes(ops@) =~= startup_shapes());
    ops
}

/// The strokes that repaint the address row after the link has reported
/// `ip_up`, with `ip` as the address read from its cell. The value that
/// stood there is wiped first, whatever it was.
pub fn on_ip_up(ip_up: bool, ip: Option<String>) -> (ops: Vec<DrawOp>)
    ensures
        shapes(ops@) == link_shapes(ip_up, text_of(ip)),
{
    let mut ops: Vec<DrawOp> = Vec::new();
    ops.push(mark(MyColor::White));
    ops.push(wipe_row(IP_ADDR_X, IP_Y, IP_WIPE_WIDTH));
    ops.push(write(address_text(ip), IP_ADDR_X, IP_Y, MyColor::Red));
    if ip_up {
        ops.push(
            DrawOp::Ring {
                center: MyPoint { x: STATUS_X, y: STATUS_Y },
                diameter: STATUS_DIAMETER,
                color: MyColor::White,
                stroke: 2,
            },
        );
    }
    assert(shapes(ops@) =~= link_shapes(ip_up, text_of(ip)));
    ops
}

/// The strokes that repaint both rows after the session has reported
/// `mqtt_up`, with `ip` and `broker` as read from their cells. The values
/// that stood there are wiped first, whatever they were.
pub fn on_mqtt_up(mqtt_up: bool, ip: Option<String>, broker: Option<(String, String)>) -> (ops:
    Vec<DrawOp>)
    ensures
        shapes(ops@) == broker_shapes(mqtt_up, text_of(ip), texts_of(broker)),
{
    let mut ops: Vec<DrawOp> = Vec::new();
    ops.push(wipe_row(IP_ADDR_X, IP_Y, IP_WIPE_WIDTH));
    ops.push(wipe_row(MQTT_ADDR_X, MQTT_Y, MQTT_WIPE_WIDTH));
    ops.push(write(address_text(ip), IP_ADDR_X, IP_Y, MyColor::Red));
    ops.push(write(broker_text(broker), MQTT_ADDR_X, MQTT_Y, MyColor::Red));
    ops.push(
        mark(
            if mqtt_up {
                MyColor::Red
            } else {
                MyColor::White
            },
        ),
    );
    assert(shapes(ops@) =~= broker_shapes(mqtt_up, text_of(ip), texts_of(broker)));
    ops
}

/// The strokes that show `msg` in the message region. They can always be
/// painted.
pub fn on_message(msg: &Msg) -> (ops: Vec<DrawOp>)
    ensures
        shapes(ops@) == message_shapes(msg@),
        fits_message(msg@),
        all_in_reach(message_shapes(msg@)),
{
    let text = msg.data();
    proof {
        lemma_message_shapes_in_reach(text@);
    }
    let mut lines = wrap_text(text, MAX_MSG_WIDTH);
    let ghost all = message_lines(text@);
    proof {
        lemma_bytes_cover_chars(text@);
        lemma_words_len(text@);
        lemma_wrap_len(words_of(text@), MAX_MSG_WIDTH as nat);
        assert(all.len() == lines@.len());
    }
    let mut ops: Vec<DrawOp> = Vec::new();
    ops.push(
        DrawOp::Rect {
            top_left: MyPoint { x: WIPE_X, y: WIPE_Y },
            width: WIPE_WIDTH,
            height: WIPE_HEIGHT,
            color: MyColor::White,
        },
    );
    let n = lines.len();
    let mut y_offset: i32 = 0;
    let mut i: usize = 0;
    while i < n
        invariant
            n == all.len(),
            n <= 300,
            i <= n,
            lines@.len() == n - i,
            line_texts(lines@) == all.skip(i as int),
            y_offset == LINE_HEIGHT * i,
            ops@.len() == 1 + i,
            shapes(ops@) == message_shapes(text@).take(1 + i),
            all == message_lines(text@),
        decreases n - i,
    {
        let ghost before = lines@;
        let line = lines.remove(0);
        proof {
            assert(line@ == all[i as int]) by {
                assert(line_texts(before)[0] == all.skip(i as int)[0]);
            }
            assert(line_texts(lines@) == all.skip(i + 1)) by {
                assert(line_texts(lines@) =~= line_texts(before).drop_first());
                assert(all.skip(i as int).drop_first() == all.skip(i + 1));
            }
        }
        let op = write(line, MARGIN_X, MSG_CONT_Y + y_offset, MyColor::Red);
        proof {
            assert(shapes(ops@.push(op)) =~= message_shapes(text@).take(2 + i));
        }
        ops.push(op);
        y_offset += LINE_HEIGHT;
        i += 1;
    }
    proof {
        assert(message_shapes(text@).take(1 + n) == message_shapes(text@));
    }
    ops
}

/// What wakes the screen: a change of the link or of the broker, each with
/// the texts read from the shared cells at that moment, or a new message.
#[derive(Debug, Clone, PartialEq, Eq)]
pub enum ScreenEvent {
    /// The link went up or down; `ip` is the device's address as read.
    IpUp { up: bool, ip: Option<String> },
    /// The broker went up or down; `ip` and `broker` are the device's
    /// address and the broker's endpoint as read.
    MqttUp { up: bool, ip: Option<String>, broker: Option<(String, String)> },
    /// A message came in.
    Message(Msg),
}

/// What is drawn for `event`.
pub open spec fn event_shapes(event: ScreenEvent) -> Seq<Shape> {
    match event {
        ScreenEvent::IpUp { up, ip } => link_shapes(up, text_of(ip)),
        ScreenEvent::MqttUp { up, ip, broker } => broker_shapes(up, text_of(ip), texts_of(broker)),
        ScreenEvent::Message(msg) => message_shapes(msg@),
    }
}

/// Draws the screen on `frame` for the first time.
pub fn eink_init(frame: &mut Display<128, 296, 9472, TriColor>)
    ensures
        frame_bytes(*final(frame)) == painted_all(
            frame_bytes(*old(frame)),
            frame_turn(*old(frame)),
            startup_shapes(),
        ),
        frame_turn(*final(frame)) == frame_turn(*old(frame)),
{
    let ops = startup();
    proof {
        lemma_startup_in_reach();
    }
    let done = paint_all(frame, &ops);
    assert(done);
}

/// One round of the screen: repaints the region of `frame` that `event`
/// touches, and leaves the rest of it as it is. The panel is to be
/// refreshed once after the round.
///
/// Returns `false`, with the frame untouched, where the event carries a
/// text too long to be painted; a message is never too long.
pub fn eink(frame: &mut Display<128, 296, 9472, TriColor>, event: ScreenEvent) -> (done: bool)
    ensures
        done == all_in_reach(event_shapes(event)),
        event is Message ==> done,
        done ==> frame_bytes(*final(frame)) == painted_all(
            frame_bytes(*old(frame)),
            frame_turn(*old(frame)),
            event_shapes(event),
        ),
        !done ==> frame_bytes(*final(frame)) == frame_bytes(*old(frame)),
        frame_turn(*final(frame)) == frame_turn(*old(frame)),
{
    let ops = match event {
        ScreenEvent::IpUp { up, ip } => on_ip_up(up, ip),
        ScreenEvent::MqttUp { up, ip, broker } => on_mqtt_up(up, ip, broker),
        ScreenEvent::Message(msg) => on_message(&msg),
    };
    paint_all(frame, &ops)
}

impl Clone for Msg {
    fn clone(&self) -> (copy: Msg)
        ensures
            copy == *self,
    {
        proof {
            use_type_invariant(self);
        }
        Msg { data: self.data.clone() }
    }
}

} // verus!
