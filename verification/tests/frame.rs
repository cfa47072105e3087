use mqtt_panel::eink::{
    eink, eink_init, on_ip_up, on_message, on_mqtt_up, startup, DrawOp, Msg, MyColor, MyFontSize,
    MyPoint, ScreenEvent,
};
use mqtt_panel::frame::{
    all_within_reach, paint, paint_all, within_reach, FRAME_BYTES, REACH, SIZE_REACH,
    STROKE_REACH, TEXT_REACH, WEIGHT_REACH,
};
use weact_studio_epd::graphics::{Display290TriColor, DisplayRotation};

fn planes(frame: &Display290TriColor) -> (Vec<u8>, Vec<u8>) {
    (frame.bw_buffer().to_vec(), frame.red_buffer().to_vec())
}

fn text(text: &str, x: i32, y: i32) -> DrawOp {
    DrawOp::Text {
        text: text.to_string(),
        at: MyPoint { x, y },
        color: MyColor::Black,
        font: MyFontSize::Pf12pt,
    }
}

#[test]
fn frame_has_two_planes_of_one_bit_per_pixel() {
    assert_eq!(FRAME_BYTES, 9472);
    assert_eq!(REACH, 4096);
    assert_eq!(SIZE_REACH, 512);
    assert_eq!(STROKE_REACH, 15);
    assert_eq!(WEIGHT_REACH, 46340);
    assert!(WEIGHT_REACH * WEIGHT_REACH <= i32::MAX as i64);
    assert!((WEIGHT_REACH + 1) * (WEIGHT_REACH + 1) > i32::MAX as i64);
    assert_eq!(TEXT_REACH, 1024);
    let frame = Display290TriColor::new();
    assert_eq!(frame.bw_buffer().len() + frame.red_buffer().len(), FRAME_BYTES);
}

#[test]
fn clear_sets_every_byte_of_both_planes() {
    let mut frame = Display290TriColor::new();
    paint(&mut frame, &text("hello", 10, 10));
    paint(&mut frame, &DrawOp::Clear { color: MyColor::Red });
    assert_eq!(planes(&frame), (vec![0x00; 4736], vec![0xFF; 4736]));
    paint(&mut frame, &DrawOp::Clear { color: MyColor::Black });
    assert_eq!(planes(&frame), (vec![0x00; 4736], vec![0x00; 4736]));
    paint(&mut frame, &DrawOp::Clear { color: MyColor::White });
    assert_eq!(planes(&frame), (vec![0xFF; 4736], vec![0x00; 4736]));
}

#[test]
fn filled_rectangle_sets_its_pixels() {
    let mut frame = Display290TriColor::new();
    let rect = DrawOp::Rect {
        top_left: MyPoint { x: 0, y: 0 },
        width: 8,
        height: 2,
        color: MyColor::Black,
    };
    paint(&mut frame, &rect);
    let (plain, red) = planes(&frame);
    assert_eq!(plain[0], 0x00);
    assert_eq!(plain[16], 0x00);
    assert_eq!(plain[1], 0xFF);
    assert_eq!(plain[32], 0xFF);
    assert_eq!(red, vec![0x00; 4736]);
    let rect = DrawOp::Rect {
        top_left: MyPoint { x: 8, y: 0 },
        width: 8,
        height: 1,
        color: MyColor::Red,
    };
    paint(&mut frame, &rect);
    assert_eq!(frame.red_buffer()[1], 0xFF);
    assert_eq!(frame.red_buffer()[0], 0x00);
}

#[test]
fn every_kind_of_stroke_leaves_a_mark() {
    let strokes = vec![
        DrawOp::Line {
            from: MyPoint { x: 0, y: 40 },
            to: MyPoint { x: 120, y: 40 },
            color: MyColor::Black,
            stroke: 1,
        },
        text("IP:", 10, 10),
        DrawOp::Disc { center: MyPoint { x: 60, y: 100 }, diameter: 15, color: MyColor::Red },
        DrawOp::Ring {
            center: MyPoint { x: 60, y: 200 },
            diameter: 15,
            color: MyColor::Black,
            stroke: 2,
        },
        DrawOp::Rect {
            top_left: MyPoint { x: 5, y: 60 },
            width: 20,
            height: 10,
            color: MyColor::Black,
        },
    ];
    for stroke in &strokes {
        let mut frame = Display290TriColor::new();
        let blank = planes(&frame);
        assert!(within_reach(stroke));
        paint(&mut frame, stroke);
        assert_ne!(planes(&frame), blank, "{:?}", stroke);
    }
}

#[test]
fn text_depends_on_font_colour_and_place() {
    let mut seen = Vec::new();
    for font in [
        MyFontSize::Pf7pt,
        MyFontSize::Pf9pt,
        MyFontSize::Pf10pt,
        MyFontSize::Pf12pt,
        MyFontSize::Pf14pt,
        MyFontSize::Pf18pt,
        MyFontSize::Pf24pt,
    ] {
        for color in [MyColor::Black, MyColor::Red] {
            let mut frame = Display290TriColor::new();
            let op = DrawOp::Text { text: "Wq".to_string(), at: MyPoint { x: 20, y: 50 }, color, font };
            paint(&mut frame, &op);
            let after = planes(&frame);
            assert!(!seen.contains(&after));
            seen.push(after);
        }
    }
    let mut frame = Display290TriColor::new();
    paint(&mut frame, &text("Wq", 21, 50));
    assert!(!seen.contains(&planes(&frame)));
}

#[test]
fn strokes_go_by_the_rotation_of_the_frame() {
    let mut upright = Display290TriColor::new();
    let mut turned = Display290TriColor::new();
    turned.set_rotation(DisplayRotation::Rotate90);
    paint(&mut upright, &text("IP:", 10, 10));
    paint(&mut turned, &text("IP:", 10, 10));
    assert_ne!(planes(&upright), planes(&turned));
}

#[test]
fn painting_a_list_is_painting_its_strokes_in_order() {
    let mut ops = startup();
    ops.extend(on_mqtt_up(
        true,
        Some("192.168.1.77/24".to_string()),
        Some(("192.168.1.2".to_string(), "1883".to_string())),
    ));
    ops.extend(on_message(&Msg::new("the quick brown fox jumps over the lazy dog".to_string()).unwrap()));
    let mut whole = Display290TriColor::new();
    whole.set_rotation(DisplayRotation::Rotate90);
    assert!(all_within_reach(&ops));
    assert!(paint_all(&mut whole, &ops));
    let mut stepwise = Display290TriColor::new();
    stepwise.set_rotation(DisplayRotation::Rotate90);
    for op in &ops {
        paint(&mut stepwise, op);
    }
    assert_eq!(planes(&whole), planes(&stepwise));
    assert_ne!(planes(&whole), planes(&Display290TriColor::new()));
}

#[test]
fn later_strokes_cover_earlier_ones() {
    let mut frame = Display290TriColor::new();
    let ops = vec![text("hello", 10, 10), DrawOp::Clear { color: MyColor::White }];
    assert!(paint_all(&mut frame, &ops));
    assert_eq!(planes(&frame), planes(&Display290TriColor::new()));
}

fn line(from: (i32, i32), to: (i32, i32), stroke: u32) -> DrawOp {
    DrawOp::Line {
        from: MyPoint { x: from.0, y: from.1 },
        to: MyPoint { x: to.0, y: to.1 },
        color: MyColor::Black,
        stroke,
    }
}

#[test]
fn line_is_in_reach_by_its_weight() {
    // (3 * 15 + 2) * 985 = 46295 is within 46340; with 986 it is 46342.
    assert!(within_reach(&line((0, 0), (985, 0), 15)));
    assert!(!within_reach(&line((0, 0), (986, 0), 15)));
    assert!(within_reach(&line((-492, 7), (493, 992), 15)));
    assert!(within_reach(&line((3, 0), (-982, -985), 15)));
    assert!(!within_reach(&line((3, 1), (3, -985), 15)));
    // (3 * 1 + 2) * 8192 = 40960; (3 * 2 + 2) * 5792 = 46336.
    assert!(within_reach(&line((-4096, -4096), (4096, 4096), 1)));
    assert!(within_reach(&line((-4096, -4096), (4096, 4096), 0)));
    assert!(!within_reach(&line((-4096, -4096), (4096, 4096), 2)));
    assert!(within_reach(&line((-4096, 0), (1696, 5), 2)));
    assert!(!within_reach(&line((-4096, 0), (1697, 5), 2)));
    assert!(!within_reach(&line((0, 0), (1, 1), 16)));
    assert!(!within_reach(&line((0, 0), (4097, 0), 1)));
    assert!(!within_reach(&line((0, -4097), (0, 0), 1)));
}

#[test]
fn list_with_a_stroke_out_of_reach_is_not_painted() {
    let far = DrawOp::Disc { center: MyPoint { x: 4097, y: 0 }, diameter: 15, color: MyColor::Red };
    let big = DrawOp::Disc { center: MyPoint { x: 0, y: 0 }, diameter: 513, color: MyColor::Red };
    let heavy = line((0, 0), (986, 0), 15);
    let bold = DrawOp::Ring {
        center: MyPoint { x: 0, y: 0 },
        diameter: 15,
        color: MyColor::Red,
        stroke: 16,
    };
    let wide = DrawOp::Rect {
        top_left: MyPoint { x: 0, y: 0 },
        width: 513,
        height: 1,
        color: MyColor::Red,
    };
    let high = DrawOp::Rect {
        top_left: MyPoint { x: 0, y: -4097 },
        width: 1,
        height: 1,
        color: MyColor::Red,
    };
    let long = text(&"x".repeat(1025), 0, 0);
    for op in [far, big, heavy, bold, wide, high, long] {
        assert!(!within_reach(&op));
        let ops = vec![text("hello", 10, 10), op];
        assert!(!all_within_reach(&ops));
        let mut frame = Display290TriColor::new();
        assert!(!paint_all(&mut frame, &ops));
        assert_eq!(planes(&frame), planes(&Display290TriColor::new()));
    }
}

const CORNERS: [(i32, i32); 5] = [(-4096, -4096), (-4096, 4096), (4096, -4096), (4096, 4096), (0, 0)];

fn paint_in_every_turn(ops: &Vec<DrawOp>) {
    for turn in [
        DisplayRotation::Rotate0,
        DisplayRotation::Rotate90,
        DisplayRotation::Rotate180,
        DisplayRotation::Rotate270,
    ] {
        let mut frame = Display290TriColor::new();
        frame.set_rotation(turn);
        assert!(all_within_reach(ops));
        assert!(paint_all(&mut frame, ops));
    }
}

#[test]
fn thin_lines_at_the_edge_of_reach_are_painted() {
    let mut ops = Vec::new();
    for (x, y) in CORNERS {
        for (u, v) in CORNERS {
            ops.push(line((x, y), (u, v), 1));
            ops.push(line((x, y), (u, v), 0));
        }
    }
    paint_in_every_turn(&ops);
}

#[test]
fn thick_lines_at_the_edge_of_reach_are_painted() {
    let mut ops = Vec::new();
    for (x, y) in CORNERS {
        for (dx, dy) in [(985, 0), (0, 985), (985, 985), (985, 1), (-985, 984), (400, -985)] {
            let (u, v) = (x - x.signum() * dx, y - y.signum() * dy);
            ops.push(line((x, y), (u, v), 15));
            ops.push(line((u, v), (x, y), 15));
        }
        for stroke in 2..=15 {
            let span = 46340 / (3 * stroke as i32 + 2);
            ops.push(line((x, y), (x - x.signum() * span, y - y.signum() * span), stroke));
            ops.push(line((x, y), (x - x.signum() * span, y), stroke));
            ops.push(line((x, y + y.signum() * span / 2), (x, y), stroke));
        }
    }
    for stroke in 2..=15 {
        let span = 46340 / (3 * stroke as i32 + 2);
        ops.push(line((0, 0), (span, span), stroke));
        ops.push(line((0, 0), (-span, span / 3), stroke));
        ops.push(line((span, 0), (0, 0), stroke));
    }
    ops.retain(|op| within_reach(op));
    assert!(ops.len() > 150);
    paint_in_every_turn(&ops);
}

#[test]
fn discs_at_the_edge_of_reach_are_painted() {
    let mut ops = Vec::new();
    for (x, y) in CORNERS {
        for diameter in [0, 1, 15, 512] {
            ops.push(DrawOp::Disc { center: MyPoint { x, y }, diameter, color: MyColor::Red });
        }
    }
    paint_in_every_turn(&ops);
}

#[test]
fn rings_at_the_edge_of_reach_are_painted() {
    let mut ops = Vec::new();
    for (x, y) in CORNERS {
        for diameter in [0, 1, 15, 512] {
            for stroke in [0, 1, 15] {
                ops.push(DrawOp::Ring {
                    center: MyPoint { x, y },
                    diameter,
                    color: MyColor::Black,
                    stroke,
                });
            }
        }
    }
    paint_in_every_turn(&ops);
}

#[test]
fn rectangles_at_the_edge_of_reach_are_painted() {
    let mut ops = Vec::new();
    for (x, y) in CORNERS {
        for (width, height) in [(0, 0), (512, 1), (1, 512), (512, 512)] {
            ops.push(DrawOp::Rect {
                top_left: MyPoint { x, y },
                width,
                height,
                color: MyColor::Black,
            });
        }
    }
    paint_in_every_turn(&ops);
}

#[test]
fn texts_at_the_edge_of_reach_are_painted() {
    let mut ops = Vec::new();
    for (x, y) in CORNERS {
        ops.push(text(&"x".repeat(1024), x, y));
        ops.push(DrawOp::Text {
            text: "W\n".repeat(512),
            at: MyPoint { x, y },
            color: MyColor::Red,
            font: MyFontSize::Pf24pt,
        });
    }
    ops.push(text(&"line\nbreak\tand \u{e9}".repeat(10), 0, 20));
    paint_in_every_turn(&ops);
}

fn turned() -> Display290TriColor {
    let mut frame = Display290TriColor::new();
    frame.set_rotation(DisplayRotation::Rotate90);
    frame
}

#[test]
fn first_screen_is_painted_stroke_by_stroke() {
    let mut frame = turned();
    eink_init(&mut frame);
    let mut expected = turned();
    for op in &startup() {
        paint(&mut expected, op);
    }
    assert_eq!(planes(&frame), planes(&expected));
    assert_ne!(planes(&frame), planes(&turned()));
}

#[test]
fn screen_round_paints_what_the_event_asks_for() {
    let ip = Some("192.168.1.77/24".to_string());
    let broker = Some(("192.168.1.2".to_string(), "1883".to_string()));
    let msg = Msg::new("the quick brown fox jumps over the lazy dog".to_string()).unwrap();
    let rounds = vec![
        (ScreenEvent::IpUp { up: true, ip: ip.clone() }, on_ip_up(true, ip.clone())),
        (ScreenEvent::IpUp { up: false, ip: None }, on_ip_up(false, None)),
        (
            ScreenEvent::MqttUp { up: true, ip: ip.clone(), broker: broker.clone() },
            on_mqtt_up(true, ip.clone(), broker.clone()),
        ),
        (ScreenEvent::MqttUp { up: false, ip: None, broker: None }, on_mqtt_up(false, None, None)),
        (ScreenEvent::Message(msg.clone()), on_message(&msg)),
    ];
    for (event, ops) in rounds {
        let mut frame = turned();
        eink_init(&mut frame);
        let before = planes(&frame);
        let mut expected = turned();
        eink_init(&mut expected);
        for op in &ops {
            paint(&mut expected, op);
        }
        assert!(eink(&mut frame, event.clone()), "{:?}", event);
        assert_eq!(planes(&frame), planes(&expected));
        // With the link down and no address the row reads as on the first screen.
        let same = event == ScreenEvent::IpUp { up: false, ip: None };
        assert_eq!(planes(&frame) == before, same, "{:?}", event);
    }
}

#[test]
fn earlier_values_are_wiped_before_new_ones_are_written() {
    let long = Some("255.255.255.255/32".to_string());
    let broker = Some(("255.255.255.255".to_string(), "65535".to_string()));
    // An address, then its loss: the row reads as if the address had never stood there.
    let mut frame = turned();
    eink_init(&mut frame);
    assert!(eink(&mut frame, ScreenEvent::IpUp { up: false, ip: long.clone() }));
    assert!(eink(&mut frame, ScreenEvent::IpUp { up: false, ip: None }));
    let mut fresh = turned();
    eink_init(&mut fresh);
    assert_eq!(planes(&frame), planes(&fresh));
    // A long address and endpoint, then short ones: nothing of the long ones is left.
    let short = Some("10.0.0.1/8".to_string());
    let near = Some(("10.0.0.2".to_string(), "80".to_string()));
    let mut frame = turned();
    eink_init(&mut frame);
    assert!(eink(&mut frame, ScreenEvent::MqttUp { up: true, ip: long.clone(), broker }));
    let with_long = planes(&frame);
    assert!(eink(&mut frame, ScreenEvent::MqttUp { up: true, ip: short.clone(), broker: near.clone() }));
    assert_ne!(planes(&frame), with_long);
    let mut direct = turned();
    eink_init(&mut direct);
    assert!(eink(&mut direct, ScreenEvent::MqttUp { up: true, ip: short, broker: near }));
    assert_eq!(planes(&frame), planes(&direct));
}

#[test]
fn row_wipes_leave_titles_mark_and_separator() {
    // Wiping both rows of the first screen and writing the same values
    // again gives the first screen but for the broker's value.
    let mut frame = turned();
    eink_init(&mut frame);
    let mut expected = turned();
    eink_init(&mut expected);
    assert!(eink(&mut frame, ScreenEvent::MqttUp { up: false, ip: None, broker: None }));
    paint(&mut expected, &DrawOp::Text {
        text: "Unconnected!".to_string(),
        at: MyPoint { x: 60, y: 30 },
        color: MyColor::Red,
        font: MyFontSize::Pf12pt,
    });
    assert_eq!(planes(&frame), planes(&expected));
}

#[test]
fn screen_round_with_endless_text_paints_nothing() {
    let endless = Some("7".repeat(1025));
    let mut frame = turned();
    eink_init(&mut frame);
    let before = planes(&frame);
    assert!(!eink(&mut frame, ScreenEvent::IpUp { up: true, ip: endless.clone() }));
    assert_eq!(planes(&frame), before);
    assert!(!eink(&mut frame, ScreenEvent::MqttUp { up: true, ip: endless, broker: None }));
    assert_eq!(planes(&frame), before);
    let broker = Some(("1".repeat(1000), "2".repeat(24)));
    assert!(!eink(&mut frame, ScreenEvent::MqttUp { up: true, ip: None, broker }));
    assert_eq!(planes(&frame), before);
    let broker = Some(("1".repeat(1000), "2".repeat(23)));
    assert!(eink(&mut frame, ScreenEvent::MqttUp { up: true, ip: None, broker }));
}

#[test]
fn longest_messages_are_painted() {
    for text in ["a ".repeat(150), "x".repeat(300), format!("{} ", "y".repeat(17)).repeat(16)] {
        let msg = Msg::new(text).unwrap();
        let mut frame = turned();
        assert!(eink(&mut frame, ScreenEvent::Message(msg)));
    }
}
