use mqtt_panel::bus::{
    BTN_CHANNEL_SIZE, IP_UP_CHANNEL_SIZE, LED_CHANNEL_SIZE, MQTT_UP_CHANNEL_SIZE,
    MSG_CHANNEL_SIZE,
};
use mqtt_panel::eink::{
    on_ip_up, on_message, on_mqtt_up, startup, DrawOp, Msg, MyColor, MyFontSize, MyPoint,
    MAX_MSG_WIDTH, MSG_CAPACITY,
};
use mqtt_panel::input::{gpio_int_handler, BUTTON_GPIO};
use mqtt_panel::led::RGB;

fn label(text: &str, x: i32, y: i32, color: MyColor) -> DrawOp {
    DrawOp::Text { text: text.to_string(), at: MyPoint { x, y }, color, font: MyFontSize::Pf12pt }
}

fn mark(color: MyColor) -> DrawOp {
    DrawOp::Disc { center: MyPoint { x: 276, y: 20 }, diameter: 15, color }
}

fn wipe_row(x: i32, y: i32, width: u32) -> DrawOp {
    DrawOp::Rect { top_left: MyPoint { x, y: y - 11 }, width, height: 15, color: MyColor::White }
}

fn wipe() -> DrawOp {
    DrawOp::Rect { top_left: MyPoint { x: 5, y: 60 }, width: 291, height: 80, color: MyColor::White }
}

#[test]
fn message_takes_three_hundred_bytes_and_no_more() {
    assert_eq!(MSG_CAPACITY, 300);
    assert_eq!(MAX_MSG_WIDTH, 35);
    let fits = "x".repeat(300);
    assert_eq!(Msg::new(fits.clone()).unwrap().data(), fits);
    assert_eq!(Msg::new("x".repeat(301)), None);
    assert_eq!(Msg::new(String::new()).unwrap().data(), "");
    // 150 characters of two bytes each fit, 151 do not.
    assert!(Msg::new("\u{e9}".repeat(150)).is_some());
    assert!(Msg::new("\u{e9}".repeat(151)).is_none());
}

#[test]
fn message_clone_is_the_same_message() {
    let msg = Msg::new("hello world".to_string()).unwrap();
    assert_eq!(msg.clone(), msg);
    assert_eq!(msg.clone().data(), "hello world");
}

#[test]
fn startup_draws_the_fixed_screen() {
    assert_eq!(
        startup(),
        vec![
            DrawOp::Clear { color: MyColor::White },
            DrawOp::Line {
                from: MyPoint { x: 0, y: 40 },
                to: MyPoint { x: 296, y: 40 },
                color: MyColor::Black,
                stroke: 1,
            },
            label("IP:", 10, 10, MyColor::Black),
            label("MQQT:", 10, 30, MyColor::Black),
            label("None", 40, 10, MyColor::Red),
            label("Unconnected", 60, 30, MyColor::Red),
            label("Message:", 10, 55, MyColor::Black),
            label("ABCDEFGHIJKLMNOPQRSTUVWXYZabcdefghijklmnopqrstuvwxyz", 10, 75, MyColor::Red),
        ]
    );
}

#[test]
fn link_change_repaints_the_address_row() {
    assert_eq!(
        on_ip_up(false, None),
        vec![mark(MyColor::White), wipe_row(40, 10, 228), label("None", 40, 10, MyColor::Red)]
    );
    assert_eq!(
        on_ip_up(true, Some("192.168.1.77/24".to_string())),
        vec![
            mark(MyColor::White),
            wipe_row(40, 10, 228),
            label("192.168.1.77/24", 40, 10, MyColor::Red),
            DrawOp::Ring {
                center: MyPoint { x: 276, y: 20 },
                diameter: 15,
                color: MyColor::White,
                stroke: 2,
            },
        ]
    );
}

#[test]
fn broker_change_repaints_both_rows() {
    assert_eq!(
        on_mqtt_up(
            true,
            Some("192.168.1.77/24".to_string()),
            Some(("192.168.1.2".to_string(), "1883".to_string()))
        ),
        vec![
            wipe_row(40, 10, 228),
            wipe_row(60, 30, 208),
            label("192.168.1.77/24", 40, 10, MyColor::Red),
            label("192.168.1.2:1883", 60, 30, MyColor::Red),
            mark(MyColor::Red),
        ]
    );
    assert_eq!(
        on_mqtt_up(false, None, None),
        vec![
            wipe_row(40, 10, 228),
            wipe_row(60, 30, 208),
            label("None", 40, 10, MyColor::Red),
            label("Unconnected!", 60, 30, MyColor::Red),
            mark(MyColor::White),
        ]
    );
}

#[test]
fn row_wipes_spare_titles_mark_and_separator() {
    // A value starts at x = 40 or 60, right of its title; its wipe ends at
    // x = 267, left of the mark, whose leftmost pixel is at 269.
    assert_eq!(40 + 228, 268);
    assert_eq!(60 + 208, 268);
    // Rows reach from 11 pixels above the baseline to 3 below: -1..=13 and
    // 19..=33, clear of each other and of the separator at 40.
    assert_eq!(wipe_row(40, 10, 228), DrawOp::Rect {
        top_left: MyPoint { x: 40, y: -1 },
        width: 228,
        height: 15,
        color: MyColor::White,
    });
    assert_eq!(wipe_row(60, 30, 208), DrawOp::Rect {
        top_left: MyPoint { x: 60, y: 19 },
        width: 208,
        height: 15,
        color: MyColor::White,
    });
}

#[test]
fn message_is_wiped_and_written_line_by_line() {
    let msg = Msg::new(
        "the quick brown fox jumps over the lazy dog and keeps on running far away".to_string(),
    )
    .unwrap();
    assert_eq!(
        on_message(&msg),
        vec![
            wipe(),
            label("the quick brown fox jumps over the", 10, 75, MyColor::Red),
            label("lazy dog and keeps on running far", 10, 88, MyColor::Red),
            label("away", 10, 101, MyColor::Red),
        ]
    );
}

#[test]
fn alphabet_message_is_one_unbroken_line() {
    let text = "ABCDEFGHIJKLMNOPQRSTUVWXYZabcdefghijklmnopqrstuvwxyz";
    let msg = Msg::new(text.to_string()).unwrap();
    assert_eq!(on_message(&msg), vec![wipe(), label(text, 10, 75, MyColor::Red)]);
}

#[test]
fn empty_message_draws_one_empty_line() {
    let msg = Msg::new("   ".to_string()).unwrap();
    assert_eq!(on_message(&msg), vec![wipe(), label("", 10, 75, MyColor::Red)]);
}

#[test]
fn longest_message_of_single_letters_fits_the_offsets() {
    let text = "a ".repeat(150);
    let msg = Msg::new(text).unwrap();
    let ops = on_message(&msg);
    // 17 words of one letter render in 33 characters, 18 in 35.
    assert_eq!(ops.len(), 1 + 9);
    assert_eq!(ops[9], label("a a a a a a a a a a a a a a", 10, 75 + 13 * 8, MyColor::Red));
}

#[test]
fn button_interrupt_offers_the_button_identifier() {
    assert_eq!(BUTTON_GPIO, 9);
    assert_eq!(gpio_int_handler(true), Some(9));
    assert_eq!(gpio_int_handler(false), None);
}

#[test]
fn channels_have_their_capacities() {
    assert_eq!(BTN_CHANNEL_SIZE, 1);
    assert_eq!(LED_CHANNEL_SIZE, 3);
    assert_eq!(MSG_CHANNEL_SIZE, 1);
    assert_eq!(IP_UP_CHANNEL_SIZE, 1);
    assert_eq!(MQTT_UP_CHANNEL_SIZE, 1);
}

#[test]
fn indicator_swaps_red_and_green() {
    assert_eq!(RGB { r: 10, g: 20, b: 30 }.wired(), RGB { r: 20, g: 10, b: 30 });
    assert_eq!(RGB { r: 10, g: 20, b: 30 }.wired().wired(), RGB { r: 10, g: 20, b: 30 });
    assert_eq!(RGB::off(), RGB { r: 0, g: 0, b: 0 });
    assert_eq!(RGB::off().wired(), RGB::off());
}
