use oxide_keys::buzzer::{tone_timing, ToneTiming, SYS_CLK_HZ};
use oxide_keys::encoder::Rot;
use oxide_keys::panel::{any_pressed, dot_color, dot_x, millis_from_ticks, screen, Color, DrawOp, Panel, Tick};

#[test]
fn tone_timing_for_audible_tones() {
    assert_eq!(tone_timing(2_000), ToneTiming { top: 62_500, duty: 31_250 });
    assert_eq!(tone_timing(4_001), ToneTiming { top: 31_242, duty: 15_621 });
}

#[test]
fn tone_timing_caps_top() {
    assert_eq!(tone_timing(440), ToneTiming { top: 0xffff, duty: 0x7fff });
    assert_eq!(tone_timing(1), ToneTiming { top: 0xffff, duty: 0x7fff });
}

#[test]
fn tone_timing_above_clock() {
    assert_eq!(tone_timing(SYS_CLK_HZ + 1), ToneTiming { top: 0, duty: 0 });
    assert_eq!(tone_timing(SYS_CLK_HZ), ToneTiming { top: 1, duty: 0 });
}

#[test]
fn dot_layout() {
    assert_eq!(dot_x(0), 20);
    assert_eq!(dot_x(1), 46);
    assert_eq!(dot_x(7), 202);
    assert_eq!(dot_color(true), Color::green());
    assert_eq!(dot_color(false), Color { r: 15, g: 30, b: 15 });
    assert_eq!(Color::white(), Color { r: 31, g: 63, b: 31 });
    assert_eq!(Color::black(), Color { r: 0, g: 0, b: 0 });
}

#[test]
fn millis_from_microsecond_ticks() {
    assert_eq!(millis_from_ticks(0), 0);
    assert_eq!(millis_from_ticks(1_999), 1);
    assert_eq!(millis_from_ticks(200_000), 200);
}

#[test]
fn any_pressed_checks_every_switch() {
    assert!(!any_pressed([false; 8]));
    for i in 0..8 {
        let mut p = [false; 8];
        p[i] = true;
        assert!(any_pressed(p));
    }
}

#[test]
fn new_panel_draws_in_first_window() {
    let mut panel = Panel::new();
    assert_eq!(panel.encoder_count, 0);
    assert_eq!(panel.displayed_count, i32::MIN);
    let t = panel.step(5, Rot::Idle, [false; 8]);
    assert_eq!(t, Tick { led_on: false, redraw: true });
    assert_eq!(panel.displayed_count, 0);
}

#[test]
fn no_redraw_outside_window() {
    let mut panel = Panel::new();
    let t = panel.step(25, Rot::Cw, [false; 8]);
    assert_eq!(t, Tick { led_on: false, redraw: false });
    assert_eq!(panel.encoder_count, 1);
    assert_eq!(panel.displayed_count, i32::MIN);
    let t = panel.step(220, Rot::Idle, [false; 8]);
    assert!(!t.redraw);
    let t = panel.step(400, Rot::Idle, [false; 8]);
    assert!(t.redraw);
    assert_eq!(panel.displayed_count, 1);
}

#[test]
fn led_follows_switches() {
    let mut panel = Panel::new();
    let mut pressed = [false; 8];
    pressed[3] = true;
    let t = panel.step(30, Rot::Idle, pressed);
    assert!(t.led_on);
    let t = panel.step(40, Rot::Idle, [false; 8]);
    assert!(!t.led_on);
}

#[test]
fn switch_change_triggers_redraw() {
    let mut panel = Panel::new();
    assert!(panel.step(0, Rot::Idle, [false; 8]).redraw);
    assert!(!panel.step(10, Rot::Idle, [false; 8]).redraw);
    let mut pressed = [false; 8];
    pressed[0] = true;
    assert!(panel.step(210, Rot::Idle, pressed).redraw);
    assert!(panel.displayed_any_pressed);
}

#[test]
fn rotation_counts_and_undoes() {
    let mut panel = Panel::new();
    panel.step(100, Rot::Cw, [false; 8]);
    panel.step(101, Rot::Cw, [false; 8]);
    assert_eq!(panel.encoder_count, 2);
    panel.step(102, Rot::Ccw, [false; 8]);
    panel.step(103, Rot::Ccw, [false; 8]);
    panel.step(104, Rot::Ccw, [false; 8]);
    assert_eq!(panel.encoder_count, -1);
}

#[test]
fn unchanged_screen_not_redrawn() {
    let mut panel = Panel::new();
    panel.step(0, Rot::Cw, [false; 8]);
    let before = panel;
    let t = panel.step(200, Rot::Idle, [false; 8]);
    assert!(!t.redraw);
    assert_eq!(panel, before);
}

#[test]
fn screen_lists_every_drawing() {
    let mut pressed = [false; 8];
    pressed[2] = true;
    let mut buffer = [b'x'; 8];
    let ops = screen(-15, pressed, &mut buffer);
    assert_eq!(ops.len(), 12);
    assert!(matches!(ops[0], DrawOp::Clear { color } if color == Color::black()));
    assert!(matches!(ops[1], DrawOp::Text { text: "RP2040 PANEL", x: 10, y: 10, color } if color == Color::green()));
    for i in 0..8 {
        match ops[2 + i] {
            DrawOp::Dot { x, y, color } => {
                assert_eq!(x, 20 + 26 * i as i32);
                assert_eq!(y, 35);
                assert_eq!(color, dot_color(i == 2));
            }
            _ => panic!("expected a dot"),
        }
    }
    assert!(matches!(ops[10], DrawOp::Text { text: "ENC:", x: 10, y: 65, color } if color == Color::white()));
    assert!(matches!(ops[11], DrawOp::Text { text: "-15", x: 55, y: 65, color } if color == Color::white()));
    drop(ops);
    assert_eq!(&buffer, b"xxxxx-15");
}
