use pico_wasm_host::guest::draw::{draw_circle, draw_pacman, safe_draw};
use pico_wasm_host::guest::oled::{Display, DisplayError, PixelColor, FRAME_BYTES, HEIGHT, WIDTH};
use pico_wasm_host::guest::pacman::PacmanApp;
use pico_wasm_host::guest::script::{Effect, HostCall, Item, Outcome, Pin, PinState, Plan, Run, Turn};
use pico_wasm_host::wire::{Config, Mode};

const INIT: [u8; 25] = [
    0xAE, 0x2E, 0xD5, 0x80, 0xA8, 0x1F, 0xD3, 0x00, 0x40, 0x8D, 0x14, 0x20, 0x00, 0xA1, 0xC8, 0xDA, 0x02, 0x81,
    0x8F, 0xD9, 0xF1, 0xDB, 0x40, 0xA4, 0xA6,
];

/// Runs a plan against a host that fails the calls whose index is listed.
fn run(plan: Plan, failing: &[usize]) -> (Vec<HostCall>, Outcome) {
    let mut made = Vec::new();
    let mut turn = Run::start(plan);
    loop {
        match turn {
            Turn::Call(run) => {
                let index = made.len();
                made.push(match run.current() {
                    HostCall::SetPin(pin, state) => HostCall::SetPin(*pin, *state),
                    HostCall::DelayMs(ms) => HostCall::DelayMs(*ms),
                    HostCall::Write(bytes) => HostCall::Write(bytes.to_vec()),
                });
                turn = run.resume(!failing.contains(&index));
            }
            Turn::Done(outcome) => return (made, outcome),
        }
    }
}

fn lit_display() -> Display {
    let mut d = Display::new();
    let (_, outcome) = run(d.on(), &[]);
    assert_eq!(d.settle(outcome), Ok(()));
    assert!(d.is_on());
    d
}

fn lit_pixels(d: &Display) -> Vec<(u32, u32)> {
    let mut v = Vec::new();
    for y in 0..HEIGHT {
        for x in 0..WIDTH {
            if d.pixel(x, y) {
                v.push((x, y));
            }
        }
    }
    v
}

fn command(c: u8) -> Vec<HostCall> {
    vec![HostCall::SetPin(Pin::Dc, PinState::Inactive), HostCall::Write(vec![c])]
}

#[test]
fn new_display_is_off_and_dark() {
    let d = Display::new();
    assert!(!d.is_on());
    assert_eq!((d.width(), d.height()), (128, 32));
    assert!(lit_pixels(&d).is_empty());
    assert_eq!(Display::bus_config(), Config { frequency: 8_000_000, mode: Mode::Mode0, lsb_first: false });
}

#[test]
fn off_display_refuses_pixels_clear_and_present() {
    let mut d = Display::new();
    assert_eq!(d.set_pixel(1, 1, PixelColor::On), Err(DisplayError::DisplayOff));
    assert_eq!(d.set_pixel(-1, 1, PixelColor::On), Err(DisplayError::DisplayOff));
    assert_eq!(d.clear(), Err(DisplayError::DisplayOff));
    assert_eq!(d.present(), Err(DisplayError::DisplayOff));
    assert!(d.off().calls.is_empty());
}

#[test]
fn set_pixel_touches_one_bit() {
    let mut d = lit_display();
    assert_eq!(d.set_pixel(5, 10, PixelColor::On), Ok(()));
    assert_eq!(lit_pixels(&d), vec![(5, 10)]);
    assert_eq!(d.set_pixel(5, 11, PixelColor::On), Ok(()));
    assert_eq!(d.set_pixel(127, 31, PixelColor::On), Ok(()));
    assert_eq!(d.set_pixel(0, 0, PixelColor::On), Ok(()));
    assert_eq!(lit_pixels(&d), vec![(0, 0), (5, 10), (5, 11), (127, 31)]);
    assert_eq!(d.set_pixel(5, 10, PixelColor::Off), Ok(()));
    assert_eq!(d.set_pixel(6, 10, PixelColor::Off), Ok(()));
    assert_eq!(lit_pixels(&d), vec![(0, 0), (5, 11), (127, 31)]);
    let frame = match d.present().unwrap().calls.pop().unwrap().call {
        HostCall::Write(frame) => frame,
        other => panic!("{:?}", other),
    };
    assert_eq!(frame.len(), FRAME_BYTES);
    assert_eq!(frame[0], 0b0000_0001);
    assert_eq!(frame[5 + 128], 0b0000_1000);
    assert_eq!(frame[127 + 3 * 128], 0b1000_0000);
    assert_eq!(frame.iter().filter(|b| **b != 0).count(), 3);
}

#[test]
fn set_pixel_outside_the_screen_is_out_of_bounds() {
    let mut d = lit_display();
    for (x, y) in [(-1, 0), (0, -1), (128, 0), (0, 32), (i32::MAX, i32::MIN)] {
        assert_eq!(d.set_pixel(x, y, PixelColor::On), Err(DisplayError::OutOfBounds));
    }
    assert!(lit_pixels(&d).is_empty());
}

#[test]
fn clear_darkens_the_frame() {
    let mut d = lit_display();
    draw_circle(&mut d, 64, 16, 5);
    assert!(!lit_pixels(&d).is_empty());
    assert_eq!(d.clear(), Ok(()));
    assert!(lit_pixels(&d).is_empty());
    assert!(d.is_on());
}

#[test]
fn safe_draw_ignores_what_is_off_screen() {
    let mut d = lit_display();
    safe_draw(&mut d, 3, 4);
    safe_draw(&mut d, -3, 4);
    safe_draw(&mut d, 3, 32);
    safe_draw(&mut d, 128, 0);
    assert_eq!(lit_pixels(&d), vec![(3, 4)]);
}

#[test]
fn circle_of_radius_one_is_a_plus() {
    let mut d = lit_display();
    draw_circle(&mut d, 10, 10, 1);
    assert_eq!(lit_pixels(&d), vec![(10, 9), (9, 10), (10, 10), (11, 10), (10, 11)]);
}

#[test]
fn circle_is_the_disc_clipped_to_the_screen() {
    let mut d = lit_display();
    safe_draw(&mut d, 100, 30);
    draw_circle(&mut d, 2, 1, 4);
    let mut expected = Vec::new();
    for y in 0..32i32 {
        for x in 0..128i32 {
            if (x - 2) * (x - 2) + (y - 1) * (y - 1) <= 16 || (x, y) == (100, 30) {
                expected.push((x as u32, y as u32));
            }
        }
    }
    assert_eq!(lit_pixels(&d), expected);
    assert_eq!(expected.len(), 32);
}

#[test]
fn circle_with_negative_or_zero_radius() {
    let mut d = lit_display();
    draw_circle(&mut d, 10, 10, -1);
    assert!(lit_pixels(&d).is_empty());
    draw_circle(&mut d, 10, 10, 0);
    assert_eq!(lit_pixels(&d), vec![(10, 10)]);
    draw_circle(&mut d, i32::MAX, i32::MIN, 2);
    assert_eq!(lit_pixels(&d), vec![(10, 10)]);
}

#[test]
fn pacman_with_closed_mouth_is_the_circle() {
    let mut a = lit_display();
    let mut b = lit_display();
    draw_pacman(&mut a, 40, 16, 10, false);
    draw_circle(&mut b, 40, 16, 10);
    assert_eq!(lit_pixels(&a), lit_pixels(&b));
    assert_eq!(lit_pixels(&a).len(), 317);
}

#[test]
fn pacman_with_open_mouth_lacks_the_wedge() {
    let mut d = lit_display();
    draw_pacman(&mut d, 40, 16, 3, true);
    let mut expected = Vec::new();
    for y in 0..32i32 {
        for x in 0..128i32 {
            let (dx, dy) = (x - 40, y - 16);
            if dx * dx + dy * dy <= 9 && !(dx > 0 && dy.abs() < dx) {
                expected.push((x as u32, y as u32));
            }
        }
    }
    assert_eq!(lit_pixels(&d), expected);
    assert!(!d.pixel(41, 16) && !d.pixel(43, 16) && !d.pixel(42, 17));
    assert!(d.pixel(40, 16) && d.pixel(41, 17) && d.pixel(41, 15) && d.pixel(37, 16));
}

#[test]
fn send_cmd_is_command_mode_then_the_byte() {
    let d = Display::new();
    let plan = d.send_cmd(0xAF);
    assert_eq!(plan.effect, Effect::Keep);
    assert_eq!(
        plan.calls,
        vec![
            Item { call: HostCall::SetPin(Pin::Dc, PinState::Inactive), required: true },
            Item { call: HostCall::Write(vec![0xAF]), required: true },
        ]
    );
}

#[test]
fn on_powers_up_initialises_and_sends_a_dark_frame() {
    let mut d = Display::new();
    let plan = d.on();
    assert_eq!(plan.calls.len(), 78);
    assert_eq!(plan.commit_at, 62);
    assert!(plan.calls[..12].iter().all(|i| !i.required));
    assert!(plan.calls[12..].iter().all(|i| i.required));
    let (made, outcome) = run(plan, &[]);
    assert_eq!(outcome, Outcome { effect: Effect::TurnOn, committed: true, failed: false });
    let mut expected = vec![
        HostCall::SetPin(Pin::Vbatc, PinState::Inactive),
        HostCall::SetPin(Pin::Vddc, PinState::Inactive),
        HostCall::DelayMs(100),
        HostCall::SetPin(Pin::Vddc, PinState::Active),
        HostCall::DelayMs(100),
        HostCall::SetPin(Pin::Vbatc, PinState::Active),
        HostCall::DelayMs(100),
        HostCall::SetPin(Pin::Res, PinState::Inactive),
        HostCall::DelayMs(1),
        HostCall::SetPin(Pin::Res, PinState::Active),
        HostCall::DelayMs(10),
        HostCall::SetPin(Pin::Res, PinState::Inactive),
    ];
    for c in INIT.iter().chain([0x21, 0, 127, 0x22, 0, 3].iter()) {
        expected.extend(command(*c));
    }
    expected.push(HostCall::SetPin(Pin::Dc, PinState::Active));
    expected.push(HostCall::Write(vec![0; 512]));
    expected.extend(command(0xAF));
    assert_eq!(made, expected);
    assert_eq!(d.settle(outcome), Ok(()));
    assert!(d.is_on());
    // a second `on` has nothing to do
    let (made, outcome) = run(d.on(), &[]);
    assert!(made.is_empty());
    assert_eq!(d.settle(outcome), Ok(()));
    assert!(d.is_on());
}

#[test]
fn on_passes_over_failures_of_the_power_sequence() {
    let mut d = Display::new();
    let (made, outcome) = run(d.on(), &[0, 1, 3, 5, 7, 9, 11]);
    assert_eq!(made.len(), 78);
    assert_eq!(d.settle(outcome), Ok(()));
    assert!(d.is_on());
}

#[test]
fn on_failing_during_init_leaves_the_display_off() {
    let mut d = Display::new();
    let (made, outcome) = run(d.on(), &[13]);
    assert_eq!(made.len(), 14);
    assert_eq!(outcome, Outcome { effect: Effect::TurnOn, committed: false, failed: true });
    assert_eq!(d.settle(outcome), Err(DisplayError::HardwareError));
    assert!(!d.is_on());
    let (_, outcome) = run(d.on(), &[61]);
    assert_eq!(d.settle(outcome), Err(DisplayError::HardwareError));
    assert!(!d.is_on());
}

#[test]
fn on_failing_after_init_leaves_the_display_on() {
    let mut d = Display::new();
    let (made, outcome) = run(d.on(), &[62]);
    assert_eq!(made.len(), 63);
    assert_eq!(outcome, Outcome { effect: Effect::TurnOn, committed: true, failed: true });
    assert_eq!(d.settle(outcome), Err(DisplayError::HardwareError));
    assert!(d.is_on());
    assert!(lit_pixels(&d).is_empty());
}

#[test]
fn off_sleeps_the_panel() {
    let mut d = lit_display();
    let (made, outcome) = run(d.off(), &[1]);
    assert_eq!(made, command(0xAE));
    assert_eq!(d.settle(outcome), Err(DisplayError::HardwareError));
    assert!(d.is_on());
    let (made, outcome) = run(d.off(), &[]);
    assert_eq!(made, command(0xAE));
    assert_eq!(d.settle(outcome), Ok(()));
    assert!(!d.is_on());
}

#[test]
fn present_sends_window_then_frame() {
    let mut d = lit_display();
    safe_draw(&mut d, 0, 9);
    let plan = d.present().unwrap();
    let (made, outcome) = run(plan, &[]);
    let mut expected = Vec::new();
    for c in [0x21, 0, 127, 0x22, 0, 3] {
        expected.extend(command(c));
    }
    expected.push(HostCall::SetPin(Pin::Dc, PinState::Active));
    let mut frame = vec![0u8; 512];
    frame[128] = 0b10;
    expected.push(HostCall::Write(frame));
    assert_eq!(made, expected);
    assert_eq!(d.settle(outcome), Ok(()));
    let (made, outcome) = run(d.present().unwrap(), &[12]);
    assert_eq!(made.len(), 13);
    assert_eq!(d.settle(outcome), Err(DisplayError::HardwareError));
    assert!(d.is_on() && d.pixel(0, 9));
}

#[test]
fn pins_know_their_label_and_polarity() {
    assert_eq!(Pin::Dc.label(), "DC");
    assert_eq!(Pin::Res.label(), "RES");
    assert_eq!(Pin::Vbatc.label(), "VBATC");
    assert_eq!(Pin::Vddc.label(), "VDDC");
    assert!(Pin::Dc.active_high());
    assert!(!Pin::Res.active_high() && !Pin::Vbatc.active_high() && !Pin::Vddc.active_high());
    assert_eq!(Display::new().delay_ms(16), HostCall::DelayMs(16));
}

#[test]
fn pacman_scene_is_dots_and_figure() {
    let mut d = lit_display();
    safe_draw(&mut d, 0, 0);
    let app = PacmanApp::new();
    app.draw(&mut d);
    let mut expected = Vec::new();
    for y in 0..32i32 {
        for x in 0..128i32 {
            let dot = (0..8).any(|k| {
                let c = 10 + 15 * k;
                c > 5 && (x == c || x == c + 1) && (y == 16 || y == 17)
            });
            let (dx, dy) = (x, y - 16);
            let figure = dx * dx + dy * dy <= 100 && !(dx > 0 && dy.abs() < dx);
            if dot || figure {
                expected.push((x as u32, y as u32));
            }
        }
    }
    assert_eq!(lit_pixels(&d), expected);
    assert!(d.pixel(25, 16) && d.pixel(26, 17) && d.pixel(115, 16) && !d.pixel(27, 16));
    assert!(!d.pixel(0, 0));
}

#[test]
fn pacman_eats_the_dots_it_reaches() {
    let mut app = PacmanApp::new();
    for _ in 0..10 {
        app.advance();
    }
    assert_eq!(app.x(), 20);
    let mut d = lit_display();
    app.draw(&mut d);
    // the dot at column 25 is within five columns: gone; the mouth is open
    assert!(!d.pixel(26, 16) && !d.pixel(26, 17));
    assert!(d.pixel(40, 16) && d.pixel(41, 17));
}

#[test]
fn pacman_moves_two_columns_and_wraps() {
    let mut app = PacmanApp::new();
    assert_eq!((app.x(), app.mouth_open()), (0, true));
    let mut mouths = Vec::new();
    for _ in 0..8 {
        app.advance();
        mouths.push(app.mouth_open());
    }
    assert_eq!(app.x(), 16);
    assert_eq!(mouths, vec![true, true, true, false, false, false, false, true]);
    for _ in 8..71 {
        app.advance();
    }
    assert_eq!(app.x(), 142);
    app.advance();
    assert_eq!(app.x(), -15);
    app.advance();
    assert_eq!(app.x(), -13);
}
