use pico_wasm_host::blinky::{BlinkyCtx, BlinkyImpl};
use pico_wasm_host::delay::{DelayImpl, Wait};
use pico_wasm_host::gpio::{GpioCtx, GpioImpl, Level, PinCommand, PinHandle};
use pico_wasm_host::host::HostState;

fn board() -> HostState {
    let mut pins = GpioCtx::new();
    assert!(pins.register("DC".to_string(), 20, Level::Low));
    assert!(pins.register("RES".to_string(), 21, Level::Low));
    assert!(pins.register("VBATC".to_string(), 22, Level::Low));
    assert!(pins.register("VDDC".to_string(), 23, Level::Low));
    HostState::new(pins)
}

#[test]
fn registered_pin_is_driven_high() {
    let mut h = board();
    let command = GpioImpl { host: &mut h }.set_pin_state("DC".to_string(), Level::High);
    assert_eq!(command, Some(PinCommand { line: 20, level: Level::High }));
    assert_eq!(h.gpio_ctx.pin(&"DC".to_string()), Some(PinHandle { line: 20, level: Level::High }));
    // the other lines stay where they were
    assert_eq!(h.gpio_ctx.pin(&"RES".to_string()), Some(PinHandle { line: 21, level: Level::Low }));
}

#[test]
fn pin_goes_low_again() {
    let mut h = board();
    GpioImpl { host: &mut h }.set_pin_state("VDDC".to_string(), Level::High);
    let command = GpioImpl { host: &mut h }.set_pin_state("VDDC".to_string(), Level::Low);
    assert_eq!(command, Some(PinCommand { line: 23, level: Level::Low }));
    assert_eq!(h.gpio_ctx.pin(&"VDDC".to_string()), Some(PinHandle { line: 23, level: Level::Low }));
}

#[test]
fn unknown_label_is_a_no_op() {
    let mut h = board();
    let command = GpioImpl { host: &mut h }.set_pin_state("LED".to_string(), Level::High);
    assert_eq!(command, None);
    assert_eq!(h.gpio_ctx.pin(&"LED".to_string()), None);
    // labels are exact
    assert_eq!(GpioImpl { host: &mut h }.set_pin_state("dc".to_string(), Level::High), None);
    assert_eq!(GpioImpl { host: &mut h }.set_pin_state("".to_string(), Level::High), None);
    for (label, line) in [("DC", 20u8), ("RES", 21), ("VBATC", 22), ("VDDC", 23)] {
        assert_eq!(h.gpio_ctx.pin(&label.to_string()), Some(PinHandle { line, level: Level::Low }));
    }
}

#[test]
fn a_line_has_one_owner() {
    let mut pins = GpioCtx::new();
    assert!(pins.register("A".to_string(), 1, Level::Low));
    assert!(!pins.register("B".to_string(), 1, Level::High));
    assert_eq!(pins.pin(&"B".to_string()), None);
    assert_eq!(pins.pin(&"A".to_string()), Some(PinHandle { line: 1, level: Level::Low }));
    // a label may take a new line, or the same one again
    assert!(pins.register("A".to_string(), 2, Level::High));
    assert_eq!(pins.pin(&"A".to_string()), Some(PinHandle { line: 2, level: Level::High }));
    assert!(pins.register("A".to_string(), 2, Level::Low));
    assert!(pins.register("B".to_string(), 1, Level::High));
    assert_eq!(pins.pin(&"B".to_string()), Some(PinHandle { line: 1, level: Level::High }));
}

#[test]
fn delays_are_counted_in_nanoseconds() {
    let mut h = board();
    assert_eq!(DelayImpl { host: &mut h }.delay_ms(0), Wait { nanos: 0 });
    assert_eq!(DelayImpl { host: &mut h }.delay_ms(16), Wait { nanos: 16_000_000 });
    assert_eq!(DelayImpl { host: &mut h }.delay_ms(u32::MAX), Wait { nanos: 4_294_967_295_000_000 });
    assert_eq!(DelayImpl { host: &mut h }.delay_ns(750), Wait { nanos: 750 });
}

#[test]
fn led_goes_on_and_off() {
    let mut ctx = BlinkyCtx { led: PinHandle { line: 25, level: Level::Low } };
    assert_eq!(BlinkyImpl { host: &mut ctx }.on(), PinCommand { line: 25, level: Level::High });
    assert_eq!(ctx.led, PinHandle { line: 25, level: Level::High });
    assert_eq!(BlinkyImpl { host: &mut ctx }.off(), PinCommand { line: 25, level: Level::Low });
    assert_eq!(ctx.led, PinHandle { line: 25, level: Level::Low });
    assert_eq!(BlinkyImpl { host: &mut ctx }.delay(400), Wait { nanos: 400_000_000 });
}

#[test]
fn range_strings_count_from_zero_to_n() {
    let mut ctx = BlinkyCtx { led: PinHandle { line: 25, level: Level::Low } };
    assert_eq!(BlinkyImpl { host: &mut ctx }.get_range_strings(0), vec!["0".to_string()]);
    let texts = BlinkyImpl { host: &mut ctx }.get_range_strings(12);
    let expected: Vec<String> =
        ["0", "1", "2", "3", "4", "5", "6", "7", "8", "9", "10", "11", "12"].iter().map(|s| s.to_string()).collect();
    assert_eq!(texts, expected);
    let texts = BlinkyImpl { host: &mut ctx }.get_range_strings(1000);
    assert_eq!(texts.len(), 1001);
    assert_eq!(texts[1000], "1000");
    assert_eq!(texts[907], "907");
}
