use javelin::arguments::{get_arguments, ArgContext, ArgumentError, Args};
use javelin::control::{Command, Mode, Timing};
use javelin::devices::DetectError;
use javelin::offsets::OffsetError;
use javelin::statement::render;
use javelin::text::{chars_of, find_char, read_i32, write_decimal};

fn args() -> Args {
    Args {
        device: Some("/dev/input/event5".to_string()),
        device_type: None,
        pointer_acceleration: "-0.2".to_string(),
        javelin_acceleration: "1".to_string(),
        pointer_cooldown: 400,
        javelin_cooldown: 48,
        do_not_hide_cursor: false,
        tremble_msec: 32,
        reload_msec: 4096,
        offsets: vec!["code:10:-5".to_string()],
    }
}

fn context() -> ArgContext {
    get_arguments(args(), "").ok().unwrap()
}

fn error(args: Args, listing: &str) -> ArgumentError {
    get_arguments(args, listing).err().unwrap()
}

fn decimal(n: i64) -> String {
    let mut out = String::new();
    write_decimal(&mut out, n);
    out
}

#[test]
fn given_device_is_taken_and_the_listing_is_not_read() {
    let c = get_arguments(args(), "Device: Touchpad\nKernel: /dev/input/event9").ok().unwrap();
    assert_eq!(c.device_path, "/dev/input/event5");
    assert_eq!(c.device_type, "touchpad");
    assert_eq!(c.args, args());
    assert_eq!(c.offsets.get("code"), Some((10, -5)));
    assert_eq!(c.offsets.get("firefox"), None);
}

#[test]
fn missing_device_is_looked_up_in_the_listing() {
    let a = Args { device: None, device_type: Some("pointer".to_string()), ..args() };
    let c = get_arguments(a, "Device: Touchpad\nKernel: /dev/input/event9").ok().unwrap();
    assert_eq!(c.device_path, "/dev/input/event9");
    assert_eq!(c.device_type, "pointer");
}

#[test]
fn missing_device_without_touchpad_is_an_error() {
    let a = || Args { device: None, ..args() };
    assert_eq!(error(a(), ""), ArgumentError::Device(DetectError::NoTouchpad));
    assert_eq!(error(a(), "Touchpad"), ArgumentError::Device(DetectError::MissingPathLine));
    assert_eq!(error(a(), "Touchpad\nx"), ArgumentError::Device(DetectError::InvalidPathLine));
}

#[test]
fn unreadable_offset_is_an_error_before_anything_else() {
    let a = Args { device: None, offsets: vec!["a:1".to_string(), "b:1:z".to_string()], ..args() };
    assert_eq!(error(a, ""), ArgumentError::Offset(OffsetError::InvalidY));
    let b = Args { offsets: vec!["a:".to_string()], ..args() };
    assert_eq!(error(b, ""), ArgumentError::Offset(OffsetError::InvalidX));
}

#[test]
fn durations_are_taken_from_the_arguments() {
    assert_eq!(
        args().timing(),
        Timing {
            slow_to_fast_cooldown: 400,
            fast_to_slow_cooldown: 48,
            reload_idle_duration: 4096,
            frame_period: 32,
        }
    );
}

#[test]
fn statements_are_worded_for_the_window_manager() {
    let c = context();
    assert_eq!(render(&Command::FocusFollowsMouse, &c), "focus_follows_mouse always");
    assert_eq!(render(&Command::WarpToContainer, &c), "mouse_warping container");
    assert_eq!(render(&Command::HideCursorAfter(4096), &c), "seat * hide_cursor 4096");
    assert_eq!(render(&Command::HideCursorAfter(0), &c), "seat * hide_cursor 0");
    assert_eq!(render(&Command::SetAcceleration(Mode::Fast), &c), "input type:touchpad pointer_accel 1");
    assert_eq!(render(&Command::SetAcceleration(Mode::Slow), &c), "input type:touchpad pointer_accel -0.2");
    assert_eq!(render(&Command::ResetAcceleration, &c), "input type:touchpad pointer_accel 0");
    assert_eq!(render(&Command::MoveCursorBy(-15, 0), &c), "seat seat0 cursor move -15 0");
    assert_eq!(render(&Command::MoveCursorBy(8, -19), &c), "seat seat0 cursor move 8 -19");
    assert_eq!(render(&Command::MoveCursorTo(510, 495), &c), "seat seat0 cursor set 510 495");
    assert_eq!(
        render(&Command::MoveCursorTo(-6442450944, 6442450941), &c),
        "seat seat0 cursor set -6442450944 6442450941"
    );
}

#[test]
fn statements_name_the_device_type_of_the_session() {
    let a = Args { device_type: Some("pointer".to_string()), ..args() };
    let c = get_arguments(a, "").ok().unwrap();
    assert_eq!(render(&Command::SetAcceleration(Mode::Fast), &c), "input type:pointer pointer_accel 1");
    assert_eq!(render(&Command::ResetAcceleration, &c), "input type:pointer pointer_accel 0");
}

#[test]
fn numbers_are_written_as_the_standard_library_writes_them() {
    for n in [0i64, 1, -1, 9, 10, -10, 99, 100, 12345, -98765, 2147483647, -2147483648, 4294967295, i64::MAX, i64::MIN, i64::MIN + 1] {
        assert_eq!(decimal(n), n.to_string());
    }
    let mut seed: u64 = 42;
    for _ in 0..2000 {
        seed = seed.wrapping_mul(6364136223846793005).wrapping_add(1442695040888963407);
        let n = (seed >> (seed % 60)) as i64;
        assert_eq!(decimal(n), n.to_string());
        assert_eq!(decimal(-n), (-n).to_string());
    }
}

#[test]
fn numbers_are_written_after_what_is_there() {
    let mut out = "x=".to_string();
    write_decimal(&mut out, -40);
    write_decimal(&mut out, 2);
    assert_eq!(out, "x=-402");
}

#[test]
fn written_numbers_are_read_back() {
    for n in [0i32, 7, -7, 10, -120, 4096, i32::MAX, i32::MIN, -2147483647] {
        let chars = chars_of(&decimal(n as i64));
        assert_eq!(read_i32(&chars, 0, chars.len()), Some(n));
    }
}

#[test]
fn numbers_are_read_from_a_part_of_the_text() {
    let chars = chars_of("ab-12cd");
    assert_eq!(read_i32(&chars, 2, 5), Some(-12));
    assert_eq!(read_i32(&chars, 3, 5), Some(12));
    assert_eq!(read_i32(&chars, 2, 6), None);
    assert_eq!(read_i32(&chars, 2, 3), None);
    assert_eq!(read_i32(&chars, 4, 4), None);
}

#[test]
fn characters_are_found_from_a_position_on() {
    let chars = chars_of("a:b:c");
    assert_eq!(chars, vec!['a', ':', 'b', ':', 'c']);
    assert_eq!(find_char(&chars, ':', 0), 1);
    assert_eq!(find_char(&chars, ':', 1), 1);
    assert_eq!(find_char(&chars, ':', 2), 3);
    assert_eq!(find_char(&chars, ':', 4), 5);
    assert_eq!(find_char(&chars, ':', 5), 5);
    assert_eq!(chars_of("Füße→端"), vec!['F', 'ü', 'ß', 'e', '→', '端']);
}
