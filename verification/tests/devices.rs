use javelin::devices::{access_for, detect_touchpad_device, is_space, to_lower, Access, DetectError};

const LISTING: &str = "\
Device:           Power Button
Kernel:           /dev/input/event2
Group:            1
Seat:             seat0, default
Capabilities:     keyboard

Device:           Lid Switch
Kernel:           /dev/input/event3
Group:            2
Capabilities:     keyboard

Device:           SynPS/2 Synaptics TouchPad
Kernel:           /dev/input/event5
Group:            7
Seat:             seat0, default
Size:             97x66mm
Capabilities:     pointer gesture

Device:           ELAN Touchpad
Kernel:           /dev/input/event9
Group:            8
";

fn detect(listing: &str) -> Result<String, DetectError> {
    detect_touchpad_device(listing)
}

#[test]
fn first_touchpad_of_a_listing_is_found() {
    assert_eq!(detect(LISTING), Ok("/dev/input/event5".to_string()));
}

#[test]
fn name_may_be_written_in_two_words_and_any_case() {
    assert_eq!(detect("Device: Acme Touch Pad\nKernel: /dev/input/event1"), Ok("/dev/input/event1".to_string()));
    assert_eq!(detect("Device: ACME TOUCHPAD\nKernel: /dev/input/event1"), Ok("/dev/input/event1".to_string()));
    assert_eq!(detect("tOuChPaD\nKernel: /dev/input/event1"), Ok("/dev/input/event1".to_string()));
}

#[test]
fn only_the_first_line_of_a_block_names_the_device() {
    let listing = "Device: Mouse\nKernel: /dev/input/touchpad\nNote: touchpad\n\nDevice: Touchpad\nKernel: /dev/input/event4\n";
    assert_eq!(detect(listing), Ok("/dev/input/event4".to_string()));
}

#[test]
fn listing_without_touchpad_is_turned_down() {
    assert_eq!(detect(""), Err(DetectError::NoTouchpad));
    assert_eq!(detect("\n\n"), Err(DetectError::NoTouchpad));
    assert_eq!(detect("\n\n\n"), Err(DetectError::NoTouchpad));
    assert_eq!(detect("Device: Mouse\nKernel: /dev/input/event1\n\nDevice: Keyboard\nKernel: /dev/input/event2\n"), Err(DetectError::NoTouchpad));
    assert_eq!(detect("touch  pad\nKernel: /dev/input/event1"), Err(DetectError::NoTouchpad));
    assert_eq!(detect("touchpa\nd: /dev/input/event1"), Err(DetectError::NoTouchpad));
}

#[test]
fn touchpad_block_without_a_second_line_is_turned_down() {
    assert_eq!(detect("Device: Touchpad"), Err(DetectError::MissingPathLine));
    assert_eq!(detect("Device: Touchpad\n\nKernel: /dev/input/event1"), Err(DetectError::MissingPathLine));
}

#[test]
fn second_line_without_a_colon_is_turned_down() {
    assert_eq!(detect("Device: Touchpad\nKernel /dev/input/event1"), Err(DetectError::InvalidPathLine));
    assert_eq!(detect("Device: Touchpad\n"), Err(DetectError::InvalidPathLine));
    assert_eq!(detect("Device: Touchpad\n\n"), Err(DetectError::MissingPathLine));
}

#[test]
fn first_touchpad_decides_even_where_it_is_turned_down() {
    let listing = "Device: Touchpad\nno path here\n\nDevice: Touchpad\nKernel: /dev/input/event4\n";
    assert_eq!(detect(listing), Err(DetectError::InvalidPathLine));
}

#[test]
fn path_ends_at_the_next_colon_and_is_trimmed() {
    assert_eq!(detect("Touchpad\nKernel:  /dev/a : b"), Ok("/dev/a".to_string()));
    assert_eq!(detect("Touchpad\nKernel:\t /dev/a \u{a0}\u{3000}\nGroup: 1"), Ok("/dev/a".to_string()));
    assert_eq!(detect("Touchpad\nKernel:/dev/my touchpad"), Ok("/dev/my touchpad".to_string()));
    assert_eq!(detect("Touchpad\nKernel:"), Ok(String::new()));
    assert_eq!(detect("Touchpad\nKernel:   \t "), Ok(String::new()));
    assert_eq!(detect("Touchpad\n::x"), Ok(String::new()));
    assert_eq!(detect("Touchpad\n:x"), Ok("x".to_string()));
}

#[test]
fn listing_may_hold_any_characters() {
    assert_eq!(detect("Gerät: Touchpad für Füße\nKernel: /dev/eingabe/größe\n"), Ok("/dev/eingabe/größe".to_string()));
    // only the letters A to Z are put in lower case
    assert_eq!(detect("ＴＯＵＣＨＰＡＤ\nKernel: /dev/input/event1"), Err(DetectError::NoTouchpad));
}

#[test]
fn blocks_are_parted_at_each_pair_of_line_feeds_from_the_left() {
    // three line feeds: the second block starts with a line feed, so its
    // first line is empty and the touchpad's name is its second line
    assert_eq!(detect("Device: Mouse\n\n\nTouchpad\nKernel: /dev/x"), Err(DetectError::NoTouchpad));
    assert_eq!(detect("Device: Mouse\n\n\n\nTouchpad\nKernel: /dev/x"), Ok("/dev/x".to_string()));
}

fn by_the_standard_library(listing: &str) -> Result<String, DetectError> {
    for block in listing.split("\n\n") {
        let mut lines = block.split('\n');
        let name = lines.next().unwrap().to_ascii_lowercase();
        if name.contains("touchpad") || name.contains("touch pad") {
            let Some(line) = lines.next() else {
                return Err(DetectError::MissingPathLine);
            };
            let Some(value) = line.split(":").nth(1) else {
                return Err(DetectError::InvalidPathLine);
            };
            return Ok(value.trim().to_string());
        }
    }
    Err(DetectError::NoTouchpad)
}

#[test]
fn detection_agrees_with_splitting_by_the_standard_library() {
    let pieces = ["", "\n", "\n\n", ":", " ", "Touchpad", "touch pad", "Kernel", "/dev/x", "\t", "Mouse", "TOUCH"];
    let mut seed: u32 = 12345;
    for _ in 0..3000 {
        let mut listing = String::new();
        for _ in 0..8 {
            seed = seed.wrapping_mul(1_103_515_245).wrapping_add(12345);
            listing.push_str(pieces[(seed >> 16) as usize % pieces.len()]);
        }
        assert_eq!(detect(&listing), by_the_standard_library(&listing), "{listing:?}");
    }
    assert_eq!(detect(LISTING), by_the_standard_library(LISTING));
}

#[test]
fn white_space_is_what_the_standard_library_calls_so() {
    for code in 0..=0x10FFFFu32 {
        if let Some(c) = char::from_u32(code) {
            assert_eq!(is_space(c), c.is_whitespace(), "{code:#x}");
        }
    }
}

#[test]
fn lower_case_is_what_the_standard_library_gives_for_ascii() {
    for code in 0..=0x10FFFFu32 {
        if let Some(c) = char::from_u32(code) {
            assert_eq!(to_lower(c), c.to_ascii_lowercase(), "{code:#x}");
        }
    }
}

#[test]
fn detection_complaints_are_worded() {
    assert_eq!(DetectError::MissingPathLine.message(), "Cannot get device path");
    assert_eq!(DetectError::InvalidPathLine.message(), "Invalid device path line");
    assert_eq!(
        DetectError::NoTouchpad.message(),
        "No touchpad device detected: specify it through --device flag"
    );
}

#[test]
fn access_follows_the_open_flags() {
    let (read_only, write_only, read_write) = (0, 1, 2);
    let access = |flags| access_for(flags, read_only, write_only, read_write);
    assert_eq!(access(0), Access { read: false, write: false });
    assert_eq!(access(1), Access { read: false, write: true });
    assert_eq!(access(2), Access { read: true, write: true });
    assert_eq!(access(2 | 0o4000), Access { read: true, write: true });
    assert_eq!(access(0o4000 | 0o2000000), Access { read: false, write: false });
    assert_eq!(access(3), Access { read: true, write: true });
}
