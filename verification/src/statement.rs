//! The wording of the statements that are sent to the window manager.

use vstd::prelude::*;
use vstd::string::StringExecFns;
use crate::arguments::ArgContext;
use crate::control::{Command, Mode};
use crate::text::{decimal, write_decimal};

verus! {

/// The statement that sets the acceleration of every device of a type.
pub open spec fn acceleration_statement(device_type: Seq<char>, value: Seq<char>) -> Seq<char> {
    "input type:"@ + device_type + " pointer_accel "@ + value
}

/// The text of `command` for a device of type `device_type` whose fast and
/// slow accelerations read `fast` and `slow`.
pub open spec fn statement(
    command: Command,
    device_type: Seq<char>,
    fast: Seq<char>,
    slow: Seq<char>,
) -> Seq<char> {
    match command {
        Command::FocusFollowsMouse => "focus_follows_mouse always"@,
        Command::WarpToContainer => "mouse_warping container"@,
        Command::HideCursorAfter(ms) => "seat * hide_cursor "@ + decimal(ms as int),
        Command::SetAcceleration(Mode::Fast) => acceleration_statement(device_type, fast),
        Command::SetAcceleration(Mode::Slow) => acceleration_statement(device_type, slow),
        Command::ResetAcceleration => acceleration_statement(device_type, "0"@),
        Command::MoveCursorBy(dx, dy) => "seat seat0 cursor move "@ + decimal(dx as int) + " "@
            + decimal(dy as int),
        Command::MoveCursorTo(x, y) => "seat seat0 cursor set "@ + decimal(x as int) + " "@
            + decimal(y as int),
    }
}

/// Words the statement that sets an acceleration.
fn render_acceleration(device_type: &str, value: &str) -> (text: String)
    ensures
        text@ == acceleration_statement(device_type@, value@),
{
    let mut text = String::from_str("input type:");
    text.append(device_type);
    text.append(" pointer_accel ");
    text.append(value);
    text
}

/// Words a statement about the cursor that ends in two numbers.
fn render_pair(head: &str, a: i64, b: i64) -> (text: String)
    ensures
        text@ == head@ + decimal(a as int) + " "@ + decimal(b as int),
{
    let mut text = String::from_str(head);
    write_decimal(&mut text, a);
    text.append(" ");
    write_decimal(&mut text, b);
    text
}

/// Words `command` for the window manager.
pub fn render(command: &Command, context: &ArgContext) -> (text: String)
    ensures
        text@ == statement(
            *command,
            context.device_type@,
            context.args.javelin_acceleration@,
            context.args.pointer_acceleration@,
        ),
{
    match command {
        Command::FocusFollowsMouse => String::from_str("focus_follows_mouse always"),
        Command::WarpToContainer => String::from_str("mouse_warping container"),
        Command::HideCursorAfter(ms) => {
            let mut text = String::from_str("seat * hide_cursor ");
            write_decimal(&mut text, *ms as i64);
            text
        },
        Command::SetAcceleration(Mode::Fast) => render_acceleration(
            context.device_type.as_str(),
            context.args.javelin_acceleration.as_str(),
        ),
        Command::SetAcceleration(Mode::Slow) => render_acceleration(
            context.device_type.as_str(),
            context.args.pointer_acceleration.as_str(),
        ),
        Command::ResetAcceleration => render_acceleration(context.device_type.as_str(), "0"),
        Command::MoveCursorBy(dx, dy) => render_pair(
            "seat seat0 cursor move ",
            *dx as i64,
            *dy as i64,
        ),
        Command::MoveCursorTo(x, y) => render_pair("seat seat0 cursor set ", *x, *y),
    }
}

} // verus!
