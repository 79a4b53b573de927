//! The settings of a session, as they come from the command line.

use vstd::prelude::*;
use crate::control::Timing;
use crate::devices::{detect_touchpad_device, touchpad_in, DetectError};
use crate::offsets::{table_of, OffsetError, OffsetTable};

verus! {

/// What the command line says. The two accelerations are kept as the text
/// that is handed on to the window manager; the split coefficients, being
/// fractions, stay with the caller.
#[derive(Debug, PartialEq, Eq)]
pub struct Args {
    /// Path of the device node to track.
    pub device: Option<String>,
    /// Type of the tracked device, as the window manager names device types.
    pub device_type: Option<String>,
    /// Acceleration of the slow mode.
    pub pointer_acceleration: String,
    /// Acceleration of the fast mode.
    pub javelin_acceleration: String,
    /// Rest in milliseconds after which the slow device becomes fast.
    pub pointer_cooldown: u32,
    /// Rest in milliseconds after which the fast device becomes slow.
    pub javelin_cooldown: u32,
    /// Keep the cursor visible on a reload.
    pub do_not_hide_cursor: bool,
    /// Milliseconds between two frames of the wobble.
    pub tremble_msec: u32,
    /// Rest in milliseconds after which the cursor is hidden and the next
    /// motion starts from inside the focused window.
    pub reload_msec: u32,
    /// Offset arguments, each of the form `identity:dx:dy`.
    pub offsets: Vec<String>,
}

/// The settings with everything filled in that the command line may leave
/// open.
pub struct ArgContext {
    pub args: Args,
    pub device_type: String,
    pub device_path: String,
    pub offsets: OffsetTable,
}

/// Why the settings could not be completed.
#[derive(Clone, Copy, Debug, PartialEq, Eq, Structural)]
pub enum ArgumentError {
    /// An offset argument was turned down.
    Offset(OffsetError),
    /// No device was given and none was found.
    Device(DetectError),
}

/// The device type that is taken where none is given.
pub open spec fn default_device_type() -> Seq<char> {
    "touchpad"@
}

/// The device type of a session.
pub open spec fn device_type_of(given: Option<String>) -> Seq<char> {
    match given {
        Some(name) => name@,
        None => default_device_type(),
    }
}

/// The device path of a session: the one given, else the touchpad of the
/// listing.
pub open spec fn device_path_of(
    given: Option<String>,
    listing: Seq<char>,
) -> Result<Seq<char>, DetectError> {
    match given {
        Some(path) => Ok(path@),
        None => touchpad_in(listing),
    }
}

/// The durations of a session.
pub open spec fn timing_of(args: Args) -> Timing {
    Timing {
        slow_to_fast_cooldown: args.pointer_cooldown,
        fast_to_slow_cooldown: args.javelin_cooldown,
        reload_idle_duration: args.reload_msec,
        frame_period: args.tremble_msec,
    }
}

impl Args {
    /// The durations that drive the controller.
    pub fn timing(&self) -> (timing: Timing)
        ensures
            timing == timing_of(*self),
    {
        Timing {
            slow_to_fast_cooldown: self.pointer_cooldown,
            fast_to_slow_cooldown: self.javelin_cooldown,
            reload_idle_duration: self.reload_msec,
            frame_period: self.tremble_msec,
        }
    }
}

/// Completes the settings: fills the offset table from the offset
/// arguments, takes the device path that is given or else looks for the
/// touchpad in `listing`, and takes `touchpad` for a device type that is not
/// given. `listing` is read only where no device path is given. An offset
/// argument that is turned down is reported before a touchpad that is not
/// found.
pub fn get_arguments(args: Args, listing: &str) -> (context: Result<ArgContext, ArgumentError>)
    ensures
        match context {
            Ok(c) => {
                &&& c.args == args
                &&& table_of(args.offsets@) matches Ok(table) && table == c.offsets@
                &&& device_path_of(args.device, listing@) matches Ok(path) && path
                    == c.device_path@
                &&& c.device_type@ == device_type_of(args.device_type)
            },
            Err(ArgumentError::Offset(e)) => {
                table_of(args.offsets@) matches Err(why) && why == e
            },
            Err(ArgumentError::Device(e)) => {
                &&& table_of(args.offsets@) is Ok
                &&& device_path_of(args.device, listing@) matches Err(why) && why == e
            },
        },
{
    let offsets = match OffsetTable::from_args(&args.offsets) {
        Ok(table) => table,
        Err(e) => {
            return Err(ArgumentError::Offset(e));
        },
    };
    let device_path = match &args.device {
        Some(path) => path.clone(),
        None => match detect_touchpad_device(listing) {
            Ok(path) => path,
            Err(e) => {
                return Err(ArgumentError::Device(e));
            },
        },
    };
    let device_type = match &args.device_type {
        Some(name) => name.clone(),
        None => "touchpad".to_owned(),
    };
    Ok(ArgContext { args, device_type, device_path, offsets })
}

} // verus!
