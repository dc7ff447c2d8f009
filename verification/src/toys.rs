//! Toy connection bookkeeping: how toys are connected, which devices are
//! known, and the errors a toy backend reports.

use vstd::prelude::*;
use crate::config::UNIT;
use crate::haptics::HapticCommand;
use crate::text::{chars_of, string_of};
use crate::trigger::Pattern;

verus! {

/// How the toy backend is reached.
#[derive(Debug, Clone, Copy, PartialEq, Eq, Structural)]
pub enum ConnectionMode {
    Disconnected,
    ExternalCentral,
    Embedded,
}

/// A connected toy.
#[derive(Debug, Clone)]
pub struct ToyDevice {
    pub id: String,
    pub name: String,
    pub can_vibrate: bool,
}

impl ToyDevice {
    /// A device that can vibrate.
    pub fn new(id: &str, name: &str) -> (d: ToyDevice)
        ensures
            d.id@ == id@,
            d.name@ == name@,
            d.can_vibrate,
    {
        ToyDevice {
            id: string_of(chars_of(id).as_slice()),
            name: string_of(chars_of(name).as_slice()),
            can_vibrate: true,
        }
    }

    /// A device whose vibration support is known.
    pub fn vibrating(id: &str, name: &str, can_vibrate: bool) -> (d: ToyDevice)
        ensures
            d.id@ == id@,
            d.name@ == name@,
            d.can_vibrate == can_vibrate,
    {
        ToyDevice {
            id: string_of(chars_of(id).as_slice()),
            name: string_of(chars_of(name).as_slice()),
            can_vibrate,
        }
    }

    /// The devices' names, in order.
    pub fn names(devices: &[ToyDevice]) -> (r: Vec<String>)
        ensures
            r@.len() == devices@.len(),
            forall|i: int| 0 <= i < devices@.len() ==> (#[trigger] r@[i])@ == devices@[i].name@,
    {
        let mut r: Vec<String> = Vec::new();
        let mut k: usize = 0;
        while k < devices.len()
            invariant
                k <= devices.len(),
                r@.len() == k,
                forall|i: int| 0 <= i < k ==> (#[trigger] r@[i])@ == devices@[i].name@,
            decreases devices.len() - k,
        {
            r.push(devices[k].name.clone());
            k += 1;
        }
        r
    }
}

/// What a toy backend can fail with.
#[derive(Debug, Clone, PartialEq, Eq)]
pub enum ToyError {
    Buttplug(String),
    NotConnected,
}

pub open spec fn toy_error_text(e: ToyError) -> Seq<char> {
    match e {
        ToyError::Buttplug(message) => message@,
        ToyError::NotConnected => "toy backend is not connected"@,
    }
}

impl ToyError {
    /// The error's message.
    pub fn describe(&self) -> (s: String)
        ensures
            s@ == toy_error_text(*self),
    {
        match self {
            ToyError::Buttplug(message) => message.clone(),
            ToyError::NotConnected => string_of(chars_of("toy backend is not connected").as_slice()),
        }
    }
}

/// The connection mode, the central server address and the known devices.
pub struct ToyHub {
    mode: ConnectionMode,
    central_url: String,
    devices: Vec<ToyDevice>,
}

impl ToyHub {
    pub closed spec fn mode_spec(&self) -> ConnectionMode {
        self.mode
    }

    pub closed spec fn central_url_spec(&self) -> Seq<char> {
        self.central_url@
    }

    pub closed spec fn devices_spec(&self) -> Seq<ToyDevice> {
        self.devices@
    }

    /// A disconnected hub with no devices.
    pub fn new(central_url: String) -> (h: ToyHub)
        ensures
            h.mode_spec() == ConnectionMode::Disconnected,
            h.central_url_spec() == central_url@,
            h.devices_spec().len() == 0,
    {
        ToyHub { mode: ConnectionMode::Disconnected, central_url, devices: Vec::new() }
    }

    pub fn mode(&self) -> (m: ConnectionMode)
        ensures
            m == self.mode_spec(),
    {
        self.mode
    }

    pub fn central_url(&self) -> (s: &str)
        ensures
            s@ == self.central_url_spec(),
    {
        self.central_url.as_str()
    }

    pub fn devices(&self) -> (d: &[ToyDevice])
        ensures
            d@ == self.devices_spec(),
    {
        self.devices.as_slice()
    }

    pub fn use_external(&mut self)
        ensures
            final(self).mode_spec() == ConnectionMode::ExternalCentral,
            final(self).central_url_spec() == old(self).central_url_spec(),
            final(self).devices_spec() == old(self).devices_spec(),
    {
        self.mode = ConnectionMode::ExternalCentral;
    }

    pub fn use_embedded(&mut self)
        ensures
            final(self).mode_spec() == ConnectionMode::Embedded,
            final(self).central_url_spec() == old(self).central_url_spec(),
            final(self).devices_spec() == old(self).devices_spec(),
    {
        self.mode = ConnectionMode::Embedded;
    }

    /// Disconnecting forgets every device.
    pub fn disconnect(&mut self)
        ensures
            final(self).mode_spec() == ConnectionMode::Disconnected,
            final(self).central_url_spec() == old(self).central_url_spec(),
            final(self).devices_spec().len() == 0,
    {
        self.mode = ConnectionMode::Disconnected;
        self.devices.clear();
    }

    pub fn note_devices(&mut self, devices: Vec<ToyDevice>)
        ensures
            final(self).mode_spec() == old(self).mode_spec(),
            final(self).central_url_spec() == old(self).central_url_spec(),
            final(self).devices_spec() == devices@,
    {
        self.devices = devices;
    }
}


/// Pulses per pulsed command.
pub const PULSE_COUNT: u64 = 3;

/// One step of playing a command: set every toy to `strength` (millionths),
/// then wait `wait_ms`.
#[derive(Debug, Clone, Copy, PartialEq, Eq, Structural)]
pub struct VibrationStep {
    pub strength: i64,
    pub wait_ms: u64,
}

/// The steps that play a command, strength clamped into `0..=UNIT`: a held
/// vibration stopped after the duration; three pulses on and off, each
/// phase a sixth of the duration; or a ramp through 40%, 70% and 100%, each
/// a third of the duration, then off.
pub open spec fn schedule_spec(command: HapticCommand) -> Seq<VibrationStep> {
    let s = if command.strength < 0 {
        0
    } else if command.strength > UNIT {
        UNIT
    } else {
        command.strength
    };
    let d = command.duration_ms;
    match command.pattern {
        Pattern::Vibrate => if d > 0 {
            seq![VibrationStep { strength: s, wait_ms: d }, VibrationStep { strength: 0, wait_ms: 0 }]
        } else {
            seq![VibrationStep { strength: s, wait_ms: 0 }]
        },
        Pattern::Pulse => {
            let each = d / 6;
            let on = VibrationStep { strength: s, wait_ms: each };
            let off = VibrationStep { strength: 0, wait_ms: each };
            seq![on, off, on, off, on, off]
        },
        Pattern::Ramp => {
            let each = d / 3;
            seq![
                VibrationStep { strength: (s * 4 / 10) as i64, wait_ms: each },
                VibrationStep { strength: (s * 7 / 10) as i64, wait_ms: each },
                VibrationStep { strength: s, wait_ms: each },
                VibrationStep { strength: 0, wait_ms: 0 },
            ]
        },
    }
}

/// The steps that play a command on the toys.
pub fn vibration_schedule(command: HapticCommand) -> (steps: Vec<VibrationStep>)
    ensures
        steps@ == schedule_spec(command),
{
    let s = if command.strength < 0 {
        0
    } else if command.strength > UNIT {
        UNIT
    } else {
        command.strength
    };
    let d = command.duration_ms;
    let mut steps: Vec<VibrationStep> = Vec::new();
    match command.pattern {
        Pattern::Vibrate => {
            if d > 0 {
                steps.push(VibrationStep { strength: s, wait_ms: d });
                steps.push(VibrationStep { strength: 0, wait_ms: 0 });
            } else {
                steps.push(VibrationStep { strength: s, wait_ms: 0 });
            }
        },
        Pattern::Pulse => {
            let each = d / (PULSE_COUNT * 2);
            let mut k: u64 = 0;
            while k < PULSE_COUNT
                invariant
                    k <= PULSE_COUNT,
                    each == d / 6,
                    steps@.len() == 2 * k,
                    forall|i: int| 0 <= i < steps@.len() ==> #[trigger] steps@[i] == (if i % 2 == 0 {
                        VibrationStep { strength: s, wait_ms: each }
                    } else {
                        VibrationStep { strength: 0, wait_ms: each }
                    }),
                decreases PULSE_COUNT - k,
            {
                steps.push(VibrationStep { strength: s, wait_ms: each });
                steps.push(VibrationStep { strength: 0, wait_ms: each });
                k += 1;
            }
        },
        Pattern::Ramp => {
            let each = d / 3;
            steps.push(VibrationStep { strength: s * 4 / 10, wait_ms: each });
            steps.push(VibrationStep { strength: s * 7 / 10, wait_ms: each });
            steps.push(VibrationStep { strength: s, wait_ms: each });
            steps.push(VibrationStep { strength: 0, wait_ms: 0 });
        },
    }
    proof {
        assert(steps@ =~= schedule_spec(command));
    }
    steps
}

/// How toys are attached at start, from the `DEADASS_TOYS` setting.
#[derive(Debug, Clone, Copy, PartialEq, Eq, Structural)]
pub enum ToyAutoconnect {
    EmbeddedThenCentral,
    CentralOnly,
}

/// `embedded` or `central` in any ASCII case; anything else (or no
/// setting) attaches nothing.
pub fn autoconnect_choice(setting: Option<&str>) -> (r: Option<ToyAutoconnect>)
    ensures
        r == match setting {
            Some(s) => if crate::discovery::eq_ignore_ascii_case_spec(s@, "embedded"@) {
                Some(ToyAutoconnect::EmbeddedThenCentral)
            } else if crate::discovery::eq_ignore_ascii_case_spec(s@, "central"@) {
                Some(ToyAutoconnect::CentralOnly)
            } else {
                None
            },
            None => None,
        },
{
    match setting {
        Some(s) => if crate::discovery::eq_ignore_ascii_case(s, "embedded") {
            Some(ToyAutoconnect::EmbeddedThenCentral)
        } else if crate::discovery::eq_ignore_ascii_case(s, "central") {
            Some(ToyAutoconnect::CentralOnly)
        } else {
            None
        },
        None => None,
    }
}

} // verus!
