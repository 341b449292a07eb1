//! Data model of the bridge: device state snapshots, desired-state updates,
//! device configuration, and the bridge's error kinds.
//!
//! Free-form text reported by the device (input name, volume mode, unit) is
//! held as a sequence of characters. The actual-volume reading, a decimal
//! number on the wire, is carried opaquely as its textual number token; the
//! bridge never interprets it.
use vstd::prelude::*;

verus! {

/// Power state reported by the device and used in outbound power tokens.
#[allow(non_camel_case_types)]
#[derive(Clone, Copy, PartialEq, Eq, Structural, Debug)]
pub enum MusicCastPowerString {
    on,
    standby,
    off,
}

/// The closed set of controllable input sources; used only for outbound
/// commands.
#[derive(Clone, Copy, PartialEq, Eq, Structural, Debug)]
pub enum MusicCastInputString {
    Optical,
    Aux,
    Bluetooth,
}

/// Actual-volume descriptor reported by the device. `value` holds the raw
/// decimal number token from the wire.
#[derive(Clone, PartialEq, Debug)]
pub struct ActualVolume {
    pub mode: Vec<char>,
    pub value: Vec<char>,
    pub unit: Vec<char>,
}

/// A complete snapshot of the device's status, fetched once per poll cycle.
#[derive(Clone, PartialEq, Debug)]
pub struct MusicCastState {
    pub power: MusicCastPowerString,
    pub sleep: u16,
    pub volume: u16,
    pub mute: bool,
    pub max_volume: u16,
    pub input: Vec<char>,
    pub subwoofer_volume: u16,
    pub actual_volume: ActualVolume,
}

/// A partial desired-state update received from the bus; absent fields are
/// left untouched on the device.
#[derive(Clone, PartialEq, Debug)]
pub struct MqttDevice {
    pub power: Option<bool>,
    pub volume: Option<u16>,
    pub mute: Option<bool>,
    pub input: Option<MusicCastInputString>,
}

/// Device configuration shared by both bridge loops: network address,
/// friendly name, and an optional poll interval in seconds.
#[derive(Clone, Debug)]
pub struct MusicCastConfig {
    pub ip: Vec<char>,
    pub name: Vec<char>,
    pub poll_rate: Option<u64>,
}

/// The error kinds of the bridge.
#[derive(Clone, Copy, PartialEq, Eq, Structural, Debug)]
pub enum BridgeError {
    /// Transport-level failure contacting the device.
    DeviceUnreachable,
    /// The device's response does not match the expected schema.
    DeviceProtocolError,
    /// An attempt to dispatch the read-only status request as a write.
    InvalidCommand,
    /// The bus refused or dropped an outbound publish.
    BusPublishError,
    /// The desired-state subscription channel closed.
    BusSubscriptionClosed,
}

/// A decimal digit.
pub open spec fn is_digit(c: char) -> bool {
    c == '0' || c == '1' || c == '2' || c == '3' || c == '4' || c == '5' || c == '6' || c == '7'
        || c == '8' || c == '9'
}

/// A character that may appear in a decimal number token (sign, digits,
/// fraction point, exponent marker).
pub open spec fn is_numchar(c: char) -> bool {
    is_digit(c) || c == '-' || c == '+' || c == '.' || c == 'e' || c == 'E'
}

/// Every character of `s` may appear in a number token.
pub open spec fn all_numchar(s: Seq<char>) -> bool {
    forall|i: int| 0 <= i < s.len() ==> is_numchar(s[i])
}

/// The mathematical model of an actual-volume descriptor.
#[verifier::ext_equal]
pub struct AvolModel {
    pub mode: Seq<char>,
    pub value: Seq<char>,
    pub unit: Seq<char>,
}

/// The mathematical model of a device state snapshot.
#[verifier::ext_equal]
pub struct StateModel {
    pub power: MusicCastPowerString,
    pub sleep: u16,
    pub volume: u16,
    pub mute: bool,
    pub max_volume: u16,
    pub input: Seq<char>,
    pub subwoofer_volume: u16,
    pub actual_volume: AvolModel,
}

impl AvolModel {
    /// The carried volume reading is a nonempty number token.
    pub open spec fn wf(&self) -> bool {
        &&& self.value.len() > 0
        &&& all_numchar(self.value)
    }
}

impl StateModel {
    /// A snapshot model is well formed when its actual-volume token is one
    /// the wire format can carry.
    pub open spec fn wf(&self) -> bool {
        self.actual_volume.wf()
    }
}

impl View for ActualVolume {
    type V = AvolModel;

    open spec fn view(&self) -> AvolModel {
        AvolModel { mode: self.mode@, value: self.value@, unit: self.unit@ }
    }
}

impl View for MusicCastState {
    type V = StateModel;

    open spec fn view(&self) -> StateModel {
        StateModel {
            power: self.power,
            sleep: self.sleep,
            volume: self.volume,
            mute: self.mute,
            max_volume: self.max_volume,
            input: self.input@,
            subwoofer_volume: self.subwoofer_volume,
            actual_volume: self.actual_volume@,
        }
    }
}

impl ActualVolume {
    /// The carried volume reading is a nonempty number token.
    pub open spec fn wf(&self) -> bool {
        self@.wf()
    }
}

impl MusicCastState {
    /// A snapshot is well formed when its actual-volume token is one the
    /// wire format can carry.
    pub open spec fn wf(&self) -> bool {
        self.actual_volume.wf()
    }

}

/// The exact lowercase device-protocol token for a power state.
pub open spec fn spec_power_token(p: MusicCastPowerString) -> Seq<char> {
    match p {
        MusicCastPowerString::on => "on"@,
        MusicCastPowerString::standby => "standby"@,
        MusicCastPowerString::off => "off"@,
    }
}

/// The exact lowercase device-protocol token for an input source.
pub open spec fn spec_input_token(i: MusicCastInputString) -> Seq<char> {
    match i {
        MusicCastInputString::Optical => "optical"@,
        MusicCastInputString::Aux => "aux"@,
        MusicCastInputString::Bluetooth => "bluetooth"@,
    }
}

/// Serialize a power state to its device-protocol token.
pub fn power_token(p: MusicCastPowerString) -> (r: String)
    ensures
        r@ == spec_power_token(p),
{
    match p {
        MusicCastPowerString::on => String::from_str("on"),
        MusicCastPowerString::standby => String::from_str("standby"),
        MusicCastPowerString::off => String::from_str("off"),
    }
}

/// Serialize an input source to its device-protocol token.
pub fn input_token(i: MusicCastInputString) -> (r: String)
    ensures
        r@ == spec_input_token(i),
{
    match i {
        MusicCastInputString::Optical => String::from_str("optical"),
        MusicCastInputString::Aux => String::from_str("aux"),
        MusicCastInputString::Bluetooth => String::from_str("bluetooth"),
    }
}

} // verus!
