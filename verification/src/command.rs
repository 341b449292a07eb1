//! Outbound device commands and their translation to control-URL queries.
use vstd::prelude::*;

use crate::codec::{push_chars, push_str, push_u16, spec_u16_dec};
use crate::state::{
    spec_input_token, BridgeError, MusicCastConfig, MusicCastInputString,
};

verus! {

/// An outbound intent against the device. The read-only status request
/// exists structurally but must never be dispatched as a write.
#[derive(Clone, Copy, PartialEq, Eq, Structural, Debug)]
pub enum MusicCastCmd {
    Power(bool),
    Volume(u16),
    Mute(bool),
    Input(MusicCastInputString),
    SubwooferVolume(u16),
    GetStatus,
}

/// The base of the device's control URL for a given network address.
pub open spec fn spec_base_url(ip: Seq<char>) -> Seq<char> {
    "http://"@ + ip + "/YamahaExtendedControl/v1/main"@
}

/// The exact path-and-query suffix of a write command, relative to the base
/// control URL.
pub open spec fn spec_command_query(cmd: MusicCastCmd) -> Seq<char> {
    match cmd {
        MusicCastCmd::Power(b) => "/setPower?power="@ + if b {
            "on"@
        } else {
            "standby"@
        },
        MusicCastCmd::Volume(v) => "/setVolume?volume="@ + spec_u16_dec(v as nat),
        MusicCastCmd::Mute(b) => "/setMute?enable="@ + if b {
            "true"@
        } else {
            "false"@
        },
        MusicCastCmd::Input(i) => "/setInput?input="@ + spec_input_token(i),
        MusicCastCmd::SubwooferVolume(v) => "/setSubwooferVolume?volume="@ + spec_u16_dec(
            v as nat,
        ),
        MusicCastCmd::GetStatus => Seq::empty(),
    }
}

/// Build the base control URL of the configured device.
pub fn base_url(config: &MusicCastConfig) -> (r: Vec<char>)
    ensures
        r@ == spec_base_url(config.ip@),
{
    let mut out: Vec<char> = Vec::new();
    push_str(&mut out, "http://");
    push_chars(&mut out, &config.ip);
    push_str(&mut out, "/YamahaExtendedControl/v1/main");
    assert(out@ =~= spec_base_url(config.ip@));
    out
}

/// Build the URL of the status-read request of the configured device.
pub fn status_url(config: &MusicCastConfig) -> (r: Vec<char>)
    ensures
        r@ == spec_base_url(config.ip@) + "/getStatus"@,
{
    let mut out = base_url(config);
    push_str(&mut out, "/getStatus");
    assert(out@ =~= spec_base_url(config.ip@) + "/getStatus"@);
    out
}

/// Build the full URL of the single HTTP call for a write command. The
/// read-only status variant is a programming error and never reaches the
/// network.
pub fn command_url(config: &MusicCastConfig, cmd: &MusicCastCmd) -> (r: Result<
    Vec<char>,
    BridgeError,
>)
    ensures
        r is Err <==> *cmd is GetStatus,
        r matches Err(e) ==> e == BridgeError::InvalidCommand,
        r matches Ok(u) ==> u@ == spec_base_url(config.ip@) + spec_command_query(*cmd),
{
    let mut out = base_url(config);
    match cmd {
        MusicCastCmd::GetStatus => Err(BridgeError::InvalidCommand),
        MusicCastCmd::Power(b) => {
            push_str(&mut out, "/setPower?power=");
            if *b {
                push_str(&mut out, "on");
            } else {
                push_str(&mut out, "standby");
            }
            assert(out@ =~= spec_base_url(config.ip@) + spec_command_query(*cmd));
            Ok(out)
        },
        MusicCastCmd::Volume(v) => {
            push_str(&mut out, "/setVolume?volume=");
            push_u16(&mut out, *v);
            assert(out@ =~= spec_base_url(config.ip@) + spec_command_query(*cmd));
            Ok(out)
        },
        MusicCastCmd::Mute(b) => {
            push_str(&mut out, "/setMute?enable=");
            if *b {
                push_str(&mut out, "true");
            } else {
                push_str(&mut out, "false");
            }
            assert(out@ =~= spec_base_url(config.ip@) + spec_command_query(*cmd));
            Ok(out)
        },
        MusicCastCmd::Input(i) => {
            push_str(&mut out, "/setInput?input=");
            let tok = crate::state::input_token(*i);
            push_str(&mut out, tok.as_str());
            assert(out@ =~= spec_base_url(config.ip@) + spec_command_query(*cmd));
            Ok(out)
        },
        MusicCastCmd::SubwooferVolume(v) => {
            push_str(&mut out, "/setSubwooferVolume?volume=");
            push_u16(&mut out, *v);
            assert(out@ =~= spec_base_url(config.ip@) + spec_command_query(*cmd));
            Ok(out)
        },
    }
}

} // verus!
