//! Translation of a desired-state update into at most one device command,
//! in the fixed priority order: power first, then volume, then mute.
//!
//! Input and subwoofer volume exist in the model but are deliberately not
//! wired to any priority slot; an update that carries only those fields is
//! left unapplied. An update that sets several prioritized fields has only
//! its highest-priority field applied; the rest are dropped.
use vstd::prelude::*;

use crate::command::MusicCastCmd;
use crate::state::MqttDevice;

verus! {

/// The command the dispatcher issues for a desired-state update: the
/// highest-priority set field, or nothing.
pub open spec fn spec_select_command(d: MqttDevice) -> Option<MusicCastCmd> {
    match d.power {
        Some(b) => Some(MusicCastCmd::Power(b)),
        None => match d.volume {
            Some(v) => Some(MusicCastCmd::Volume(v)),
            None => match d.mute {
                Some(m) => Some(MusicCastCmd::Mute(m)),
                None => None,
            },
        },
    }
}

/// Choose the single command for a desired-state update.
pub fn select_command(d: &MqttDevice) -> (r: Option<MusicCastCmd>)
    ensures
        r == spec_select_command(*d),
{
    match d.power {
        Some(b) => Some(MusicCastCmd::Power(b)),
        None => match d.volume {
            Some(v) => Some(MusicCastCmd::Volume(v)),
            None => match d.mute {
                Some(m) => Some(MusicCastCmd::Mute(m)),
                None => None,
            },
        },
    }
}

/// An update that sets both power and volume yields exactly one command,
/// and it is the power command, never the volume command.
pub proof fn lemma_priority_power_over_volume(d: MqttDevice, p: bool, v: u16)
    requires
        d.power == Some(p),
        d.volume == Some(v),
    ensures
        spec_select_command(d) == Some(MusicCastCmd::Power(p)),
        spec_select_command(d) != Some(MusicCastCmd::Volume(v)),
{
}

/// An update that sets only mute yields exactly the mute command with the
/// given value.
pub proof fn lemma_mute_only_dispatch(d: MqttDevice, m: bool)
    requires
        d.power is None,
        d.volume is None,
        d.mute == Some(m),
    ensures
        spec_select_command(d) == Some(MusicCastCmd::Mute(m)),
{
}

} // verus!
