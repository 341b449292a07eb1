//! The single-slot change-notification channel carrying the latest
//! desired-state update.
//!
//! A new update overwrites any unconsumed previous one: there is no queue
//! and no backpressure, and superseded updates are lost. The dispatcher
//! observes only the most recent value plus a change signal.
use vstd::prelude::*;

use crate::state::MqttDevice;

verus! {

/// A single-slot latest-value-wins channel.
pub struct CommandSlot {
    /// The most recently published update, if any was ever published.
    pub latest: Option<MqttDevice>,
    /// Whether an update arrived since the last read.
    pub changed: bool,
}

/// The slot after a publish: the new value replaces whatever was there.
pub open spec fn spec_slot_publish(slot: CommandSlot, u: MqttDevice) -> CommandSlot {
    CommandSlot { latest: Some(u), changed: true }
}

/// The slot after a read: the value is kept, the change signal is cleared.
pub open spec fn spec_slot_read(slot: CommandSlot) -> CommandSlot {
    CommandSlot { latest: slot.latest, changed: false }
}

impl CommandSlot {
    /// An empty slot: nothing published, no change signalled.
    pub fn new() -> (r: CommandSlot)
        ensures
            r.latest is None,
            !r.changed,
    {
        CommandSlot { latest: None, changed: false }
    }

    /// Publish an update: it overwrites any unconsumed previous value and
    /// raises the change signal.
    pub fn publish_update(&mut self, u: MqttDevice)
        ensures
            *final(self) == spec_slot_publish(*old(self), u),
            final(self).latest == Some(u),
            final(self).changed,
    {
        self.latest = Some(u);
        self.changed = true;
    }

    /// Read the latest value, clearing the change signal; the value stays
    /// in the slot for later reads.
    pub fn take_latest(&mut self) -> (r: Option<MqttDevice>)
        ensures
            r == old(self).latest,
            *final(self) == spec_slot_read(*old(self)),
    {
        self.changed = false;
        match &self.latest {
            Some(d) => Some(d.clone_update()),
            None => None,
        }
    }
}

impl MqttDevice {
    /// An identical copy of the update.
    pub fn clone_update(&self) -> (r: MqttDevice)
        ensures
            r == *self,
    {
        MqttDevice { power: self.power, volume: self.volume, mute: self.mute, input: self.input }
    }
}

/// Two updates published before a read coalesce: only the second survives,
/// the first is discarded.
pub proof fn lemma_latest_value_wins(slot: CommandSlot, a: MqttDevice, b: MqttDevice)
    ensures
        spec_slot_publish(spec_slot_publish(slot, a), b).latest == Some(b),
        spec_slot_read(spec_slot_publish(spec_slot_publish(slot, a), b)).latest == Some(b),
{
}

} // verus!
