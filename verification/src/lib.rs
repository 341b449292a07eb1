//! A bridge between an MQTT-style message bus and a polled HTTP-controlled
//! audio device. The library holds the verified core: the device state and
//! command data model, the JSON codec for state snapshots, the translation
//! from desired-state updates to device commands, the latest-value command
//! slot, and the two bridge loops as state machines.
mod channel;
mod codec;
mod command;
mod dispatch;
mod engine;
mod state;

pub use channel::{lemma_latest_value_wins, spec_slot_publish, spec_slot_read, CommandSlot};
pub use codec::{
    chars_eq_lit, deserialize_state, esc_char, lemma_escape_push, lemma_parse_string_round,
    lemma_state_round_trip, parse_input_token, parse_power_token, parse_status_response,
    push_chars, push_escaped, push_str, serialize_state, spec_deserialize_state, spec_escape,
    spec_parse_string, spec_serialize_state, spec_u16_dec,
};
pub use command::{
    base_url, command_url, spec_base_url, spec_command_query, status_url, MusicCastCmd,
};
pub use dispatch::{
    lemma_mute_only_dispatch, lemma_priority_power_over_volume, select_command,
    spec_select_command,
};
pub use engine::{
    default_poll_rate, lemma_dispatch_failure_recovers, lemma_fetch_failure_halts_publisher,
    lemma_topic_push, spec_dispatcher_next, spec_dispatcher_run, spec_publisher_emits,
    spec_publisher_next, spec_publisher_trace, spec_topic, topic_for, DispatcherLoop, LoopStatus,
    PublisherLoop,
};
pub use state::{
    all_numchar, input_token, is_digit, is_numchar, power_token, spec_input_token,
    spec_power_token, ActualVolume, AvolModel, BridgeError, MqttDevice, MusicCastConfig,
    MusicCastInputString, MusicCastPowerString, MusicCastState, StateModel,
};
