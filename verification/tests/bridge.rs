use musiccast_bridge::{
    command_url, deserialize_state, parse_status_response, input_token, parse_input_token, parse_power_token,
    power_token, select_command, serialize_state, status_url, topic_for, ActualVolume,
    BridgeError, CommandSlot, DispatcherLoop, MqttDevice, MusicCastCmd, MusicCastConfig,
    MusicCastInputString, MusicCastPowerString, MusicCastState, PublisherLoop,
};

fn chars(s: &str) -> Vec<char> {
    s.chars().collect()
}

fn text(v: &[char]) -> String {
    v.iter().collect()
}

fn sample_state() -> MusicCastState {
    MusicCastState {
        power: MusicCastPowerString::standby,
        sleep: 0,
        volume: 10,
        mute: false,
        max_volume: 80,
        input: chars("optical"),
        subwoofer_volume: 4,
        actual_volume: ActualVolume {
            mode: chars("db"),
            value: chars("-40.5"),
            unit: chars("dB"),
        },
    }
}

fn config() -> MusicCastConfig {
    MusicCastConfig {
        ip: chars("192.168.1.50"),
        name: chars("soundbar"),
        poll_rate: None,
    }
}

#[test]
fn state_round_trips_through_json() {
    let st = sample_state();
    let payload = serialize_state(&st);
    let back = deserialize_state(&payload).expect("canonical payload must parse");
    assert_eq!(back, st);
}

#[test]
fn state_with_escapes_round_trips() {
    let mut st = sample_state();
    st.input = chars("weird \"quoted\" \\ input");
    st.actual_volume.unit = chars("d\\B\"");
    let payload = serialize_state(&st);
    let back = deserialize_state(&payload).expect("escaped payload must parse");
    assert_eq!(back, st);
}

#[test]
fn serialized_state_is_exact_json_text() {
    let st = sample_state();
    let payload = text(&serialize_state(&st));
    assert_eq!(
        payload,
        "{\"power\":\"standby\",\"sleep\":0,\"volume\":10,\"mute\":false,\
         \"max_volume\":80,\"input\":\"optical\",\"subwoofer_volume\":4,\
         \"actual_volume\":{\"mode\":\"db\",\"value\":-40.5,\"unit\":\"dB\"}}"
    );
}

#[test]
fn serialized_state_is_real_json() {
    let st = sample_state();
    let payload = text(&serialize_state(&st));
    let v: serde_json::Value = serde_json::from_str(&payload).expect("valid JSON");
    assert_eq!(v["power"], serde_json::Value::String("standby".to_string()));
    assert_eq!(v["volume"], serde_json::Value::from(10u64));
    assert_eq!(v["mute"], serde_json::Value::Bool(false));
    assert_eq!(v["actual_volume"]["unit"], serde_json::Value::String("dB".to_string()));
}

#[test]
fn malformed_payloads_are_rejected() {
    assert_eq!(deserialize_state(&chars("")), None);
    assert_eq!(deserialize_state(&chars("{}")), None);
    let st = sample_state();
    let mut payload = serialize_state(&st);
    payload.push('x');
    assert_eq!(deserialize_state(&payload), None);
    let truncated: Vec<char> = serialize_state(&st)[..40].to_vec();
    assert_eq!(deserialize_state(&truncated), None);
    let bad_power = chars(
        "{\"power\":\"dim\",\"sleep\":0,\"volume\":10,\"mute\":false,\
         \"max_volume\":80,\"input\":\"optical\",\"subwoofer_volume\":4,\
         \"actual_volume\":{\"mode\":\"db\",\"value\":-40.5,\"unit\":\"dB\"}}",
    );
    assert_eq!(deserialize_state(&bad_power), None);
}

#[test]
fn power_tokens_are_exact_and_invertible() {
    assert_eq!(power_token(MusicCastPowerString::on), "on");
    assert_eq!(power_token(MusicCastPowerString::standby), "standby");
    assert_eq!(power_token(MusicCastPowerString::off), "off");
    assert_eq!(parse_power_token(&chars("on")), Some(MusicCastPowerString::on));
    assert_eq!(parse_power_token(&chars("standby")), Some(MusicCastPowerString::standby));
    assert_eq!(parse_power_token(&chars("off")), Some(MusicCastPowerString::off));
    assert_eq!(parse_power_token(&chars("On")), None);
    assert_eq!(parse_power_token(&chars("dim")), None);
    assert_eq!(parse_power_token(&chars("")), None);
}

#[test]
fn input_tokens_are_exact_and_invertible() {
    assert_eq!(input_token(MusicCastInputString::Optical), "optical");
    assert_eq!(input_token(MusicCastInputString::Aux), "aux");
    assert_eq!(input_token(MusicCastInputString::Bluetooth), "bluetooth");
    assert_eq!(parse_input_token(&chars("optical")), Some(MusicCastInputString::Optical));
    assert_eq!(parse_input_token(&chars("aux")), Some(MusicCastInputString::Aux));
    assert_eq!(parse_input_token(&chars("bluetooth")), Some(MusicCastInputString::Bluetooth));
    assert_eq!(parse_input_token(&chars("hdmi")), None);
    assert_eq!(parse_input_token(&chars("Optical")), None);
}

#[test]
fn dispatcher_prefers_power_over_volume() {
    let update = MqttDevice {
        power: Some(true),
        volume: Some(25),
        mute: None,
        input: None,
    };
    assert_eq!(select_command(&update), Some(MusicCastCmd::Power(true)));
}

#[test]
fn dispatcher_mute_only_issues_mute() {
    let update = MqttDevice {
        power: None,
        volume: None,
        mute: Some(true),
        input: None,
    };
    assert_eq!(select_command(&update), Some(MusicCastCmd::Mute(true)));
}

#[test]
fn dispatcher_ignores_input_only_updates() {
    let update = MqttDevice {
        power: None,
        volume: None,
        mute: None,
        input: Some(MusicCastInputString::Aux),
    };
    assert_eq!(select_command(&update), None);
}

#[test]
fn command_slot_keeps_only_latest_update() {
    let mut slot = CommandSlot::new();
    let first = MqttDevice { power: Some(true), volume: None, mute: None, input: None };
    let second = MqttDevice { power: None, volume: Some(7), mute: None, input: None };
    slot.publish_update(first);
    slot.publish_update(second.clone());
    assert!(slot.changed);
    let seen = slot.take_latest();
    assert_eq!(seen, Some(second));
    assert!(!slot.changed);
}

#[test]
fn publisher_cycle_builds_topic_and_payload() {
    let cfg = config();
    let template = chars("devices/+");
    let st = sample_state();
    let mut publisher = PublisherLoop::new();
    let (topic, payload) = publisher
        .poll_step(&template, &cfg, Ok(st.clone()))
        .expect("running publisher with a good fetch publishes");
    assert_eq!(text(&topic), "devices/soundbar");
    assert_eq!(deserialize_state(&payload), Some(st));
}

#[test]
fn fetch_failure_kills_publisher_for_good() {
    let cfg = config();
    let template = chars("devices/+");
    let mut publisher = PublisherLoop::new();
    let r = publisher.poll_step(&template, &cfg, Err(BridgeError::DeviceUnreachable));
    assert!(r.is_none());
    let r2 = publisher.poll_step(&template, &cfg, Ok(sample_state()));
    assert!(r2.is_none(), "a terminated publisher must never publish again");
}

#[test]
fn publish_failure_kills_publisher_for_good() {
    let cfg = config();
    let template = chars("devices/+");
    let mut publisher = PublisherLoop::new();
    assert!(publisher.poll_step(&template, &cfg, Ok(sample_state())).is_some());
    publisher.publish_result(Err(BridgeError::BusPublishError));
    assert!(publisher.poll_step(&template, &cfg, Ok(sample_state())).is_none());
}

#[test]
fn dispatcher_survives_command_failure() {
    let mut dispatcher = DispatcherLoop::new();
    let bad = MqttDevice { power: Some(true), volume: None, mute: None, input: None };
    let cmd = dispatcher.wake(Some(&bad));
    assert_eq!(cmd, Some(MusicCastCmd::Power(true)));
    dispatcher.apply_result(Err(BridgeError::DeviceUnreachable));
    let next = MqttDevice { power: None, volume: Some(12), mute: None, input: None };
    let cmd2 = dispatcher.wake(Some(&next));
    assert_eq!(cmd2, Some(MusicCastCmd::Volume(12)), "a later valid update is still processed");
}

#[test]
fn command_urls_are_exact() {
    let cfg = config();
    let base = "http://192.168.1.50/YamahaExtendedControl/v1/main";
    assert_eq!(text(&status_url(&cfg)), format!("{}/getStatus", base));
    assert_eq!(
        text(&command_url(&cfg, &MusicCastCmd::Power(true)).unwrap()),
        format!("{}/setPower?power=on", base)
    );
    assert_eq!(
        text(&command_url(&cfg, &MusicCastCmd::Power(false)).unwrap()),
        format!("{}/setPower?power=standby", base)
    );
    assert_eq!(
        text(&command_url(&cfg, &MusicCastCmd::Volume(42)).unwrap()),
        format!("{}/setVolume?volume=42", base)
    );
    assert_eq!(
        text(&command_url(&cfg, &MusicCastCmd::Mute(true)).unwrap()),
        format!("{}/setMute?enable=true", base)
    );
    assert_eq!(
        text(&command_url(&cfg, &MusicCastCmd::Input(MusicCastInputString::Bluetooth)).unwrap()),
        format!("{}/setInput?input=bluetooth", base)
    );
    assert_eq!(
        text(&command_url(&cfg, &MusicCastCmd::SubwooferVolume(3)).unwrap()),
        format!("{}/setSubwooferVolume?volume=3", base)
    );
}

#[test]
fn get_status_is_refused_as_command() {
    let cfg = config();
    assert_eq!(
        command_url(&cfg, &MusicCastCmd::GetStatus),
        Err(BridgeError::InvalidCommand)
    );
}

#[test]
fn topic_substitution_replaces_placeholder() {
    assert_eq!(text(&topic_for(&chars("devices/+"), &chars("soundbar"))), "devices/soundbar");
    assert_eq!(text(&topic_for(&chars("a/+/b/+"), &chars("x"))), "a/x/b/x");
    assert_eq!(text(&topic_for(&chars("plain"), &chars("x"))), "plain");
    assert_eq!(text(&topic_for(&chars(""), &chars("x"))), "");
}

#[test]
fn u16_extremes_round_trip() {
    let mut st = sample_state();
    st.volume = 65535;
    st.sleep = 65535;
    st.max_volume = 0;
    let payload = serialize_state(&st);
    assert_eq!(deserialize_state(&payload), Some(st));
}

#[test]
fn non_canonical_status_is_a_protocol_error() {
    assert_eq!(
        parse_status_response(&chars("{\"nonsense\":true}")),
        Err(BridgeError::DeviceProtocolError)
    );
    let st = sample_state();
    assert_eq!(parse_status_response(&serialize_state(&st)), Ok(st));
}

#[test]
fn closed_channel_terminates_dispatcher() {
    let mut dispatcher = DispatcherLoop::new();
    dispatcher.channel_closed();
    let update = MqttDevice { power: Some(true), volume: None, mute: None, input: None };
    assert_eq!(dispatcher.wake(Some(&update)), None);
}
