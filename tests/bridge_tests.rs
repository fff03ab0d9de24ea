use eos_midi_bridge::bridge::{
    dispatch_message, heartbeat_message, ping_message, process_packet, receive_datagram,
    sync_request, translate_midi, BridgeEvent, Effect,
};
use eos_midi_bridge::config::{Config, MidiEventType, MidiOscMapping, ONE_BITS};
use eos_midi_bridge::osc::{flatten_packet, OscArg, OscMessage, OscPacket};
use eos_midi_bridge::touch::{touch_slot, TouchState};

fn mapping(event_type: MidiEventType, data_number: u8, addr: &str, fixed: Option<f32>) -> MidiOscMapping {
    MidiOscMapping {
        event_type,
        data_number,
        osc_address: addr.to_string(),
        fixed_osc_value: fixed.map(|v| v.to_bits()),
    }
}

fn config_with(mappings: Vec<MidiOscMapping>) -> Config {
    let mut cfg = Config::default();
    cfg.mappings = mappings;
    cfg
}

fn message(addr: &str, args: Vec<OscArg>) -> OscMessage {
    OscMessage { addr: addr.to_string(), args }
}

fn float_arg(v: f32) -> OscArg {
    OscArg::Float(v.to_bits())
}

fn fraction_value(arg: &OscArg) -> f32 {
    match arg {
        OscArg::Fraction { num, den } => *num as f32 / *den as f32,
        OscArg::Float(b) => f32::from_bits(*b),
        _ => panic!("not a number: {:?}", arg),
    }
}

fn addresses(msgs: &[OscMessage]) -> Vec<String> {
    msgs.iter().map(|m| m.addr.clone()).collect()
}

#[test]
fn default_config_values() {
    let cfg = Config::default();
    assert_eq!(cfg.eos_ip, "127.0.0.1");
    assert_eq!(cfg.eos_port, 8000);
    assert_eq!(cfg.listen_port, 8001);
    assert_eq!(cfg.fader_bank_size, 10);
    assert_eq!(cfg.mappings.len(), 12);
    let go = &cfg.mappings[11];
    assert_eq!(go.event_type, MidiEventType::NoteOn);
    assert_eq!(go.data_number, 94);
    assert_eq!(go.osc_address, "/eos/key/go");
    assert_eq!(go.fixed_osc_value, Some(1.0f32.to_bits()));
    assert_eq!(ONE_BITS, 1.0f32.to_bits());
    assert_eq!(cfg.mappings[0].osc_address, "/eos/fader/1/1");
}

#[test]
fn resolve_control_first_match_wins() {
    let cfg = config_with(vec![
        mapping(MidiEventType::NoteOn, 3, "/other", None),
        mapping(MidiEventType::PitchBend, 3, "/first", None),
        mapping(MidiEventType::PitchBend, 3, "/second", None),
    ]);
    assert_eq!(cfg.resolve_control(MidiEventType::PitchBend, 3), Some(1));
    assert_eq!(cfg.resolve_control(MidiEventType::NoteOn, 3), Some(0));
    assert_eq!(cfg.resolve_control(MidiEventType::ControlChange, 3), None);
    assert_eq!(cfg.resolve_control(MidiEventType::PitchBend, 4), None);
}

#[test]
fn resolve_feedback_by_prefix() {
    let cfg = config_with(vec![
        mapping(MidiEventType::PitchBend, 1, "/eos/fader/1/1", None),
        mapping(MidiEventType::PitchBend, 2, "/eos/fader/1/1/extra", None),
    ]);
    assert_eq!(cfg.resolve_feedback("/eos/fader/1/1/extra"), Some(0));
    assert_eq!(cfg.resolve_feedback("/eos/fader/1/1"), Some(0));
    assert_eq!(cfg.resolve_feedback("/eos/fader/1"), None);
    assert_eq!(cfg.resolve_feedback(""), None);
}

#[test]
fn translate_pitch_bend_full_scale() {
    let cfg = config_with(vec![mapping(MidiEventType::PitchBend, 1, "/eos/fader/1/1", None)]);
    let mut touch = TouchState::new();
    let t = translate_midi(&cfg, &mut touch, &[0xE0, 0x7F, 0x7F]);
    match t.captured {
        Some(BridgeEvent::MidiCaptured(et, dn, raw)) => {
            assert_eq!(et, MidiEventType::PitchBend);
            assert_eq!(dn, 1);
            assert_eq!(raw, [0xE0, 0x7F, 0x7F]);
        }
        other => panic!("unexpected capture {:?}", other),
    }
    let osc = t.osc.expect("mapped");
    assert_eq!(osc.addr, "/eos/fader/1/1");
    assert_eq!(osc.args.len(), 1);
    assert!(matches!(osc.args[0], OscArg::Fraction { num: 16383, den: 16383 }));
    let v = fraction_value(&osc.args[0]);
    assert_eq!(v, 1.0);
}

#[test]
fn translate_note_on_trigger() {
    let cfg = config_with(vec![mapping(MidiEventType::NoteOn, 46, "/eos/fader/1/page/-1", Some(1.0))]);
    let mut touch = TouchState::new();
    let t = translate_midi(&cfg, &mut touch, &[0x90, 46, 127]);
    let osc = t.osc.expect("mapped");
    assert_eq!(osc.addr, "/eos/fader/1/page/-1");
    assert_eq!(osc.args.len(), 1);
    assert_eq!(fraction_value(&osc.args[0]), 1.0);
}

#[test]
fn translate_note_without_fixed_value_sends_no_argument() {
    let cfg = config_with(vec![mapping(MidiEventType::NoteOn, 10, "/eos/key/stop", None)]);
    let mut touch = TouchState::new();
    let t = translate_midi(&cfg, &mut touch, &[0x91, 10, 100]);
    let osc = t.osc.expect("mapped");
    assert_eq!(osc.addr, "/eos/key/stop");
    assert!(osc.args.is_empty());
}

#[test]
fn translate_control_change_scales_by_127() {
    let cfg = config_with(vec![mapping(MidiEventType::ControlChange, 7, "/eos/wheel", None)]);
    let mut touch = TouchState::new();
    let t = translate_midi(&cfg, &mut touch, &[0xB0, 7, 127]);
    let osc = t.osc.expect("mapped");
    assert!(matches!(osc.args[0], OscArg::Fraction { num: 127, den: 127 }));
    let t = translate_midi(&cfg, &mut touch, &[0xB3, 7, 0]);
    assert!(matches!(t.osc.expect("mapped").args[0], OscArg::Fraction { num: 0, den: 127 }));
}

#[test]
fn translate_unmapped_is_still_captured() {
    let cfg = config_with(vec![]);
    let mut touch = TouchState::new();
    let t = translate_midi(&cfg, &mut touch, &[0xE5, 0x00, 0x40]);
    assert!(matches!(t.captured, Some(BridgeEvent::MidiCaptured(MidiEventType::PitchBend, 6, _))));
    assert!(t.osc.is_none());
}

#[test]
fn translate_ignores_short_and_other_messages() {
    let cfg = Config::default();
    let mut touch = TouchState::new();
    let t = translate_midi(&cfg, &mut touch, &[0x90, 104]);
    assert!(t.captured.is_none() && t.osc.is_none());
    assert!(!touch.is_touched(1));
    let t = translate_midi(&cfg, &mut touch, &[0xC0, 1, 2]);
    assert!(t.captured.is_none() && t.osc.is_none());
    let t = translate_midi(&cfg, &mut touch, &[0xF0, 1, 2]);
    assert!(t.captured.is_none() && t.osc.is_none());
}

#[test]
fn touch_slot_mapping() {
    let cfg = config_with(vec![]);
    let mut touch = TouchState::new();
    translate_midi(&cfg, &mut touch, &[0x90, 104, 127]);
    assert!(touch.is_touched(1));
    translate_midi(&cfg, &mut touch, &[0x90, 111, 127]);
    assert!(touch.is_touched(8));
    translate_midi(&cfg, &mut touch, &[0x90, 112, 127]);
    assert!(touch.is_touched(9));
    translate_midi(&cfg, &mut touch, &[0x90, 103, 127]);
    translate_midi(&cfg, &mut touch, &[0x90, 113, 127]);
    for i in 0..20usize {
        assert_eq!(touch.is_touched(i), i == 1 || i == 8 || i == 9, "slot {}", i);
    }
    translate_midi(&cfg, &mut touch, &[0x80, 104, 64]);
    assert!(!touch.is_touched(1));
    translate_midi(&cfg, &mut touch, &[0x90, 111, 0]);
    assert!(!touch.is_touched(8));
}

#[test]
fn touch_slot_function() {
    assert_eq!(touch_slot(104), Some(1));
    assert_eq!(touch_slot(111), Some(8));
    assert_eq!(touch_slot(112), Some(9));
    assert_eq!(touch_slot(103), None);
    assert_eq!(touch_slot(113), None);
}

#[test]
fn note_off_is_a_note_event() {
    let cfg = config_with(vec![mapping(MidiEventType::NoteOn, 46, "/eos/fader/1/page/-1", Some(1.0))]);
    let mut touch = TouchState::new();
    let t = translate_midi(&cfg, &mut touch, &[0x80, 46, 0]);
    assert!(matches!(t.captured, Some(BridgeEvent::MidiCaptured(MidiEventType::NoteOn, 46, [0x80, 46, 0]))));
    assert!(t.osc.is_some());
}

fn fader_config() -> Config {
    config_with(vec![
        mapping(MidiEventType::PitchBend, 1, "/eos/fader/1/1", None),
        mapping(MidiEventType::PitchBend, 3, "/eos/fader/1/3", None),
    ])
}

#[test]
fn feedback_moves_untouched_motor() {
    let cfg = fader_config();
    let touch = TouchState::new();
    let effects = dispatch_message(&cfg, &touch, &message("/eos/fader/1/3", vec![float_arg(0.5)]));
    assert_eq!(effects.len(), 2);
    match &effects[0] {
        Effect::Midi(bytes) => assert_eq!(bytes, &vec![0xE2, 0x00, 0x40]),
        other => panic!("unexpected {:?}", other),
    }
    match &effects[1] {
        Effect::Event(BridgeEvent::FaderUpdate(3, v)) => assert_eq!(f32::from_bits(*v), 0.5),
        other => panic!("unexpected {:?}", other),
    }
}

#[test]
fn feedback_for_held_fader_is_dropped() {
    let cfg = fader_config();
    let mut touch = TouchState::new();
    translate_midi(&cfg, &mut touch, &[0x90, 104, 127]);
    let effects = dispatch_message(&cfg, &touch, &message("/eos/fader/1/1", vec![float_arg(0.25)]));
    assert!(effects.is_empty());
    translate_midi(&cfg, &mut touch, &[0x90, 104, 0]);
    let effects = dispatch_message(&cfg, &touch, &message("/eos/fader/1/1", vec![float_arg(0.25)]));
    assert_eq!(effects.len(), 2);
}

#[test]
fn feedback_without_float_is_ignored() {
    let cfg = fader_config();
    let touch = TouchState::new();
    let effects = dispatch_message(&cfg, &touch, &message("/eos/fader/1/1", vec![OscArg::Str("x".to_string())]));
    assert!(effects.is_empty());
    let effects = dispatch_message(&cfg, &touch, &message("/eos/fader/1/1", vec![]));
    assert!(effects.is_empty());
    let effects = dispatch_message(&cfg, &touch, &message("/unknown", vec![float_arg(0.5)]));
    assert!(effects.is_empty());
}

#[test]
fn feedback_clamps_position() {
    let cfg = fader_config();
    let touch = TouchState::new();
    let effects = dispatch_message(&cfg, &touch, &message("/eos/fader/1/1", vec![float_arg(1.5)]));
    assert!(matches!(&effects[0], Effect::Midi(b) if b == &vec![0xE0, 0x7F, 0x7F]));
    let effects = dispatch_message(&cfg, &touch, &message("/eos/fader/1/1", vec![float_arg(-0.3)]));
    assert!(matches!(&effects[0], Effect::Midi(b) if b == &vec![0xE0, 0x00, 0x00]));
}

#[test]
fn name_feedback_updates_label() {
    let cfg = fader_config();
    let touch = TouchState::new();
    let effects = dispatch_message(
        &cfg,
        &touch,
        &message("/eos/out/fader/3/name", vec![OscArg::Str("Fader 3: Vox".to_string())]),
    );
    assert_eq!(effects.len(), 3);
    assert!(matches!(effects[0], Effect::Event(BridgeEvent::ConnectionHeartbeat)));
    match &effects[1] {
        Effect::Event(BridgeEvent::LabelUpdate(3, name)) => assert_eq!(name, "Vox"),
        other => panic!("unexpected {:?}", other),
    }
    let mut expected = vec![0xF0, 0x00, 0x00, 0x66, 0x14, 0x12, 14];
    expected.extend_from_slice(b"  Vox  ");
    expected.push(0xF7);
    match &effects[2] {
        Effect::Midi(bytes) => assert_eq!(bytes, &expected),
        other => panic!("unexpected {:?}", other),
    }
}

#[test]
fn name_with_bad_index_is_ignored() {
    let cfg = fader_config();
    let touch = TouchState::new();
    let effects = dispatch_message(&cfg, &touch, &message("/eos/fader/x/name", vec![OscArg::Str("A".to_string())]));
    assert!(effects.is_empty());
    let effects = dispatch_message(&cfg, &touch, &message("/eos/fader/1/300/name", vec![OscArg::Str("A".to_string())]));
    assert!(effects.is_empty());
}

#[test]
fn liveness_address_gives_heartbeat() {
    let cfg = fader_config();
    let touch = TouchState::new();
    let effects = dispatch_message(&cfg, &touch, &message("/eos/out/ping", vec![]));
    assert_eq!(effects.len(), 1);
    assert!(matches!(effects[0], Effect::Event(BridgeEvent::ConnectionHeartbeat)));
}

fn tagged(addr: &str) -> OscPacket {
    OscPacket::Message(message(addr, vec![]))
}

#[test]
fn nested_bundle_flattens_in_order() {
    let nested = OscPacket::Bundle(vec![tagged("/a"), OscPacket::Bundle(vec![tagged("/b"), tagged("/c")])]);
    let flat = OscPacket::Bundle(vec![tagged("/a"), tagged("/b"), tagged("/c")]);
    assert_eq!(addresses(&flatten_packet(nested)), vec!["/a", "/b", "/c"]);
    assert_eq!(addresses(&flatten_packet(flat)), vec!["/a", "/b", "/c"]);
    let deep = OscPacket::Bundle(vec![OscPacket::Bundle(vec![OscPacket::Bundle(vec![tagged("/x")])]), tagged("/y")]);
    assert_eq!(addresses(&flatten_packet(deep)), vec!["/x", "/y"]);
    assert!(flatten_packet(OscPacket::Bundle(vec![])).is_empty());
}

#[test]
fn nested_bundle_effects_match_flat() {
    let cfg = fader_config();
    let touch = TouchState::new();
    let a = || OscPacket::Message(message("/eos/fader/1/1", vec![float_arg(0.5)]));
    let b = || OscPacket::Message(message("/eos/out/ping", vec![]));
    let c = || OscPacket::Message(message("/eos/fader/1/3", vec![float_arg(1.0)]));
    let nested = process_packet(&cfg, &touch, OscPacket::Bundle(vec![a(), OscPacket::Bundle(vec![b(), c()])]));
    let flat = process_packet(&cfg, &touch, OscPacket::Bundle(vec![a(), b(), c()]));
    assert_eq!(format!("{:?}", nested), format!("{:?}", flat));
    assert_eq!(nested.len(), 5);
}

#[test]
fn datagram_always_signals_liveness() {
    let cfg = fader_config();
    let touch = TouchState::new();
    let effects = receive_datagram(&cfg, &touch, None);
    assert_eq!(effects.len(), 1);
    assert!(matches!(effects[0], Effect::Event(BridgeEvent::ConnectionHeartbeat)));
    let effects = receive_datagram(&cfg, &touch, Some(OscPacket::Message(message("/eos/fader/1/1", vec![float_arg(0.0)]))));
    assert_eq!(effects.len(), 3);
}

#[test]
fn heartbeat_messages() {
    let first = heartbeat_message(0);
    assert_eq!(first.addr, "/eos/fader/1/config/10");
    assert!(first.args.is_empty());
    let ping = heartbeat_message(3);
    assert_eq!(ping.addr, "/eos/ping");
    assert_eq!(ping.args.len(), 1);
    assert!(matches!(&ping.args[0], OscArg::Str(s) if s == "BridgeSync"));
    assert_eq!(ping_message().addr, "/eos/ping");
    assert_eq!(sync_request().addr, "/eos/fader/1/config/10");
}

#[test]
fn feedback_moves_motor_for_any_mapping_type() {
    let cfg = config_with(vec![mapping(MidiEventType::ControlChange, 3, "/x", None)]);
    let touch = TouchState::new();
    let effects = dispatch_message(&cfg, &touch, &message("/x", vec![float_arg(0.5)]));
    assert_eq!(effects.len(), 2);
    assert!(matches!(&effects[0], Effect::Midi(b) if b == &vec![0xE2, 0x00, 0x40]));
    assert!(matches!(effects[1], Effect::Event(BridgeEvent::FaderUpdate(3, _))));
    let effects = dispatch_message(&cfg, &touch, &message("/x", vec![float_arg(-1.0)]));
    assert!(matches!(&effects[0], Effect::Midi(b) if b == &vec![0xE2, 0x00, 0x00]));
    let effects = dispatch_message(&cfg, &touch, &message("/x", vec![float_arg(2.0)]));
    assert!(matches!(&effects[0], Effect::Midi(b) if b == &vec![0xE2, 0x7F, 0x7F]));
}

#[test]
fn feedback_for_mapping_outside_channels_is_ignored() {
    let cfg = config_with(vec![mapping(MidiEventType::NoteOn, 94, "/eos/key/go", Some(1.0))]);
    let touch = TouchState::new();
    let effects = dispatch_message(&cfg, &touch, &message("/eos/key/go", vec![float_arg(1.0)]));
    assert!(effects.is_empty());
}
