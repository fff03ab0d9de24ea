//! The two directions of the bridge: MIDI from the surface to OSC for the
//! console, and OSC feedback from the console to motor moves, display text
//! and notifications.
use crate::config::{
    first_control, first_feedback, table, Config, MappingView, MidiEventType,
};
use crate::display::{encode_label, label_frame};
use crate::osc::{flatten, flatten_packet, OscArg, OscMessage, OscPacket};
use crate::pitch_bend::{bend_from_bytes, bend_of, from_pitch_bend, pitch_bend_bytes, to_pitch_bend, PITCH_BEND_MAX};
use crate::text::{
    clean_label, clean_label_spec, contains, contains_str, field,
    is_prefix, parse_u8, parse_u8_spec, split_field, starts_with,
};
use crate::touch::{held, TouchState};
use vstd::prelude::*;
use vstd::string::*;

verus! {

/// A notification for whoever watches the bridge. Fader values are
/// single-precision bit patterns.
#[derive(Debug)]
pub enum BridgeEvent {
    Log(String),
    FaderUpdate(u8, u32),
    LabelUpdate(u8, String),
    MidiCaptured(MidiEventType, u8, [u8; 3]),
    ConnectionHeartbeat,
}

pub enum EventView {
    Log(Seq<char>),
    FaderUpdate(u8, u32),
    LabelUpdate(u8, Seq<char>),
    MidiCaptured(MidiEventType, u8, Seq<u8>),
    ConnectionHeartbeat,
}

impl View for BridgeEvent {
    type V = EventView;

    open spec fn view(&self) -> EventView {
        match self {
            BridgeEvent::Log(s) => EventView::Log(s@),
            BridgeEvent::FaderUpdate(i, v) => EventView::FaderUpdate(*i, *v),
            BridgeEvent::LabelUpdate(i, s) => EventView::LabelUpdate(*i, s@),
            BridgeEvent::MidiCaptured(t, n, b) => EventView::MidiCaptured(*t, *n, b@),
            BridgeEvent::ConnectionHeartbeat => EventView::ConnectionHeartbeat,
        }
    }
}

/// What handling an OSC message asks for: a notification, or bytes for the
/// surface's MIDI input.
#[derive(Debug)]
pub enum Effect {
    Event(BridgeEvent),
    Midi(Vec<u8>),
}

pub enum EffectView {
    Event(EventView),
    Midi(Seq<u8>),
}

impl View for Effect {
    type V = EffectView;

    open spec fn view(&self) -> EffectView {
        match self {
            Effect::Event(e) => EffectView::Event(e@),
            Effect::Midi(b) => EffectView::Midi(b@),
        }
    }
}

pub enum ArgView {
    Float(u32),
    Fraction(u16, u16),
    Str(Seq<char>),
    Other,
}

impl View for OscArg {
    type V = ArgView;

    open spec fn view(&self) -> ArgView {
        match self {
            OscArg::Float(b) => ArgView::Float(*b),
            OscArg::Fraction { num, den } => ArgView::Fraction(*num, *den),
            OscArg::Str(s) => ArgView::Str(s@),
            OscArg::Other => ArgView::Other,
        }
    }
}

pub struct MessageView {
    pub addr: Seq<char>,
    pub args: Seq<ArgView>,
}

impl View for OscMessage {
    type V = MessageView;

    open spec fn view(&self) -> MessageView {
        MessageView { addr: self.addr@, args: self.args@.map_values(|a: OscArg| a@) }
    }
}

pub open spec fn effects_view(es: Seq<Effect>) -> Seq<EffectView> {
    es.map_values(|e: Effect| e@)
}

/// Status nibbles of the MIDI channel messages the bridge reads.
pub const NOTE_OFF: u8 = 0x80;
pub const NOTE_ON: u8 = 0x90;
pub const CONTROL_CHANGE: u8 = 0xB0;
pub const PITCH_BEND: u8 = 0xE0;

/// The mapping-table event of a MIDI message: pitch bend by its 1-based
/// channel, note on and note off by note number (as `NoteOn`), control
/// change by controller number. Short messages and other statuses have none.
pub open spec fn midi_event(msg: Seq<u8>) -> Option<(MidiEventType, u8)> {
    if msg.len() < 3 {
        None
    } else {
        let kind = msg[0] / 16;
        if kind == 0xE {
            Some((MidiEventType::PitchBend, (msg[0] % 16 + 1) as u8))
        } else if kind == 0x9 || kind == 0x8 {
            Some((MidiEventType::NoteOn, msg[1]))
        } else if kind == 0xB {
            Some((MidiEventType::ControlChange, msg[1]))
        } else {
            None
        }
    }
}

/// Arguments of the OSC message that a MIDI message sends through mapping
/// `m`: the pitch-bend position over 16383, the controller value over 127,
/// or the mapping's fixed value for a note (nothing if it has none).
pub open spec fn control_args(event_type: MidiEventType, msg: Seq<u8>, m: MappingView) -> Seq<ArgView> {
    match event_type {
        MidiEventType::PitchBend => seq![ArgView::Fraction(bend_from_bytes(msg[1], msg[2]) as u16, PITCH_BEND_MAX)],
        MidiEventType::ControlChange => seq![ArgView::Fraction(msg[2] as u16, 127)],
        MidiEventType::NoteOn => match m.fixed_osc_value {
            Some(b) => seq![ArgView::Float(b)],
            None => seq![],
        },
    }
}

/// The touch slots after a MIDI message: note on and note off messages of
/// at least three bytes report the touch sensors.
pub open spec fn touch_after(touched: Seq<bool>, msg: Seq<u8>) -> Seq<bool> {
    if msg.len() >= 3 && (msg[0] / 16 == 0x9 || msg[0] / 16 == 0x8) {
        match crate::touch::touch_slot_of(msg[1]) {
            Some(i) => touched.update(i, msg[0] / 16 == 0x9 && msg[2] > 0),
            None => touched,
        }
    } else {
        touched
    }
}

/// What one MIDI message from the surface produces.
#[derive(Debug)]
pub struct MidiTranslation {
    /// The message as seen, for monitoring; present for every message the
    /// bridge reads, mapped or not.
    pub captured: Option<BridgeEvent>,
    /// The OSC message for the console, when a mapping answers.
    pub osc: Option<OscMessage>,
}

/// Translates one MIDI message from the surface: records touch sensors,
/// reports the message, and builds the OSC message of the first mapping
/// for its event.
pub fn translate_midi(cfg: &Config, touch: &mut TouchState, msg: &[u8]) -> (r: MidiTranslation)
    ensures
        final(touch)@ == touch_after(old(touch)@, msg@),
        match midi_event(msg@) {
            None => r.captured is None && r.osc is None,
            Some((et, dn)) => {
                &&& r.captured matches Some(e) && e@ == EventView::MidiCaptured(et, dn, msg@.subrange(0, 3))
                &&& match first_control(table(cfg.mappings@), et, dn) {
                    None => r.osc is None,
                    Some(i) => r.osc matches Some(o) && o@ == MessageView {
                        addr: cfg.mappings@[i].osc_address@,
                        args: control_args(et, msg@, table(cfg.mappings@)[i]),
                    },
                }
            },
        },
{
    if msg.len() < 3 {
        return MidiTranslation { captured: None, osc: None };
    }
    let b0 = msg[0];
    let status = b0 & 0xF0;
    assert(status == b0 / 16 * 16 && (b0 & 0xF0 == 0x90 <==> b0 / 16 == 0x9)) by (bit_vector)
        requires status == b0 & 0xF0;
    assert(b0 & 0x0F == b0 % 16) by (bit_vector);
    if status == NOTE_ON || status == NOTE_OFF {
        touch.apply_note(b0, msg[1], msg[2]);
    }
    let (et, dn) = if status == PITCH_BEND {
        (MidiEventType::PitchBend, (b0 & 0x0F) + 1)
    } else if status == NOTE_ON || status == NOTE_OFF {
        (MidiEventType::NoteOn, msg[1])
    } else if status == CONTROL_CHANGE {
        (MidiEventType::ControlChange, msg[1])
    } else {
        return MidiTranslation { captured: None, osc: None };
    };
    let raw = [msg[0], msg[1], msg[2]];
    assert(raw@ =~= msg@.subrange(0, 3));
    let captured = Some(BridgeEvent::MidiCaptured(et, dn, raw));
    let osc = match cfg.resolve_control(et, dn) {
        None => None,
        Some(i) => {
            let m = &cfg.mappings[i];
            let mut args: Vec<OscArg> = Vec::new();
            match et {
                MidiEventType::PitchBend => {
                    let pb = from_pitch_bend(msg[1], msg[2]);
                    args.push(OscArg::Fraction { num: pb, den: PITCH_BEND_MAX });
                },
                MidiEventType::ControlChange => {
                    args.push(OscArg::Fraction { num: msg[2] as u16, den: 127 });
                },
                MidiEventType::NoteOn => {
                    match m.fixed_osc_value {
                        Some(b) => args.push(OscArg::Float(b)),
                        None => {},
                    }
                },
            }
            let addr = m.osc_address.clone();
            let o = OscMessage { addr, args };
            assert(o@.args =~= control_args(et, msg@, table(cfg.mappings@)[i as int]));
            Some(o)
        },
    };
    MidiTranslation { captured, osc }
}

/// Addresses under which the console reports that it is alive.
pub open spec fn is_liveness(addr: Seq<char>) -> bool {
    is_prefix("/eos/out"@, addr)
}

/// Addresses that carry a channel name.
pub open spec fn is_name_address(addr: Seq<char>) -> bool {
    contains(addr, "/name"@)
}

/// A name update: the channel number in field 4 of the address and a
/// string first argument. It shows the cleaned name and writes the label's
/// Sysex frame.
pub open spec fn label_effects(addr: Seq<char>, args: Seq<ArgView>) -> Seq<EffectView> {
    match field(addr, 4) {
        Some(f) => match parse_u8_spec(f) {
            Some(idx) => if args.len() > 0 && args[0] is Str {
                let name = args[0]->Str_0;
                seq![
                    EffectView::Event(EventView::LabelUpdate(idx, clean_label_spec(name))),
                    EffectView::Midi(label_frame(idx, name)),
                ]
            } else {
                seq![]
            },
            None => seq![],
        },
        None => seq![],
    }
}

/// The pitch-bend message that drives fader `idx`'s motor to position `bits`.
pub open spec fn motor_message(idx: u8, bits: u32) -> Seq<u8> {
    seq![(0xE0 + idx - 1) as u8, (bend_of(bits) % 128) as u8, (bend_of(bits) / 128) as u8]
}

/// A mapping whose feedback can move a motor: its number names one of the
/// sixteen MIDI channels, so the motor message is a pitch bend on channel
/// `data_number - 1`.
pub open spec fn is_motor_mapping(m: MappingView) -> bool {
    1 <= m.data_number <= 16
}

/// Fader feedback: the first mapping whose address prefixes `addr` is a
/// motor fader and the first argument is a float. Unless a hand holds that
/// fader, the motor moves and the position is reported; a held fader drops
/// the value altogether.
pub open spec fn fader_effects(t: Seq<MappingView>, touched: Seq<bool>, addr: Seq<char>, args: Seq<ArgView>) -> Seq<EffectView> {
    match first_feedback(t, addr) {
        Some(i) => if is_motor_mapping(t[i]) && args.len() > 0 && args[0] is Float {
            let idx = t[i].data_number;
            let bits = args[0]->Float_0;
            if held(touched, idx as int) {
                seq![]
            } else {
                seq![
                    EffectView::Midi(motor_message(idx, bits)),
                    EffectView::Event(EventView::FaderUpdate(idx, bits)),
                ]
            }
        } else {
            seq![]
        },
        None => seq![],
    }
}

/// Everything one OSC message from the console causes, in order: a
/// heartbeat for a liveness address, then either the name update (for a
/// name address) or the fader feedback.
pub open spec fn message_effects(t: Seq<MappingView>, touched: Seq<bool>, m: MessageView) -> Seq<EffectView> {
    let beat = if is_liveness(m.addr) {
        seq![EffectView::Event(EventView::ConnectionHeartbeat)]
    } else {
        seq![]
    };
    if is_name_address(m.addr) {
        beat + label_effects(m.addr, m.args)
    } else {
        beat + fader_effects(t, touched, m.addr, m.args)
    }
}

fn label_update(addr: &str, args: &Vec<OscArg>) -> (r: Vec<Effect>)
    ensures
        effects_view(r@) == label_effects(addr@, args@.map_values(|a: OscArg| a@)),
{
    let ghost av = args@.map_values(|a: OscArg| a@);
    let mut out: Vec<Effect> = Vec::new();
    match split_field(addr, 4) {
        Some(f) => match parse_u8(f.as_str()) {
            Some(idx) => {
                if args.len() > 0 {
                    match &args[0] {
                        OscArg::Str(name) => {
                            out.push(Effect::Event(BridgeEvent::LabelUpdate(idx, clean_label(name.as_str()))));
                            out.push(Effect::Midi(encode_label(idx, name.as_str())));
                        },
                        _ => {},
                    }
                }
            },
            None => {},
        },
        None => {},
    }
    assert(effects_view(out@) =~= label_effects(addr@, av));
    out
}

fn fader_update(cfg: &Config, touch: &TouchState, addr: &str, args: &Vec<OscArg>) -> (r: Vec<Effect>)
    ensures
        effects_view(r@) == fader_effects(table(cfg.mappings@), touch@, addr@, args@.map_values(|a: OscArg| a@)),
{
    let ghost av = args@.map_values(|a: OscArg| a@);
    let ghost t = table(cfg.mappings@);
    let mut out: Vec<Effect> = Vec::new();
    match cfg.resolve_feedback(addr) {
        Some(i) => {
            let m = &cfg.mappings[i];
            let idx = m.data_number;
            if 1 <= idx && idx <= 16 && args.len() > 0 {
                match &args[0] {
                    OscArg::Float(bits) => {
                        if !touch.is_touched(idx as usize) {
                            let pb = to_pitch_bend(*bits);
                            let (lsb, msb) = pitch_bend_bytes(pb);
                            out.push(Effect::Midi(vec![0xE0 + idx - 1, lsb, msb]));
                            out.push(Effect::Event(BridgeEvent::FaderUpdate(idx, *bits)));
                            assert(effects_view(out@)[0] == EffectView::Midi(motor_message(idx, *bits)));
                        }
                    },
                    _ => {},
                }
            }
        },
        None => {},
    }
    assert(effects_view(out@) =~= fader_effects(t, touch@, addr@, av));
    out
}

/// Handles one OSC message from the console and returns what it causes, in
/// order (see `message_effects`). The touch slots are only read.
pub fn dispatch_message(cfg: &Config, touch: &TouchState, msg: &OscMessage) -> (r: Vec<Effect>)
    ensures
        effects_view(r@) == message_effects(table(cfg.mappings@), touch@, msg@),
{
    let addr = msg.addr.as_str();
    let mut out: Vec<Effect> = Vec::new();
    proof {
        reveal_strlit("/eos/out");
        reveal_strlit("/name");
    }
    if starts_with(addr, "/eos/out") {
        out.push(Effect::Event(BridgeEvent::ConnectionHeartbeat));
    }
    let ghost beat = effects_view(out@);
    let mut rest = if contains_str(addr, "/name") {
        label_update(addr, &msg.args)
    } else {
        fader_update(cfg, touch, addr, &msg.args)
    };
    let ghost tail = effects_view(rest@);
    out.append(&mut rest);
    assert(effects_view(out@) =~= beat + tail);
    out
}

/// What a sequence of messages causes: each message's effects, in order.
pub open spec fn messages_effects(t: Seq<MappingView>, touched: Seq<bool>, ms: Seq<OscMessage>) -> Seq<EffectView>
    decreases ms.len(),
{
    if ms.len() == 0 {
        seq![]
    } else {
        messages_effects(t, touched, ms.drop_last()) + message_effects(t, touched, ms.last()@)
    }
}

/// What a received packet causes: the effects of its messages, bundles
/// opened depth first in encoded order.
pub open spec fn packet_effects(t: Seq<MappingView>, touched: Seq<bool>, p: OscPacket) -> Seq<EffectView> {
    messages_effects(t, touched, flatten(p))
}

/// Handles a received packet: every message of it, bundles opened depth
/// first in encoded order. The touch slots are only read.
pub fn process_packet(cfg: &Config, touch: &TouchState, packet: OscPacket) -> (r: Vec<Effect>)
    ensures
        effects_view(r@) == packet_effects(table(cfg.mappings@), touch@, packet),
{
    let ghost t = table(cfg.mappings@);
    let msgs = flatten_packet(packet);
    let mut out: Vec<Effect> = Vec::new();
    let mut i: usize = 0;
    while i < msgs.len()
        invariant
            t == table(cfg.mappings@),
            i <= msgs@.len(),
            effects_view(out@) == messages_effects(t, touch@, msgs@.subrange(0, i as int)),
        decreases msgs.len() - i,
    {
        let ghost before = effects_view(out@);
        let mut more = dispatch_message(cfg, touch, &msgs[i]);
        let ghost added = effects_view(more@);
        out.append(&mut more);
        assert(msgs@.subrange(0, i + 1).drop_last() =~= msgs@.subrange(0, i as int));
        assert(effects_view(out@) =~= before + added);
        i += 1;
    }
    assert(msgs@.subrange(0, msgs@.len() as int) =~= msgs@);
    out
}

/// Handles one datagram from the console: any datagram at all shows that the
/// console is alive, then the packet's effects follow when it decoded.
pub fn receive_datagram(cfg: &Config, touch: &TouchState, decoded: Option<OscPacket>) -> (r: Vec<Effect>)
    ensures
        effects_view(r@) == seq![EffectView::Event(EventView::ConnectionHeartbeat)] + match decoded {
            Some(p) => packet_effects(table(cfg.mappings@), touch@, p),
            None => seq![],
        },
{
    let mut out: Vec<Effect> = Vec::new();
    out.push(Effect::Event(BridgeEvent::ConnectionHeartbeat));
    let ghost first = effects_view(out@);
    match decoded {
        Some(p) => {
            let mut more = process_packet(cfg, touch, p);
            let ghost added = effects_view(more@);
            out.append(&mut more);
            assert(effects_view(out@) =~= first + added);
        },
        None => {
            assert(effects_view(out@) =~= first + seq![]);
        },
    }
    out
}

/// Messages are handled independently: the effects of two runs of messages
/// are those of the first run followed by those of the second.
pub proof fn lemma_messages_effects_append(t: Seq<MappingView>, touched: Seq<bool>, xs: Seq<OscMessage>, ys: Seq<OscMessage>)
    ensures
        messages_effects(t, touched, xs + ys) == messages_effects(t, touched, xs) + messages_effects(t, touched, ys),
    decreases ys.len(),
{
    if ys.len() == 0 {
        assert(xs + ys =~= xs);
        assert(messages_effects(t, touched, xs) + messages_effects(t, touched, ys) =~= messages_effects(t, touched, xs));
    } else {
        let zs = xs + ys;
        assert(zs.drop_last() =~= xs + ys.drop_last());
        assert(zs.last() == ys.last());
        lemma_messages_effects_append(t, touched, xs, ys.drop_last());
        assert(messages_effects(t, touched, zs) =~= messages_effects(t, touched, xs) + messages_effects(t, touched, ys));
    }
}

/// Bundle nesting does not matter: a bundle that holds a nested bundle has
/// the same effects, in the same order, as the bundle with the nested one's
/// packets written in its place (`[a, [b, c]]` acts as `[a, b, c]`).
pub proof fn lemma_nested_bundle_effects(
    t: Seq<MappingView>,
    touched: Seq<bool>,
    pre: Seq<OscPacket>,
    inner: Vec<OscPacket>,
    post: Seq<OscPacket>,
    nested: Vec<OscPacket>,
    flat: Vec<OscPacket>,
)
    requires
        nested@ == pre + seq![OscPacket::Bundle(inner)] + post,
        flat@ == pre + inner@ + post,
    ensures
        packet_effects(t, touched, OscPacket::Bundle(nested)) == packet_effects(t, touched, OscPacket::Bundle(flat)),
{
    crate::osc::lemma_bundle_splice(pre, inner, post);
}

/// The motor interlock: while a hand holds a fader, feedback for it neither
/// moves the motor nor reports a position. At most the liveness heartbeat
/// comes out, and nothing is kept for later.
pub proof fn lemma_held_fader_is_left_alone(t: Seq<MappingView>, touched: Seq<bool>, m: MessageView)
    requires
        !is_name_address(m.addr),
        first_feedback(t, m.addr) matches Some(i) && held(touched, t[i].data_number as int),
    ensures
        forall|k: int| 0 <= k < message_effects(t, touched, m).len()
            ==> #[trigger] message_effects(t, touched, m)[k] == EffectView::Event(EventView::ConnectionHeartbeat),
{
    assert(fader_effects(t, touched, m.addr, m.args) == Seq::<EffectView>::empty());
}

/// Seconds between two pings to the console.
pub const PING_PERIOD_SECS: u64 = 5;

/// The message that asks the console for its full fader configuration
/// (bank 1, ten faders), sent once when a session starts.
pub fn sync_request() -> (r: OscMessage)
    ensures
        r@ == (MessageView { addr: "/eos/fader/1/config/10"@, args: seq![] }),
{
    let r = OscMessage { addr: "/eos/fader/1/config/10".to_owned(), args: Vec::new() };
    assert(r@.args =~= Seq::<ArgView>::empty());
    r
}

/// The ping sent to the console every `PING_PERIOD_SECS` seconds.
pub fn ping_message() -> (r: OscMessage)
    ensures
        r@ == (MessageView { addr: "/eos/ping"@, args: seq![ArgView::Str("BridgeSync"@)] }),
{
    let mut args: Vec<OscArg> = Vec::new();
    args.push(OscArg::Str("BridgeSync".to_owned()));
    let r = OscMessage { addr: "/eos/ping".to_owned(), args };
    assert(r@.args =~= seq![ArgView::Str("BridgeSync"@)]);
    r
}

/// The heartbeat task's message at each tick: tick 0 (session start) asks
/// for the fader configuration, every later tick is a ping.
pub fn heartbeat_message(tick: u64) -> (r: OscMessage)
    ensures
        tick == 0 ==> r@ == (MessageView { addr: "/eos/fader/1/config/10"@, args: seq![] }),
        tick > 0 ==> r@ == (MessageView { addr: "/eos/ping"@, args: seq![ArgView::Str("BridgeSync"@)] }),
{
    if tick == 0 {
        sync_request()
    } else {
        ping_message()
    }
}

} // verus!
