//! The mapping table and session configuration, and the two lookups that the
//! translator makes in it.
use crate::text::{is_prefix, starts_with};
use vstd::prelude::*;

verus! {

/// The MIDI message families that a mapping can name.
#[derive(Clone, Copy, Debug, PartialEq, Eq, Structural)]
pub enum MidiEventType {
    PitchBend,
    NoteOn,
    ControlChange,
}

/// One rule of the mapping table: a MIDI event (family and number) and the
/// OSC address it stands for.
///
/// `data_number` is the 1-based channel for pitch bend and the note or
/// controller number otherwise. `fixed_osc_value` is the bit pattern of the
/// single-precision value sent for a trigger-style note.
#[derive(Debug)]
pub struct MidiOscMapping {
    pub event_type: MidiEventType,
    pub data_number: u8,
    pub osc_address: String,
    pub fixed_osc_value: Option<u32>,
}

/// A mapping as mathematical values.
pub struct MappingView {
    pub event_type: MidiEventType,
    pub data_number: u8,
    pub osc_address: Seq<char>,
    pub fixed_osc_value: Option<u32>,
}

impl View for MidiOscMapping {
    type V = MappingView;

    open spec fn view(&self) -> MappingView {
        MappingView {
            event_type: self.event_type,
            data_number: self.data_number,
            osc_address: self.osc_address@,
            fixed_osc_value: self.fixed_osc_value,
        }
    }
}

/// Session configuration: the console's endpoint, the port that feedback
/// arrives on, the console's fader bank size and the ordered mapping table.
#[derive(Debug)]
pub struct Config {
    pub eos_ip: String,
    pub eos_port: u16,
    pub listen_port: u16,
    pub fader_bank_size: u8,
    pub mappings: Vec<MidiOscMapping>,
}

/// Bit pattern of the single-precision value 1.0.
pub const ONE_BITS: u32 = 0x3F80_0000;

/// The mapping table's contents as views.
pub open spec fn table(ms: Seq<MidiOscMapping>) -> Seq<MappingView> {
    ms.map_values(|m: MidiOscMapping| m@)
}

pub open spec fn mapping_spec(
    event_type: MidiEventType,
    data_number: u8,
    osc_address: Seq<char>,
    fixed_osc_value: Option<u32>,
) -> MappingView {
    MappingView { event_type, data_number, osc_address, fixed_osc_value }
}

/// The mapping table of a fresh configuration: the eight channel faders and
/// the master fader on pitch bend, the page buttons and the Go key.
pub open spec fn default_table() -> Seq<MappingView> {
    seq![
        mapping_spec(MidiEventType::PitchBend, 1, "/eos/fader/1/1"@, None),
        mapping_spec(MidiEventType::PitchBend, 2, "/eos/fader/1/2"@, None),
        mapping_spec(MidiEventType::PitchBend, 3, "/eos/fader/1/3"@, None),
        mapping_spec(MidiEventType::PitchBend, 4, "/eos/fader/1/4"@, None),
        mapping_spec(MidiEventType::PitchBend, 5, "/eos/fader/1/5"@, None),
        mapping_spec(MidiEventType::PitchBend, 6, "/eos/fader/1/6"@, None),
        mapping_spec(MidiEventType::PitchBend, 7, "/eos/fader/1/7"@, None),
        mapping_spec(MidiEventType::PitchBend, 8, "/eos/fader/1/8"@, None),
        mapping_spec(MidiEventType::PitchBend, 9, "/eos/fader/1/9"@, None),
        mapping_spec(MidiEventType::NoteOn, 46, "/eos/fader/1/page/-1"@, Some(ONE_BITS)),
        mapping_spec(MidiEventType::NoteOn, 47, "/eos/fader/1/page/1"@, Some(ONE_BITS)),
        mapping_spec(MidiEventType::NoteOn, 94, "/eos/key/go"@, Some(ONE_BITS)),
    ]
}

/// Mapping `m` answers to MIDI events of this family and number.
pub open spec fn control_matches(m: MappingView, event_type: MidiEventType, data_number: u8) -> bool {
    m.event_type == event_type && m.data_number == data_number
}

/// Mapping `m` answers to feedback at `address`: its address is a prefix of it.
pub open spec fn feedback_matches(m: MappingView, address: Seq<char>) -> bool {
    is_prefix(m.osc_address, address)
}

/// Index of the first mapping of `t` for this event, if any.
pub open spec fn first_control(t: Seq<MappingView>, event_type: MidiEventType, data_number: u8) -> Option<int>
    decreases t.len(),
{
    if t.len() == 0 {
        None
    } else if control_matches(t.last(), event_type, data_number)
        && first_control(t.drop_last(), event_type, data_number) is None {
        Some(t.len() - 1)
    } else {
        first_control(t.drop_last(), event_type, data_number)
    }
}

/// Index of the first mapping of `t` whose address is a prefix of `address`.
pub open spec fn first_feedback(t: Seq<MappingView>, address: Seq<char>) -> Option<int>
    decreases t.len(),
{
    if t.len() == 0 {
        None
    } else if feedback_matches(t.last(), address) && first_feedback(t.drop_last(), address) is None {
        Some(t.len() - 1)
    } else {
        first_feedback(t.drop_last(), address)
    }
}

fn mapping(event_type: MidiEventType, data_number: u8, osc_address: &str, fixed_osc_value: Option<u32>) -> (r: MidiOscMapping)
    ensures
        r@ == mapping_spec(event_type, data_number, osc_address@, fixed_osc_value),
{
    MidiOscMapping { event_type, data_number, osc_address: osc_address.to_owned(), fixed_osc_value }
}

impl Config {
    /// A configuration for a console on this machine (OSC in on 8000, out on
    /// 8001), a bank of ten faders and the default mapping table.
    pub fn default() -> (r: Config)
        ensures
            r.eos_ip@ == "127.0.0.1"@,
            r.eos_port == 8000,
            r.listen_port == 8001,
            r.fader_bank_size == 10,
            table(r.mappings@) == default_table(),
    {
        let mut mappings: Vec<MidiOscMapping> = Vec::new();
        mappings.push(mapping(MidiEventType::PitchBend, 1, "/eos/fader/1/1", None));
        mappings.push(mapping(MidiEventType::PitchBend, 2, "/eos/fader/1/2", None));
        mappings.push(mapping(MidiEventType::PitchBend, 3, "/eos/fader/1/3", None));
        mappings.push(mapping(MidiEventType::PitchBend, 4, "/eos/fader/1/4", None));
        mappings.push(mapping(MidiEventType::PitchBend, 5, "/eos/fader/1/5", None));
        mappings.push(mapping(MidiEventType::PitchBend, 6, "/eos/fader/1/6", None));
        mappings.push(mapping(MidiEventType::PitchBend, 7, "/eos/fader/1/7", None));
        mappings.push(mapping(MidiEventType::PitchBend, 8, "/eos/fader/1/8", None));
        mappings.push(mapping(MidiEventType::PitchBend, 9, "/eos/fader/1/9", None));
        mappings.push(mapping(MidiEventType::NoteOn, 46, "/eos/fader/1/page/-1", Some(ONE_BITS)));
        mappings.push(mapping(MidiEventType::NoteOn, 47, "/eos/fader/1/page/1", Some(ONE_BITS)));
        mappings.push(mapping(MidiEventType::NoteOn, 94, "/eos/key/go", Some(ONE_BITS)));
        assert(table(mappings@) =~= default_table());
        Config {
            eos_ip: "127.0.0.1".to_owned(),
            eos_port: 8000,
            listen_port: 8001,
            fader_bank_size: 10,
            mappings,
        }
    }

    /// The first mapping, in table order, for MIDI events of this family and
    /// number; later mappings for the same event are never reached.
    pub fn resolve_control(&self, event_type: MidiEventType, data_number: u8) -> (r: Option<usize>)
        ensures
            r matches Some(i) ==> i < self.mappings@.len(),
            first_control(table(self.mappings@), event_type, data_number) == match r {
                Some(i) => Some(i as int),
                None => None,
            },
    {
        let ghost t = table(self.mappings@);
        let mut i: usize = 0;
        while i < self.mappings.len()
            invariant
                t == table(self.mappings@),
                i <= t.len(),
                first_control(t.subrange(0, i as int), event_type, data_number) is None,
            decreases self.mappings.len() - i,
        {
            let m = &self.mappings[i];
            assert(t.subrange(0, i + 1).drop_last() =~= t.subrange(0, i as int));
            if m.event_type == event_type && m.data_number == data_number {
                proof { lemma_first_control_prefix(t, (i + 1) as int, event_type, data_number); }
                return Some(i);
            }
            i += 1;
        }
        proof { lemma_first_control_prefix(t, t.len() as int, event_type, data_number); }
        None
    }

    /// The first mapping, in table order, whose address is a prefix of
    /// `address` (feedback addresses extend the control address).
    pub fn resolve_feedback(&self, address: &str) -> (r: Option<usize>)
        ensures
            r matches Some(i) ==> i < self.mappings@.len(),
            first_feedback(table(self.mappings@), address@) == match r {
                Some(i) => Some(i as int),
                None => None,
            },
    {
        let ghost t = table(self.mappings@);
        let mut i: usize = 0;
        while i < self.mappings.len()
            invariant
                t == table(self.mappings@),
                i <= t.len(),
                first_feedback(t.subrange(0, i as int), address@) is None,
            decreases self.mappings.len() - i,
        {
            let m = &self.mappings[i];
            assert(t.subrange(0, i + 1).drop_last() =~= t.subrange(0, i as int));
            if starts_with(address, m.osc_address.as_str()) {
                proof { lemma_first_feedback_prefix(t, (i + 1) as int, address@); }
                return Some(i);
            }
            i += 1;
        }
        proof { lemma_first_feedback_prefix(t, t.len() as int, address@); }
        None
    }
}

/// The first match is the earliest mapping that answers: every mapping
/// before it does not, and when there is none, no mapping answers. Of two
/// mappings for the same event, the later one is never chosen.
pub proof fn lemma_first_control(t: Seq<MappingView>, event_type: MidiEventType, data_number: u8)
    ensures
        match first_control(t, event_type, data_number) {
            Some(i) => {
                &&& 0 <= i < t.len()
                &&& control_matches(t[i], event_type, data_number)
                &&& forall|j: int| 0 <= j < i ==> !control_matches(#[trigger] t[j], event_type, data_number)
            },
            None => forall|j: int| 0 <= j < t.len() ==> !control_matches(#[trigger] t[j], event_type, data_number),
        },
    decreases t.len(),
{
    if t.len() > 0 {
        lemma_first_control(t.drop_last(), event_type, data_number);
        assert forall|j: int| 0 <= j < t.len() - 1 implies t.drop_last()[j] == t[j] by {}
    }
}

/// The same for feedback: the chosen mapping is the earliest whose address
/// is a prefix of the incoming one.
pub proof fn lemma_first_feedback(t: Seq<MappingView>, address: Seq<char>)
    ensures
        match first_feedback(t, address) {
            Some(i) => {
                &&& 0 <= i < t.len()
                &&& feedback_matches(t[i], address)
                &&& forall|j: int| 0 <= j < i ==> !feedback_matches(#[trigger] t[j], address)
            },
            None => forall|j: int| 0 <= j < t.len() ==> !feedback_matches(#[trigger] t[j], address),
        },
    decreases t.len(),
{
    if t.len() > 0 {
        lemma_first_feedback(t.drop_last(), address);
        assert forall|j: int| 0 <= j < t.len() - 1 implies t.drop_last()[j] == t[j] by {}
    }
}

/// Once a prefix of the table has a first match, the whole table has the
/// same one; a prefix without a match leaves the rest to decide.
proof fn lemma_first_control_prefix(t: Seq<MappingView>, n: int, event_type: MidiEventType, data_number: u8)
    requires
        0 <= n <= t.len(),
    ensures
        first_control(t.subrange(0, n), event_type, data_number) is Some
            ==> first_control(t, event_type, data_number) == first_control(t.subrange(0, n), event_type, data_number),
        n == t.len() ==> first_control(t, event_type, data_number) == first_control(t.subrange(0, n), event_type, data_number),
    decreases t.len() - n,
{
    assert(t.subrange(0, t.len() as int) =~= t);
    if n < t.len() {
        lemma_first_control_prefix(t, n + 1, event_type, data_number);
        assert(t.subrange(0, n + 1).drop_last() =~= t.subrange(0, n));
    }
}

proof fn lemma_first_feedback_prefix(t: Seq<MappingView>, n: int, address: Seq<char>)
    requires
        0 <= n <= t.len(),
    ensures
        first_feedback(t.subrange(0, n), address) is Some
            ==> first_feedback(t, address) == first_feedback(t.subrange(0, n), address),
        n == t.len() ==> first_feedback(t, address) == first_feedback(t.subrange(0, n), address),
    decreases t.len() - n,
{
    assert(t.subrange(0, t.len() as int) =~= t);
    if n < t.len() {
        lemma_first_feedback_prefix(t, n + 1, address);
        assert(t.subrange(0, n + 1).drop_last() =~= t.subrange(0, n));
    }
}

} // verus!
