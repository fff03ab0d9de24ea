//! Scribble-strip text: the Sysex frame that writes a channel's label on the
//! surface's display (Mackie Control protocol).
use crate::text::{clean_label, clean_label_spec};
use vstd::prelude::*;
use vstd::string::*;
use vstd::utf8::encode_utf8;

verus! {

/// Characters of display that each channel owns.
pub const CELL_WIDTH: usize = 7;

/// Start of a display-text Sysex frame: Sysex, Mackie's manufacturer id,
/// the device id and the "write text" command.
pub open spec fn frame_header() -> Seq<u8> {
    seq![0xF0u8, 0x00u8, 0x00u8, 0x66u8, 0x14u8, 0x12u8]
}

/// End of a Sysex frame.
pub const SYSEX_END: u8 = 0xF7;

pub open spec fn spaces(n: nat) -> Seq<char> {
    Seq::new(n, |i: int| ' ')
}

/// `t` centred in a cell of seven characters (extra space goes right);
/// longer text is left as it is.
pub open spec fn centered(t: Seq<char>) -> Seq<char> {
    if t.len() >= 7 {
        t
    } else {
        let pad = (7 - t.len()) as nat;
        spaces(pad / 2) + t + spaces((pad - pad / 2) as nat)
    }
}

/// Display offset of a channel's cell: seven characters per channel, from
/// channel 1 (channel 0 shares the first cell), as one byte.
pub open spec fn cell_offset(channel: u8) -> u8 {
    if channel == 0 {
        0
    } else {
        (((channel - 1) * 7) % 256) as u8
    }
}

/// The text bytes of a label's cell: the cleaned label, centred, as UTF-8,
/// cut to seven bytes.
pub open spec fn cell_bytes(label: Seq<char>) -> Seq<u8> {
    let b = encode_utf8(centered(clean_label_spec(label)));
    if b.len() > 7 {
        b.subrange(0, 7)
    } else {
        b
    }
}

/// The whole frame that shows `label` in `channel`'s cell.
pub open spec fn label_frame(channel: u8, label: Seq<char>) -> Seq<u8> {
    frame_header() + seq![cell_offset(channel)] + cell_bytes(label) + seq![SYSEX_END]
}

fn append_spaces(s: &mut String, n: usize)
    ensures
        final(s)@ == old(s)@ + spaces(n as nat),
{
    let mut i: usize = 0;
    proof { reveal_strlit(" "); }
    while i < n
        invariant
            i <= n,
            s@ == old(s)@ + spaces(i as nat),
        decreases n - i,
    {
        proof { reveal_strlit(" "); }
        s.append(" ");
        assert(" "@ =~= seq![' ']);
        assert(s@ =~= old(s)@ + spaces((i + 1) as nat));
        i += 1;
    }
}

/// Centres `t` in a seven-character cell.
pub fn center_label(t: &str) -> (r: String)
    ensures
        r@ == centered(t@),
{
    let len = t.unicode_len();
    let mut r = String::new();
    if len >= CELL_WIDTH {
        r.append(t);
        assert(r@ =~= t@);
        return r;
    }
    let pad = CELL_WIDTH - len;
    append_spaces(&mut r, pad / 2);
    r.append(t);
    append_spaces(&mut r, pad - pad / 2);
    assert(r@ =~= centered(t@));
    r
}

/// Builds the Sysex frame that writes `label` into `channel`'s display cell.
/// The label is cleaned (text after the last `:`, trimmed), centred in seven
/// characters and cut to seven bytes.
pub fn encode_label(channel: u8, label: &str) -> (r: Vec<u8>)
    ensures
        r@ == label_frame(channel, label@),
{
    let offset: u8 = if channel == 0 {
        0
    } else {
        ((channel as u32 - 1) * 7 % 256) as u8
    };
    let clean = clean_label(label);
    let text = center_label(clean.as_str());
    let bytes = text.as_str().as_bytes();
    let mut frame: Vec<u8> = vec![0xF0, 0x00, 0x00, 0x66, 0x14, 0x12, offset];
    let take = if bytes.len() > CELL_WIDTH { CELL_WIDTH } else { bytes.len() };
    let ghost head = frame@;
    let mut i: usize = 0;
    while i < take
        invariant
            take <= bytes@.len(),
            i <= take,
            frame@ == head + bytes@.subrange(0, i as int),
        decreases take - i,
    {
        frame.push(bytes[i]);
        assert(frame@ =~= head + bytes@.subrange(0, i + 1));
        i += 1;
    }
    frame.push(SYSEX_END);
    assert(bytes@ == encode_utf8(centered(clean_label_spec(label@))));
    assert(bytes@.subrange(0, bytes@.len() as int) =~= bytes@);
    assert(frame@ =~= label_frame(channel, label@));
    frame
}

} // verus!
