use eos_midi_bridge::display::{center_label, encode_label};
use eos_midi_bridge::pitch_bend::{from_pitch_bend, pitch_bend_bytes, to_pitch_bend};
use eos_midi_bridge::text::{clean_label, contains_str, parse_u8, split_field, starts_with};

fn bend(v: f32) -> u16 {
    to_pitch_bend(v.to_bits())
}

#[test]
fn pitch_bend_exact_values() {
    assert_eq!(bend(0.5), 8192);
    assert_eq!(bend(0.0), 0);
    assert_eq!(bend(1.0), 16383);
    assert_eq!(bend(0.25), 4096);
    assert_eq!(pitch_bend_bytes(8192), (0x00, 0x40));
    assert_eq!(pitch_bend_bytes(16383), (0x7F, 0x7F));
    assert_eq!(from_pitch_bend(0x7F, 0x7F), 16383);
    assert_eq!(from_pitch_bend(0x00, 0x40), 8192);
}

#[test]
fn pitch_bend_clamps() {
    assert_eq!(bend(-0.5), 0);
    assert_eq!(bend(-0.0), 0);
    assert_eq!(bend(1.5), 16383);
    assert_eq!(bend(f32::INFINITY), 16383);
    assert_eq!(bend(f32::NEG_INFINITY), 0);
    assert_eq!(bend(f32::NAN), 0);
    assert_eq!(bend(1e-30), 0);
    assert_eq!(to_pitch_bend(1), 0);
}

#[test]
fn pitch_bend_round_trip_within_a_step() {
    let mut i = 0u32;
    while i <= 1000 {
        let v = i as f32 / 1000.0;
        let pb = bend(v);
        let (lsb, msb) = pitch_bend_bytes(pb);
        let back = from_pitch_bend(lsb, msb) as f64 / 16383.0;
        assert!((back - v as f64).abs() <= 1.0 / 16383.0, "{} -> {}", v, back);
        let expected = (v as f64 * 16383.0).round() as u16;
        assert_eq!(pb, expected, "{}", v);
        i += 1;
    }
}

#[test]
fn label_cleaning() {
    assert_eq!(clean_label("Fader 3: Vox"), "Vox");
    assert_eq!(clean_label("  Drums  "), "Drums");
    assert_eq!(clean_label("a:b:c"), "c");
    assert_eq!(clean_label("ends:"), "");
    assert_eq!(clean_label(""), "");
    assert_eq!(clean_label("x:\u{a0}Keys\u{3000}"), "Keys");
}

#[test]
fn label_centering() {
    assert_eq!(center_label("Vox"), "  Vox  ");
    assert_eq!(center_label("Keys"), " Keys  ");
    assert_eq!(center_label(""), "       ");
    assert_eq!(center_label("Trumpets"), "Trumpets");
    assert_eq!(center_label("Trumpets"), format!("{: ^7}", "Trumpets"));
    assert_eq!(center_label("ab"), format!("{: ^7}", "ab"));
}

#[test]
fn label_frame_layout() {
    let frame = encode_label(3, "Fader 3: Vox");
    let mut expected = vec![0xF0, 0x00, 0x00, 0x66, 0x14, 0x12, 14];
    expected.extend_from_slice(b"  Vox  ");
    expected.push(0xF7);
    assert_eq!(frame, expected);
    let frame = encode_label(1, "Backing Vocals");
    assert_eq!(frame[6], 0);
    assert_eq!(&frame[7..14], b"Backing");
    assert_eq!(frame.len(), 15);
    let frame = encode_label(0, "A");
    assert_eq!(frame[6], 0);
    let frame = encode_label(9, "");
    assert_eq!(frame[6], 56);
    assert_eq!(&frame[7..14], b"       ");
}

#[test]
fn text_helpers() {
    assert!(starts_with("/eos/out/ping", "/eos/out"));
    assert!(!starts_with("/eos/ou", "/eos/out"));
    assert!(starts_with("abc", ""));
    assert!(contains_str("/eos/out/fader/3/name", "/name"));
    assert!(!contains_str("/eos/out/fader/3/nam", "/name"));
    assert_eq!(split_field("/eos/out/fader/3/name", 4).as_deref(), Some("3"));
    assert_eq!(split_field("/eos/out/fader/3/name", 0).as_deref(), Some(""));
    assert_eq!(split_field("/eos/out", 4), None);
    assert_eq!(parse_u8("3"), Some(3));
    assert_eq!(parse_u8("+7"), Some(7));
    assert_eq!(parse_u8("255"), Some(255));
    assert_eq!(parse_u8("256"), None);
    assert_eq!(parse_u8("00012"), Some(12));
    assert_eq!(parse_u8(""), None);
    assert_eq!(parse_u8("+"), None);
    assert_eq!(parse_u8("-1"), None);
    assert_eq!(parse_u8("1a"), None);
    for s in ["3", "+7", "255", "256", "", "+", "-1", "1a", "0099999"] {
        assert_eq!(parse_u8(s), s.parse::<u8>().ok(), "{}", s);
    }
}
