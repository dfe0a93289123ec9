use yt_dlp_clipper::audio::{
    check_device, AudioError, AudioPump, AudioStep, LeadSkip, Phase, Ring, Taken,
};
use yt_dlp_clipper::decoder::PacketReply;
use yt_dlp_clipper::double::Double;
use yt_dlp_clipper::export::AudioFormat;
use yt_dlp_clipper::format::{audio_format_label, fmt_duration, sanitize_filename};
use yt_dlp_clipper::sizes::{fmt_megabytes, fmt_size};
use yt_dlp_clipper::text::{
    chars_of, contains, decimal_of, hexadecimal_of, parse_max, signed_decimal_of, split,
    split_words, string_of, to_ascii_lowercase, trim, Class,
};
use yt_dlp_clipper::text_menu::{char_to_byte, copy, cut, paste, selection};

fn double(value: f64) -> Double {
    Double { bits: value.to_bits() }
}

#[test]
fn doubles_compare_as_numbers_do() {
    let values = [
        f64::NEG_INFINITY,
        -2.5,
        -f64::MIN_POSITIVE,
        -0.0,
        0.0,
        5e-324,
        0.05,
        1.0,
        f64::MAX,
        f64::INFINITY,
        f64::NAN,
        -f64::NAN,
    ];
    for a in values {
        for b in values {
            let (x, y) = (double(a), double(b));
            assert_eq!(x.lt(y), a < b);
            assert_eq!(x.le(y), a <= b);
            assert_eq!(x.same(y), a == b);
            assert_eq!(x.total_le(y), a.total_cmp(&b).is_le());
            if !(a == 0.0 && b == 0.0) && !(a.is_nan() && b.is_nan()) {
                assert_eq!(x.min(y), double(a.min(b)));
                assert_eq!(x.max(y), double(a.max(b)));
            }
        }
    }
    assert_eq!(double(7.0).clamp(double(1.0), double(3.0)), double(3.0));
    assert_eq!(double(2.0).clamp(double(1.0), double(3.0)), double(2.0));
}

#[test]
fn sizes_read_as_their_doubles_do() {
    let mut counts = vec![0, 1, 49_999, 50_000, 50_001, 250_000, 750_000, 999_949, 999_950];
    counts.extend([999_999_999, 1_000_000_000, 1_005_000_000, 1_015_000_000, 1_125_000_000]);
    counts.extend([u64::MAX, u64::MAX - 1, 1 << 53, (1 << 53) + 1, (1 << 54) + 3]);
    for tenth in 0..4000u64 {
        counts.push(tenth * 100_000 + 50_000);
        counts.push(tenth * 12_345_678 + 7);
        counts.push(1_000_000_000 + tenth * 5_000_000);
    }
    for bytes in counts {
        let b = bytes as f64;
        let expected = if b >= 1e9 {
            format!("{:.2} GB", b / 1e9)
        } else {
            format!("{:.1} MB", b / 1e6)
        };
        assert_eq!(fmt_size(bytes), expected, "{bytes}");
        assert_eq!(fmt_megabytes(bytes), format!("{:.1}", b / 1e6), "{bytes}");
    }
    assert_eq!(fmt_size(1_500_000_000), "1.50 GB");
    assert_eq!(fmt_size(12_340_000), "12.3 MB");
}

#[test]
fn durations_read_as_clocks_do() {
    assert_eq!(fmt_duration(0), "0:00");
    assert_eq!(fmt_duration(59), "0:59");
    assert_eq!(fmt_duration(61), "1:01");
    assert_eq!(fmt_duration(3671), "61:11");
    assert_eq!(audio_format_label(AudioFormat::Mp3), "MP3");
    assert_eq!(audio_format_label(AudioFormat::Aac), "AAC (.m4a)");
    assert_eq!(audio_format_label(AudioFormat::Original), "Original (lossless)");
}

#[test]
fn names_are_made_safe() {
    assert_eq!(sanitize_filename("a/b\\c:d*e?f\"g<h>i|j"), "a_b_c_d_e_f_g_h_i_j");
    assert_eq!(sanitize_filename("tab\there\u{85}"), "tab_here_");
    assert_eq!(sanitize_filename("  ..hidden..  "), "hidden");
    assert_eq!(sanitize_filename("..."), "video");
    assert_eq!(sanitize_filename(" . "), "video");
    assert_eq!(sanitize_filename(""), "video");
    assert_eq!(sanitize_filename("a ."), "a ");
    assert_eq!(sanitize_filename(&"é".repeat(150)), "é".repeat(100));
    assert_eq!(sanitize_filename(&format!("{}.mp4", "x".repeat(99))), "x".repeat(99));
}

#[test]
fn numbers_are_written_and_read() {
    for n in [0, 9, 10, 42, 1_000_000, u64::MAX] {
        assert_eq!(string_of(&decimal_of(n)), n.to_string());
        assert_eq!(parse_max(&chars_of(&n.to_string()), u64::MAX), Some(n));
        assert_eq!(hexadecimal_of(n), format!("{n:x}"));
    }
    for n in [0, -1, 17, i64::MIN, i64::MAX] {
        assert_eq!(signed_decimal_of(n), n.to_string());
    }
    for text in ["+5", "", "+", "-1", "5 ", "0x5", "007", "18446744073709551616"] {
        assert_eq!(parse_max(&chars_of(text), u64::MAX), text.parse::<u64>().ok(), "{text:?}");
    }
    assert_eq!(parse_max(&chars_of("256"), 255), None);
}

#[test]
fn white_space_is_unicodes() {
    for code in 0..0x11_0000u32 {
        if let Some(c) = char::from_u32(code) {
            let text = format!("a{c}b");
            let words = split_words(&chars_of(&text)).len();
            assert_eq!(words, text.split_whitespace().count(), "{code:x}");
        }
    }
    let text = "\u{3000} a b\t\n";
    assert_eq!(string_of(&trim(&chars_of(text))), text.trim());
    assert_eq!(string_of(&trim(&chars_of(" \n"))), "");
}

#[test]
fn texts_are_split_and_searched() {
    let pieces = |text: &str, class: Class| -> Vec<String> {
        split(&chars_of(text), class).iter().map(string_of).collect()
    };
    assert_eq!(pieces("a.b..c", Class::Is('.')), ["a", "b", "", "c"]);
    assert_eq!(pieces("", Class::Is('.')), [""]);
    assert_eq!(pieces("1-2+3", Class::Either('-', '+')), ["1", "2", "3"]);
    assert_eq!(string_of(&to_ascii_lowercase(&chars_of("ÀBc-Z"))), "Àbc-z");
    assert!(contains(&chars_of("abcabd"), &chars_of("abd")));
    assert!(!contains(&chars_of("abcab"), &chars_of("abd")));
    assert!(contains(&chars_of("abc"), &chars_of("")));
    assert!(!contains(&chars_of(""), &chars_of("a")));
}

#[test]
fn cursors_count_characters() {
    let text = "aé漢😀b";
    for i in 0..8 {
        let expected = text.char_indices().nth(i).map_or(text.len(), |(b, _)| b);
        assert_eq!(char_to_byte(text, i), expected);
    }
    assert_eq!(selection(Some((5, 2))), (2, 5));
    assert_eq!(selection(Some((2, 5))), (2, 5));
    assert_eq!(selection(None), (0, 0));
}

#[test]
fn cut_and_paste_meet_again() {
    let text = "one two three";
    assert_eq!(copy(text, 4, 7), "two");
    let gone = cut(text, 4, 7);
    assert_eq!((gone.text.as_str(), gone.cursor), ("one  three", 4));
    let back = paste(&gone.text, 4, 4, "two");
    assert_eq!((back.text.as_str(), back.cursor), (text, 7));
    let trimmed = paste("é", 1, 1, "  https://example.com\n");
    assert_eq!((trimmed.text.as_str(), trimmed.cursor), ("éhttps://example.com", 20));
    let late = paste("ab", 9, 9, "c");
    assert_eq!((late.text.as_str(), late.cursor), ("abc", 10));
}

#[test]
fn samples_play_in_order() {
    let mut ring = Ring::new();
    ring.extend(&vec![1, 2, 3, 4], 1);
    assert_eq!(ring.len(), 3);
    assert_eq!(ring.fill(2), [Some(2), Some(3)]);
    ring.extend(&vec![5], 0);
    assert_eq!(ring.fill(4), [Some(4), Some(5), None, None]);
    assert_eq!(ring.consumed(), 4);
    assert_eq!(ring.pop(), None);
    assert_eq!(ring.consumed(), 4);
}

#[test]
fn exactly_the_lead_is_skipped() {
    let mut skip = LeadSkip::new();
    skip.note_first(5);
    skip.note_first(99);
    let taken = |offset: usize, count: usize| Some(Taken { offset, count });
    assert_eq!(skip.take(3, 2, 24), taken(6, 6));
    assert_eq!(skip.take(0, 2, 24), None);
    assert_eq!(skip.take(3, 2, 23), None);
    assert_eq!(skip.take(3, 2, 64), taken(4, 6));
    assert_eq!(skip.take(3, 2, 24), taken(0, 6));
    assert_eq!(skip.frames, Some(0));
}

#[test]
fn the_pump_drains_to_the_last_sample() {
    let mut pump = AudioPump::new(1, 48000, 2);
    assert_eq!(pump.next(true, 0), AudioStep::Quit);
    assert_eq!(pump.next(false, 96001), AudioStep::Sleep);
    assert_eq!(pump.next(false, 96000), AudioStep::Read);
    assert!(pump.packet(PacketReply::Packet { stream: 1 }));
    assert!(!pump.packet(PacketReply::Packet { stream: 0 }));
    assert!(!pump.packet(PacketReply::NoMore));
    assert_eq!(pump.next(true, 96001), AudioStep::DrainTail);
    let mut skip = LeadSkip::new();
    let mut silent = pump;
    silent.tail_drained(&skip);
    assert_eq!(silent.phase, Phase::Over);
    skip.note_first(0);
    pump.tail_drained(&skip);
    assert_eq!(pump.next(false, 0), AudioStep::Flush);
    assert!(pump.flushed(Some(10)));
    assert!(!pump.flushed(Some(0)));
    assert_eq!(pump.next(false, 0), AudioStep::Done);
    pump.phase = Phase::Flushing;
    assert!(!pump.flushed(None));
}

#[test]
fn devices_are_checked() {
    assert_eq!(check_device(false, true), Err(AudioError::NoDevice));
    assert_eq!(check_device(true, false), Err(AudioError::WrongFormat));
    assert_eq!(check_device(true, true), Ok(()));
    assert_eq!(AudioError::NoDevice.message(), "no audio output device");
    assert_eq!(AudioError::WrongFormat.message(), "audio device is not f32");
    assert_eq!(AudioError::NoStream.message(), "no audio stream");
}
