use ricercar::audio::device::{
    build_device_list, classify, known_caps, parse_cards, parse_pcms, supported_containers,
    DeviceCaps, DeviceKind,
};
use ricercar::audio::error::AudioError;
use ricercar::audio::fmt::{append_container, negotiate, Container, PcmFormat};
use ricercar::audio::sink::{device_info, make_sink, parse_file_spec, FileSink, Sink};
use ricercar::audio::stream::{
    align_samples, content_bits, extension_hint, extension_of, native_bits, source_of,
    track_duration_ms, SampleType, Source,
};

const CARDS: &str = " 0 [Generic        ]: HDA-Intel - HD-Audio Generic
                      HD-Audio Generic at 0xfcd80000 irq 110
 1 [K7             ]: USB-Audio - FiiO K7
                      FiiO FiiO K7 at usb-0000:00:14.0-2, high speed
";
const PCMS: &str = "01-00: USB Audio : USB Audio : playback 1 : capture 1
00-03: HDMI 0 : HDMI 0 : playback 1
00-00: Generic Analog : Generic Analog : playback 1 : capture 1
00-02: Generic Alt : Generic Alt : capture 1
";

#[test]
fn cards_long_and_short_names() {
    let c = parse_cards(CARDS);
    assert_eq!(c[&0].0, "HD-Audio Generic");
    assert_eq!(c[&1].0, "FiiO K7");
    assert_eq!(c[&1].1, "FiiO FiiO K7 at usb-0000:00:14.0-2, high speed");
}

#[test]
fn pcms_play_or_are_left_out() {
    let p = parse_pcms(PCMS);
    let numbers: Vec<(u32, u32)> = p.iter().map(|x| (x.0, x.1)).collect();
    assert!(numbers.contains(&(1, 0)) && numbers.contains(&(0, 3)) && numbers.contains(&(0, 0)));
    assert!(!numbers.contains(&(0, 2)));
    assert!(parse_pcms("").is_empty());
}

#[test]
fn device_list_is_ordered_and_classified() {
    let hints: Vec<(String, Option<String>)> = vec![
        ("pulse".into(), Some("PulseAudio Sound Server".into())),
        ("default".into(), Some("Default ALSA Output".into())),
        ("sysdefault:CARD=K7".into(), None),
    ];
    let l = build_device_list(CARDS, PCMS, Some(&hints));
    let names: Vec<&str> = l.iter().map(|d| d.name.as_str()).collect();
    assert_eq!(
        names,
        ["null", "hw:0,0", "hw:0,3", "hw:1,0", "default", "pulse"]
    );
    assert_eq!(l[1].description, "HD-Audio Generic: Generic Analog");
    assert_eq!(
        l[3].card_name.as_deref(),
        Some("FiiO FiiO K7 at usb-0000:00:14.0-2, high speed")
    );
    for d in &l {
        assert_eq!(d.kind, classify(&d.name), "{}", d.name);
    }
    assert!(!l[4].kind.is_bit_perfect());
}

#[test]
fn default_offered_without_hints() {
    let l = build_device_list("", "", None);
    let names: Vec<&str> = l.iter().map(|d| d.name.as_str()).collect();
    assert_eq!(names, ["null", "default"]);
}

#[test]
fn caps_from_tests() {
    let caps = DeviceCaps::from_tests(
        |c| matches!(c, Container::S16 | Container::S32),
        |r| r % 44100 == 0,
        2..=2,
    );
    assert_eq!(caps.formats, [Container::S16, Container::S32]);
    assert_eq!(caps.rates, [44100, 88200, 176400, 352800]);
    assert!(caps.supports_rate(88200) && !caps.supports_rate(96000));
    let null = known_caps("null").unwrap();
    let any = DeviceCaps::unrestricted();
    assert_eq!(null.formats, any.formats);
    assert_eq!(null.rates, any.rates);
    assert_eq!(null.channels, any.channels);
    assert_eq!(
        known_caps("file:/nonexistent").unwrap().formats,
        Container::ALL
    );
    assert!(known_caps("hw:0,0").is_none());
}

#[test]
fn containers_are_asked_for_in_order() {
    assert_eq!(
        supported_containers(|c| c != Container::S16),
        Container::ALL
            .into_iter()
            .filter(|c| *c != Container::S16)
            .collect::<Vec<_>>()
    );
    assert!(supported_containers(|_| false).is_empty());
}

#[test]
fn device_kinds() {
    assert_eq!(classify("null"), DeviceKind::Null);
    assert_eq!(classify("file:/tmp/x"), DeviceKind::File);
    assert_eq!(classify("hw:1,0"), DeviceKind::Hardware);
    assert_eq!(classify("pulse"), DeviceKind::Virtual);
}

fn enc(samples: &[i32], c: Container, bits: u8) -> Vec<u8> {
    let mut out = Vec::new();
    append_container(&mut out, samples, c, bits);
    out
}

#[test]
fn s24_is_lsb_aligned_and_sign_extended() {
    let out = enc(&[0x7F_FFFF, -0x80_0000, -1, 0x12_3456], Container::S24, 24);
    assert_eq!(
        out,
        [
            0xFF, 0xFF, 0x7F, 0x00, // max
            0x00, 0x00, 0x80, 0xFF, // min
            0xFF, 0xFF, 0xFF, 0xFF, // -1
            0x56, 0x34, 0x12, 0x00,
        ]
    );
}

#[test]
fn s24_pads_16bit_content_into_24_significant_bits() {
    assert_eq!(enc(&[-2], Container::S24, 16), (-2i32 << 8).to_le_bytes());
    assert_eq!(enc(&[0x7FFF], Container::S24, 16), [0x00, 0xFF, 0x7F, 0x00]);
}

#[test]
fn s32_is_msb_aligned() {
    assert_eq!(enc(&[0x12_3456], Container::S32, 24), [0x00, 0x56, 0x34, 0x12]);
    assert_eq!(enc(&[-1], Container::S32, 16), (-1i32 << 16).to_le_bytes());
    assert_eq!(enc(&[i32::MIN], Container::S32, 32), i32::MIN.to_le_bytes());
}

#[test]
fn s16_exact_16bit() {
    assert_eq!(
        enc(&[32767, -32768], Container::S16, 16),
        [0xFF, 0x7F, 0x00, 0x80]
    );
}

#[test]
fn s24_3_packed() {
    assert_eq!(enc(&[0x0000_FFEE], Container::S24_3, 24), [0xEE, 0xFF, 0x00]);
    assert_eq!(enc(&[-0x80_0000], Container::S24_3, 24), [0x00, 0x00, 0x80]);
    assert_eq!(enc(&[0x1234], Container::S24_3, 16), [0x00, 0x34, 0x12]);
}

/// Every container must round-trip every content value exactly.
#[test]
fn containers_preserve_content_bits() {
    for bits in [16u8, 24] {
        let max = (1i32 << (bits - 1)) - 1;
        let min = -(1i32 << (bits - 1));
        let samples = [min, min + 1, -1, 0, 1, max - 1, max];
        for c in Container::ALL {
            if c.significant_bits() < bits as u32 {
                continue;
            }
            let out = enc(&samples, c, bits);
            let pad = c.significant_bits() - bits as u32;
            let back: Vec<i32> = out
                .chunks(c.bytes_per_sample())
                .map(|b| {
                    let word = match c {
                        Container::S16 => i16::from_le_bytes([b[0], b[1]]) as i32,
                        Container::S24_3 => i32::from_le_bytes([0, b[0], b[1], b[2]]) >> 8,
                        Container::S24 | Container::S32 => {
                            i32::from_le_bytes([b[0], b[1], b[2], b[3]])
                        }
                    };
                    if c == Container::S24 {
                        assert_eq!((word << 8) >> 8, word, "S24 top byte must sign-extend");
                    }
                    assert_eq!(word & ((1i64 << pad) - 1) as i32, 0, "padding must be zero");
                    word >> pad
                })
                .collect();
            assert_eq!(back, samples, "{c:?} {bits}");
        }
    }
}

#[test]
fn negotiation_prefers_native_width() {
    assert_eq!(negotiate(16, &Container::ALL), Some(Container::S16));
    assert_eq!(negotiate(24, &Container::ALL), Some(Container::S24));
    assert_eq!(negotiate(20, &Container::ALL), Some(Container::S24));
    assert_eq!(negotiate(32, &Container::ALL), Some(Container::S32));
}

#[test]
fn negotiation_falls_back_losslessly() {
    let (s16, s24, s24_3, s32) = (Container::S16, Container::S24, Container::S24_3, Container::S32);
    assert_eq!(negotiate(16, &[s24, s32]), Some(s32));
    assert_eq!(negotiate(16, &[s24_3, s24]), Some(s24_3));
    assert_eq!(negotiate(16, &[s24]), Some(s24));
    assert_eq!(negotiate(24, &[s16, s24_3, s32]), Some(s24_3));
    assert_eq!(negotiate(24, &[s16, s32]), Some(s32));
    assert_eq!(negotiate(32, &[s16, s24, s24_3, s32]), Some(s32));
}

#[test]
fn negotiation_refuses_truncation() {
    let (s16, s24, s24_3) = (Container::S16, Container::S24, Container::S24_3);
    assert_eq!(negotiate(24, &[s16]), None);
    assert_eq!(negotiate(32, &[s16, s24, s24_3]), None);
    assert_eq!(negotiate(16, &[]), None);
}

#[test]
fn labels_round_trip() {
    for c in Container::ALL {
        assert_eq!(Container::from_label(c.label()), Some(c));
    }
    assert_eq!(Container::for_bits(24), Container::S24);
    assert_eq!(Container::from_label("FLOAT_LE"), None);
}

#[test]
fn file_spec_parsing() {
    assert_eq!(
        parse_file_spec("file:/tmp/a.raw"),
        ("/tmp/a.raw".to_string(), Container::ALL.to_vec())
    );
    assert_eq!(
        parse_file_spec("file:/tmp/a.raw?formats=S32_LE,S24_3LE"),
        (
            "/tmp/a.raw".to_string(),
            vec![Container::S32, Container::S24_3]
        )
    );
    // Unknown labels: the whole thing is a path.
    assert_eq!(
        parse_file_spec("file:/tmp/a?formats=FLOAT").0,
        "/tmp/a?formats=FLOAT"
    );
}

#[test]
fn file_sink_refuses_what_it_cannot_carry() {
    let mut s = FileSink::new(device_info("file:/nonexistent/x?formats=S16_LE"));
    let fmt = PcmFormat {
        sample_rate: 96000,
        channels: 2,
        bits: 24,
    };
    assert!(matches!(s.open(fmt), Err(AudioError::FormatRefused { .. })));
}

#[test]
fn file_sink_writes_the_container() {
    let mut s = FileSink::new(device_info("file:/nonexistent/x?formats=S32_LE"));
    assert!(s.write_i32(&[1, 2]).is_err());
    let fmt = PcmFormat {
        sample_rate: 44100,
        channels: 2,
        bits: 16,
    };
    assert!(s.open(fmt).is_ok());
    assert_eq!(
        s.write_i32(&[1, -1]).unwrap(),
        enc(&[1, -1], Container::S32, 16)
    );
    s.close();
    assert!(s.write_i32(&[1]).is_err());
}

#[test]
fn sinks_by_device() {
    assert!(matches!(make_sink(&device_info("null")), Sink::Alsa(s) if s.fmt.is_none()));
    let Sink::File(f) = make_sink(&device_info("file:/tmp/x?formats=S32_LE")) else {
        panic!("no file")
    };
    assert_eq!((f.path.as_str(), f.supported.len(), f.fmt), ("/tmp/x", 1, None));
    assert!(matches!(
        make_sink(&device_info("hw:0,0")),
        Sink::Alsa(s) if s.device.name == "hw:0,0" && s.container.is_none()
    ));
}

#[test]
fn formats_describe_themselves() {
    let f = PcmFormat {
        sample_rate: 96000,
        channels: 2,
        bits: 24,
    };
    assert_eq!(f.describe(), "24 bit / 96000 Hz / 2 ch");
}

#[test]
fn sources_by_uri() {
    assert!(matches!(source_of("file:///a%20b.flac"), Ok(Source::File(_))));
    assert!(matches!(source_of("https://x/a.mp3"), Ok(Source::Http)));
    assert!(source_of("ftp://x/a").is_err());
    assert_eq!(extension_of("http://x/a.MP3?x=1").as_deref(), Some("mp3"));
    assert_eq!(extension_hint("flac".into()).as_deref(), Some("flac"));
}

#[test]
fn durations_of_tracks() {
    assert_eq!(track_duration_ms(Some(5), Some(44100), Some(44100)), Some(5));
    assert_eq!(track_duration_ms(None, Some(44100), Some(44100)), Some(1000));
    assert_eq!(track_duration_ms(None, None, Some(44100)), None);
}

#[test]
fn alignment_restores_content_values() {
    assert_eq!(align_samples(&[1 << 16, -(1 << 16), i32::MIN], 16), [1, -1, -32768]);
    assert_eq!(align_samples(&[1 << 8, i32::MAX], 24), [1, 0x7F_FFFF]);
    assert_eq!(align_samples(&[7, -7], 32), [7, -7]);
    assert_eq!(native_bits(SampleType::S16), Some(16));
    assert_eq!(native_bits(SampleType::F32), None);
    assert_eq!(content_bits(Some(20), SampleType::S24), 20);
    assert_eq!(content_bits(None, SampleType::S16), 16);
}
