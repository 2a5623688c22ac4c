use rekordbox_convert::text::{decimal_string, string_of};
use rekordbox_convert::{
    from_probe, AudioFormatType, ProbeError, ProbeFormat, ProbeReport, ProbeStream, SongInfo,
    SupportedAudioFormat, TagMap,
};

fn stream(codec: &str, rate: Option<&str>, fmt: Option<&str>, bit_rate: Option<&str>) -> ProbeStream {
    ProbeStream {
        codec_name: codec.to_string(),
        sample_rate: rate.map(|s| s.to_string()),
        sample_fmt: fmt.map(|s| s.to_string()),
        bit_rate: bit_rate.map(|s| s.to_string()),
    }
}

fn format(name: &str, tags: Option<TagMap>) -> ProbeFormat {
    ProbeFormat { format_name: name.to_string(), tags }
}

#[test]
fn tag_map_lookup() {
    let mut tags = TagMap::new();
    assert!(tags.get("CONVERT").is_none());
    tags.insert("CONVERT".to_string(), "1".to_string());
    tags.insert("GENRE".to_string(), "House".to_string());
    assert_eq!(tags.get("CONVERT").map(|s| s.as_str()), Some("1"));
    assert_eq!(tags.get("GENRE").map(|s| s.as_str()), Some("House"));
    assert!(tags.get("convert").is_none());
    tags.insert("CONVERT".to_string(), "0".to_string());
    assert_eq!(tags.get("CONVERT").map(|s| s.as_str()), Some("0"));
}

#[test]
fn probe_without_streams_is_missing_data() {
    let report = ProbeReport { streams: None, format: Some(format("mp3", None)) };
    assert!(matches!(from_probe("/music/a.mp3", report), Err(ProbeError::MissingData)));
}

#[test]
fn probe_without_format_is_missing_data() {
    let report = ProbeReport {
        streams: Some(vec![stream("mp3", Some("44100"), None, Some("320000"))]),
        format: None,
    };
    assert!(matches!(from_probe("/music/a.mp3", report), Err(ProbeError::MissingData)));
}

#[test]
fn probe_with_empty_streams_is_missing_data() {
    let report = ProbeReport { streams: Some(vec![]), format: Some(format("mp3", None)) };
    assert!(matches!(from_probe("/music/a.mp3", report), Err(ProbeError::MissingData)));
}

#[test]
fn probe_of_lossy_file_reads_bit_rate() {
    let report = ProbeReport {
        streams: Some(vec![
            stream("mp3", Some("44100"), Some("fltp"), Some("320000")),
            stream("png", None, None, None),
        ]),
        format: Some(format("mp3", None)),
    };
    let song = from_probe("/home/user/Music/soy division mix.mp3", report).unwrap();
    assert_eq!(song.get_codec(), "mp3");
    assert_eq!(*song.get_format(), AudioFormatType::Lossy(SupportedAudioFormat::MP3));
    assert_eq!(song.get_song_path(), "/home/user/Music/soy division mix.mp3");
    assert_eq!(*song.get_sample_rate(), 44100);
    assert_eq!(*song.get_bit_info(), 320000);
    assert!(song.get_tags().is_none());
    assert!(song.is_rekordbox_format());
    assert_eq!(song.get_song_name(), "soy division mix");
}

#[test]
fn probe_of_lossless_file_reads_sample_format() {
    let mut tags = TagMap::new();
    tags.insert("OVERALL GENRE".to_string(), "House".to_string());
    let report = ProbeReport {
        streams: Some(vec![stream("flac", Some("96000"), Some("s32"), Some("1411000"))]),
        format: Some(format("flac", Some(tags))),
    };
    let song = from_probe("/music/Hanna - Intercession.flac", report).unwrap();
    assert_eq!(*song.get_format(), AudioFormatType::Lossless(SupportedAudioFormat::FLAC));
    assert_eq!(*song.get_sample_rate(), 96000);
    assert_eq!(*song.get_bit_info(), 32);
    assert!(!song.is_rekordbox_format());
    let tags = song.get_tags().as_ref().unwrap();
    assert_eq!(tags.get("OVERALL GENRE").map(|s| s.as_str()), Some("House"));
}

#[test]
fn probe_numeric_fields_default_to_zero() {
    let report = ProbeReport {
        streams: Some(vec![stream("pcm_s16le", Some("fast"), Some("s16p"), None)]),
        format: Some(format("wav", None)),
    };
    let song = from_probe("/music/a.wav", report).unwrap();
    assert_eq!(*song.get_sample_rate(), 0);
    assert_eq!(*song.get_bit_info(), 0);

    let report = ProbeReport {
        streams: Some(vec![stream("mp3", None, None, None)]),
        format: Some(format("mp3", None)),
    };
    let song = from_probe("/music/b.mp3", report).unwrap();
    assert_eq!(*song.get_sample_rate(), 0);
    assert_eq!(*song.get_bit_info(), 0);
}

#[test]
fn probe_numeric_field_forms() {
    let report = ProbeReport {
        streams: Some(vec![stream("mp3", Some("+48000"), None, Some("99999999999999999999999"))]),
        format: Some(format("mp3", None)),
    };
    let song = from_probe("/music/c.mp3", report).unwrap();
    assert_eq!(*song.get_sample_rate(), 48000);
    assert_eq!(*song.get_bit_info(), 0);

    let report = ProbeReport {
        streams: Some(vec![stream("pcm", Some("-1"), Some("s8"), None)]),
        format: Some(format("aiff", None)),
    };
    let song = from_probe("/music/d.aiff", report).unwrap();
    assert_eq!(*song.get_sample_rate(), 0);
    assert_eq!(*song.get_bit_info(), 8);
}

#[test]
fn probe_of_unsupported_file_has_no_bit_info() {
    let report = ProbeReport {
        streams: Some(vec![stream("opus", Some("48000"), Some("s16"), Some("128000"))]),
        format: Some(format("opus", None)),
    };
    let song = from_probe("/music/e.opus", report).unwrap();
    assert_eq!(*song.get_format(), AudioFormatType::Unsupported);
    assert_eq!(*song.get_sample_rate(), 48000);
    assert_eq!(*song.get_bit_info(), 0);
}

#[test]
fn song_names() {
    let name = |p: &str| {
        SongInfo::new(p.to_string(), String::new(), AudioFormatType::Unsupported, 0, 0, None).get_song_name()
    };
    assert_eq!(name("/music/a.b.flac"), "a.b");
    assert_eq!(name("/music/.hidden"), ".hidden");
    assert_eq!(name("noext"), "noext");
    assert_eq!(name("dir.d/file"), "file");
    assert_eq!(name("track.mp3"), "track");
    assert_eq!(name("/music/trailing."), "trailing");
}

#[test]
fn decimal_writing() {
    assert_eq!(decimal_string(0), "0");
    assert_eq!(decimal_string(7), "7");
    assert_eq!(decimal_string(44100), "44100");
    assert_eq!(decimal_string(usize::MAX), usize::MAX.to_string());
}

#[test]
fn string_from_chars() {
    assert_eq!(string_of(&vec!['a', 'é', '3']), "aé3");
    assert_eq!(string_of(&vec![]), "");
}
