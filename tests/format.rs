use rekordbox_convert::{AudioFormatType, SupportedAudioFormat, UnsupportedLabel};

#[test]
fn classify_plain_labels() {
    assert_eq!(AudioFormatType::classify("aiff"), AudioFormatType::Lossless(SupportedAudioFormat::AIFF));
    assert_eq!(AudioFormatType::classify("flac"), AudioFormatType::Lossless(SupportedAudioFormat::FLAC));
    assert_eq!(AudioFormatType::classify("wav"), AudioFormatType::Lossless(SupportedAudioFormat::WAV));
    assert_eq!(AudioFormatType::classify("mp3"), AudioFormatType::Lossy(SupportedAudioFormat::MP3));
    assert_eq!(AudioFormatType::classify("ogg"), AudioFormatType::Lossy(SupportedAudioFormat::OGG));
    assert_eq!(AudioFormatType::classify("aac"), AudioFormatType::Lossy(SupportedAudioFormat::AAC));
}

#[test]
fn classify_any_case_with_whitespace() {
    assert_eq!(AudioFormatType::classify("  MP3\n"), AudioFormatType::Lossy(SupportedAudioFormat::MP3));
    assert_eq!(AudioFormatType::classify("\tFlAc "), AudioFormatType::Lossless(SupportedAudioFormat::FLAC));
    assert_eq!(AudioFormatType::classify("AIFF"), AudioFormatType::Lossless(SupportedAudioFormat::AIFF));
    assert_eq!(
        AudioFormatType::classify("\u{a0}Wav\u{3000}"),
        AudioFormatType::Lossless(SupportedAudioFormat::WAV)
    );
    assert_eq!(AudioFormatType::classify("\r\nOgG"), AudioFormatType::Lossy(SupportedAudioFormat::OGG));
    assert_eq!(AudioFormatType::classify("aAc\u{2003}"), AudioFormatType::Lossy(SupportedAudioFormat::AAC));
}

#[test]
fn classify_other_labels_unsupported() {
    assert_eq!(AudioFormatType::classify(""), AudioFormatType::Unsupported);
    assert_eq!(AudioFormatType::classify("   "), AudioFormatType::Unsupported);
    assert_eq!(AudioFormatType::classify("m4a"), AudioFormatType::Unsupported);
    assert_eq!(AudioFormatType::classify("mp3 x"), AudioFormatType::Unsupported);
    assert_eq!(AudioFormatType::classify("m p3"), AudioFormatType::Unsupported);
    assert_eq!(AudioFormatType::classify("mp33"), AudioFormatType::Unsupported);
    assert_eq!(AudioFormatType::classify("mov,mp4,m4a,3gp,3g2,mj2"), AudioFormatType::Unsupported);
    assert_eq!(AudioFormatType::classify("_mp3"), AudioFormatType::Unsupported);
}

#[test]
fn parse_through_from_str() {
    assert_eq!(" wav ".parse::<SupportedAudioFormat>(), Ok(SupportedAudioFormat::WAV));
    assert_eq!("opus".parse::<SupportedAudioFormat>(), Err(UnsupportedLabel));
    assert_eq!("Mp3".parse::<AudioFormatType>(), Ok(AudioFormatType::Lossy(SupportedAudioFormat::MP3)));
    assert_eq!("opus".parse::<AudioFormatType>(), Ok(AudioFormatType::Unsupported));
}

#[test]
fn from_label_names_container() {
    assert_eq!(SupportedAudioFormat::from_label(" AAC "), Some(SupportedAudioFormat::AAC));
    assert_eq!(SupportedAudioFormat::from_label("aacx"), None);
}

#[test]
fn container_names() {
    assert_eq!(SupportedAudioFormat::AIFF.to_string(), "aiff");
    assert_eq!(SupportedAudioFormat::FLAC.to_string(), "flac");
    assert_eq!(SupportedAudioFormat::WAV.to_string(), "wav");
    assert_eq!(SupportedAudioFormat::MP3.to_string(), "mp3");
    assert_eq!(SupportedAudioFormat::OGG.to_string(), "ogg");
    assert_eq!(SupportedAudioFormat::AAC.to_string(), "aac");
    assert_eq!(SupportedAudioFormat::MP3.label(), "mp3");
}

#[test]
fn container_classes() {
    assert_eq!(AudioFormatType::from(SupportedAudioFormat::AIFF), AudioFormatType::Lossless(SupportedAudioFormat::AIFF));
    assert_eq!(AudioFormatType::from(SupportedAudioFormat::FLAC), AudioFormatType::Lossless(SupportedAudioFormat::FLAC));
    assert_eq!(AudioFormatType::from(SupportedAudioFormat::WAV), AudioFormatType::Lossless(SupportedAudioFormat::WAV));
    assert_eq!(AudioFormatType::from(SupportedAudioFormat::MP3), AudioFormatType::Lossy(SupportedAudioFormat::MP3));
    assert_eq!(AudioFormatType::from(SupportedAudioFormat::OGG), AudioFormatType::Lossy(SupportedAudioFormat::OGG));
    assert_eq!(AudioFormatType::from(SupportedAudioFormat::AAC), AudioFormatType::Lossy(SupportedAudioFormat::AAC));
    assert!(SupportedAudioFormat::WAV.is_lossless());
    assert!(!SupportedAudioFormat::OGG.is_lossless());
}

#[test]
fn rekordbox_containers() {
    assert!(AudioFormatType::Lossless(SupportedAudioFormat::AIFF).is_rekordbox_format());
    assert!(AudioFormatType::Lossless(SupportedAudioFormat::WAV).is_rekordbox_format());
    assert!(AudioFormatType::Lossy(SupportedAudioFormat::MP3).is_rekordbox_format());
    assert!(AudioFormatType::Lossy(SupportedAudioFormat::AAC).is_rekordbox_format());
    assert!(!AudioFormatType::Lossless(SupportedAudioFormat::FLAC).is_rekordbox_format());
    assert!(!AudioFormatType::Lossy(SupportedAudioFormat::OGG).is_rekordbox_format());
    assert!(!AudioFormatType::Unsupported.is_rekordbox_format());
}
