use rekordbox_convert::{encode_args, encode_outcome, ConversionPlan, EncodeError, SupportedAudioFormat};

#[test]
fn encoder_arguments_for_aiff() {
    let plan = ConversionPlan {
        container: SupportedAudioFormat::AIFF,
        codec: "pcm_s16le".to_string(),
        sample_rate: 44100,
        bit_info: 16,
        tag_reset: Some("CONVERT=0".to_string()),
        output_path: "/out/a.aiff".to_string(),
    };
    let args = encode_args("/music/a.flac", &plan);
    let expected = vec![
        "-y", "-i", "/music/a.flac", "-acodec", "pcm_s16le", "-ar", "44100", "-write_id3v2", "1",
        "-metadata", "REKORDBOX=1", "-metadata", "CONVERT=0", "-sample_fmt", "s16", "/out/a.aiff",
    ];
    assert_eq!(args, expected);
}

#[test]
fn encoder_arguments_for_mp3_without_tag() {
    let plan = ConversionPlan {
        container: SupportedAudioFormat::MP3,
        codec: "mp3".to_string(),
        sample_rate: 22050,
        bit_info: 320000,
        tag_reset: None,
        output_path: "/out/b.mp3".to_string(),
    };
    let args = encode_args("/music/b.ogg", &plan);
    let expected = vec![
        "-y", "-i", "/music/b.ogg", "-acodec", "mp3", "-ar", "22050", "-write_id3v2", "1",
        "-metadata", "REKORDBOX=1", "-b:a", "320000", "/out/b.mp3",
    ];
    assert_eq!(args, expected);
}

#[test]
fn zero_exit_is_success() {
    assert!(encode_outcome(Some(0), String::new()).is_ok());
}

#[test]
fn nonzero_exit_is_error() {
    match encode_outcome(Some(1), "bad input".to_string()) {
        Err(EncodeError::NonZeroExit { code, diagnostics }) => {
            assert_eq!(code, Some(1));
            assert_eq!(diagnostics, "bad input");
        }
        other => panic!("unexpected {:?}", other),
    }
    match encode_outcome(None, "killed".to_string()) {
        Err(EncodeError::NonZeroExit { code, diagnostics }) => {
            assert_eq!(code, None);
            assert_eq!(diagnostics, "killed");
        }
        other => panic!("unexpected {:?}", other),
    }
    assert!(encode_outcome(Some(-1), String::new()).is_err());
}
