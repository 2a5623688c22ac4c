use vstd::prelude::*;

use crate::format::{AudioFormatType, SupportedAudioFormat};
use crate::paths::{file_name, file_stem, join, join_path};
use crate::song_info::{SongInfo, SongInfoView};
use crate::text::chars_of;

verus! {

/// The highest sample rate, in Hz, that the DJ library takes.
pub const MAX_SAMPLE_RATE: usize = 44100;

/// The highest bit depth of a lossless file that the DJ library takes.
pub const MAX_BIT_DEPTH: usize = 16;

/// The highest bit rate, in bits per second, of a lossy file that the DJ library takes.
pub const MAX_BIT_RATE: usize = 320000;

/// Why a file is left as it is.
#[derive(Clone, Copy, Debug, PartialEq, Eq, Structural)]
pub enum DecisionSkip {
    UnsupportedFormat,
    AlreadyCompliant,
    NotTagged,
}

/// How one file is to be converted.
#[derive(Clone, Debug)]
pub struct ConversionPlan {
    /// The output container: AIFF for a lossless source, MP3 for a lossy one.
    pub container: SupportedAudioFormat,
    /// The encoder's codec name.
    pub codec: String,
    pub sample_rate: usize,
    /// The bit depth of a lossless output, or the bit rate of a lossy one.
    pub bit_info: usize,
    /// The `name=0` metadata entry that clears the conversion tag, where one was named.
    pub tag_reset: Option<String>,
    pub output_path: String,
}

/// What to do with one file.
#[derive(Clone, Debug)]
pub enum Decision {
    Skip(DecisionSkip),
    Proceed(ConversionPlan),
}

pub open spec fn min(a: nat, b: nat) -> nat {
    if a <= b {
        a
    } else {
        b
    }
}

/// The file is in an accepted container, at an accepted sample rate and bit depth or bit rate.
pub open spec fn already_compliant(song: SongInfoView) -> bool {
    &&& song.sample_rate <= MAX_SAMPLE_RATE
    &&& match song.format {
        AudioFormatType::Lossless(f) => f.spec_is_rekordbox_container() && song.bit_info
            <= MAX_BIT_DEPTH,
        AudioFormatType::Lossy(f) => f.spec_is_rekordbox_container() && song.bit_info
            <= MAX_BIT_RATE,
        AudioFormatType::Unsupported => false,
    }
}

/// The value of the tag `tag` in the file's tags, where it has them and that one among them.
pub open spec fn tag_value(song: SongInfoView, tag: Seq<char>) -> Option<Seq<char>> {
    match song.tags {
        Some(m) => if m.contains_key(tag) {
            Some(m[tag])
        } else {
            None
        },
        None => None,
    }
}

/// The file carries the tag `tag` with the value `1`; where no tag is named, every file counts
/// as tagged.
pub open spec fn tagged_for_conversion(song: SongInfoView, tag: Seq<char>) -> bool {
    tag.len() == 0 || tag_value(song, tag) == Some(seq!['1'])
}

/// Why the file is skipped, checked in this order; none where it is to be converted.
pub open spec fn skip_reason(song: SongInfoView, tag: Seq<char>) -> Option<DecisionSkip> {
    if song.format is Unsupported {
        Some(DecisionSkip::UnsupportedFormat)
    } else if already_compliant(song) {
        Some(DecisionSkip::AlreadyCompliant)
    } else if !tagged_for_conversion(song, tag) {
        Some(DecisionSkip::NotTagged)
    } else {
        None
    }
}

pub open spec fn target_container(format: AudioFormatType) -> SupportedAudioFormat {
    if format is Lossless {
        SupportedAudioFormat::AIFF
    } else {
        SupportedAudioFormat::MP3
    }
}

pub open spec fn target_codec(format: AudioFormatType) -> Seq<char> {
    if format is Lossless {
        "pcm_s16le"@
    } else {
        "mp3"@
    }
}

/// The bit depth, or bit rate, of the output: the input's, capped.
pub open spec fn clamped_bit_info(song: SongInfoView) -> nat {
    if song.format is Lossless {
        min(song.bit_info, MAX_BIT_DEPTH as nat)
    } else {
        min(song.bit_info, MAX_BIT_RATE as nat)
    }
}

/// The metadata entry that sets the tag `tag` to `0`.
pub open spec fn tag_reset_entry(tag: Seq<char>) -> Seq<char> {
    tag + seq!['=', '0']
}

/// The output file's name: the source's name without its extension, then the output
/// container's.
pub open spec fn output_name(song: SongInfoView) -> Seq<char> {
    file_stem(file_name(song.path)) + seq!['.'] + target_container(song.format).spec_label()
}

/// The tag reset entry of a plan, as text.
pub open spec fn reset_entry(plan: ConversionPlan) -> Option<Seq<char>> {
    match plan.tag_reset {
        Some(t) => Some(t@),
        None => None,
    }
}

/// `plan` is the conversion of `song` into `output_dir`, with the conversion tag `tag`.
pub open spec fn is_plan_for(
    plan: ConversionPlan,
    song: SongInfoView,
    output_dir: Seq<char>,
    tag: Seq<char>,
) -> bool {
    &&& plan.container == target_container(song.format)
    &&& plan.codec@ == target_codec(song.format)
    &&& plan.sample_rate == min(song.sample_rate, MAX_SAMPLE_RATE as nat)
    &&& plan.bit_info == clamped_bit_info(song)
    &&& reset_entry(plan) == if tag.len() == 0 {
        None
    } else {
        Some(tag_reset_entry(tag))
    }
    &&& plan.output_path@ == join(output_dir, output_name(song))
}

/// Decides whether `song` is to be converted into `output_dir`, and how. An empty
/// `conversion_tag` converts every file that needs it; a named one only those tagged with it.
pub fn decide(song: &SongInfo, output_dir: &str, conversion_tag: &str) -> (r: Decision)
    ensures
        match r {
            Decision::Skip(reason) => skip_reason(song@, conversion_tag@) == Some(reason),
            Decision::Proceed(plan) => skip_reason(song@, conversion_tag@) is None && is_plan_for(
                plan,
                song@,
                output_dir@,
                conversion_tag@,
            ),
        },
{
    let format = *song.get_format();
    let lossless = match format {
        AudioFormatType::Lossless(_) => true,
        AudioFormatType::Lossy(_) => false,
        AudioFormatType::Unsupported => {
            return Decision::Skip(DecisionSkip::UnsupportedFormat);
        },
    };
    let sample_rate = *song.get_sample_rate();
    let bit_info = *song.get_bit_info();
    if sample_rate <= MAX_SAMPLE_RATE && song.is_rekordbox_format() {
        let within = if lossless {
            bit_info <= MAX_BIT_DEPTH
        } else {
            bit_info <= MAX_BIT_RATE
        };
        if within {
            return Decision::Skip(DecisionSkip::AlreadyCompliant);
        }
    }
    let tag_reset = if conversion_tag.unicode_len() == 0 {
        None
    } else {
        let tagged = match song.get_tags() {
            Some(tags) => match tags.get(conversion_tag) {
                Some(v) => {
                    let one = "1".to_string();
                    proof {
                        reveal_strlit("1");
                    }
                    assert(one@ =~= seq!['1']);
                    *v == one
                },
                None => false,
            },
            None => false,
        };
        if !tagged {
            return Decision::Skip(DecisionSkip::NotTagged);
        }
        let mut entry = conversion_tag.to_string();
        entry.append("=0");
        proof {
            reveal_strlit("=0");
        }
        assert(entry@ =~= tag_reset_entry(conversion_tag@));
        Some(entry)
    };
    let container = if lossless {
        SupportedAudioFormat::AIFF
    } else {
        SupportedAudioFormat::MP3
    };
    let codec = if lossless {
        "pcm_s16le".to_string()
    } else {
        "mp3".to_string()
    };
    let bit_cap = if lossless {
        MAX_BIT_DEPTH
    } else {
        MAX_BIT_RATE
    };
    let mut name = chars_of(song.get_song_name().as_str());
    name.push('.');
    let mut ext = chars_of(container.label());
    name.append(&mut ext);
    assert(name@ =~= output_name(song@));
    let output_path = join_path(output_dir, &name);
    Decision::Proceed(
        ConversionPlan {
            container,
            codec,
            sample_rate: if sample_rate < MAX_SAMPLE_RATE {
                sample_rate
            } else {
                MAX_SAMPLE_RATE
            },
            bit_info: if bit_info < bit_cap {
                bit_info
            } else {
                bit_cap
            },
            tag_reset,
            output_path,
        },
    )
}

/// A lossless AIFF or WAV file at no more than 44100 Hz and 16 bits is left as it is, whatever
/// the conversion tag.
pub proof fn lemma_compliant_lossless_is_skipped(song: SongInfoView, tag: Seq<char>)
    requires
        song.format == AudioFormatType::Lossless(SupportedAudioFormat::AIFF) || song.format
            == AudioFormatType::Lossless(SupportedAudioFormat::WAV),
        song.sample_rate <= MAX_SAMPLE_RATE,
        song.bit_info <= MAX_BIT_DEPTH,
    ensures
        skip_reason(song, tag) == Some(DecisionSkip::AlreadyCompliant),
{
}

/// A lossy MP3 or AAC file at no more than 44100 Hz and 320000 bits per second is left as it is,
/// whatever the conversion tag.
pub proof fn lemma_compliant_lossy_is_skipped(song: SongInfoView, tag: Seq<char>)
    requires
        song.format == AudioFormatType::Lossy(SupportedAudioFormat::MP3) || song.format
            == AudioFormatType::Lossy(SupportedAudioFormat::AAC),
        song.sample_rate <= MAX_SAMPLE_RATE,
        song.bit_info <= MAX_BIT_RATE,
    ensures
        skip_reason(song, tag) == Some(DecisionSkip::AlreadyCompliant),
{
}

/// A FLAC or OGG file is never already compliant, whatever its sample rate and bit depth or rate.
pub proof fn lemma_flac_ogg_never_compliant(song: SongInfoView, tag: Seq<char>)
    requires
        song.format.spec_container() == Some(SupportedAudioFormat::FLAC) || song.format.spec_container()
            == Some(SupportedAudioFormat::OGG),
    ensures
        skip_reason(song, tag) != Some(DecisionSkip::AlreadyCompliant),
{
}

/// With a conversion tag named, a file that needs converting but lacks the tag, or holds it with
/// the value `0`, is skipped as not tagged; one that holds it with the value `1` is converted,
/// and its plan resets the tag to `0`.
pub proof fn lemma_tag_filter(
    song: SongInfoView,
    tag: Seq<char>,
    output_dir: Seq<char>,
    plan: ConversionPlan,
)
    requires
        tag.len() > 0,
        !(song.format is Unsupported),
        !already_compliant(song),
    ensures
        tag_value(song, tag) is None || tag_value(song, tag) == Some(seq!['0']) ==> skip_reason(
            song,
            tag,
        ) == Some(DecisionSkip::NotTagged),
        tag_value(song, tag) == Some(seq!['1']) ==> skip_reason(song, tag) is None,
        tag_value(song, tag) == Some(seq!['1']) && is_plan_for(plan, song, output_dir, tag)
            ==> reset_entry(plan) == Some(tag + seq!['=', '0']),
{
    assert(seq!['0'][0] != seq!['1'][0]);
}

/// With no conversion tag named, no file is skipped as not tagged.
pub proof fn lemma_no_tag_no_filter(song: SongInfoView)
    ensures
        skip_reason(song, Seq::empty()) != Some(DecisionSkip::NotTagged),
{
}

/// A converted file holds the conversion tag with the value that its plan's reset entry wrote,
/// so a later run with the same tag does not convert it again.
pub proof fn lemma_converted_file_not_reconverted(
    plan: ConversionPlan,
    song: SongInfoView,
    output_dir: Seq<char>,
    tag: Seq<char>,
    converted: SongInfoView,
)
    requires
        tag.len() > 0,
        is_plan_for(plan, song, output_dir, tag),
        tag_value(converted, tag) is Some,
        reset_entry(plan) == Some(tag + seq!['='] + tag_value(converted, tag)->0),
    ensures
        skip_reason(converted, tag) is Some,
{
    let v = tag_value(converted, tag)->0;
    let t = reset_entry(plan)->0;
    assert(t[tag.len() + 1int] == v[0]);
    assert(v.len() == 1);
    assert(v != seq!['1']);
}

} // verus!
