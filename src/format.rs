use vstd::prelude::*;

use crate::text::{
    all_white_space, ascii_lower, ascii_lowercase, chars_of, is_white_space,
    lemma_trim_end_padding, lemma_trim_end_split, lemma_trim_start_padding, lemma_trim_start_split,
    lowers_to_word, trim, trim_bounds, trim_start,
};

verus! {

/// How a probed file is classified: a supported container, lossless or lossy, or none that the
/// converter handles.
#[derive(Clone, Copy, Debug, PartialEq, Eq, Structural)]
pub enum AudioFormatType {
    Lossless(SupportedAudioFormat),
    Lossy(SupportedAudioFormat),
    Unsupported,
}

/// A label that names none of the supported containers.
#[derive(Clone, Copy, Debug, PartialEq, Eq, Structural)]
pub struct UnsupportedLabel;

/// The six containers the converter recognises.
#[derive(Clone, Copy, Debug, PartialEq, Eq, Structural)]
pub enum SupportedAudioFormat {
    AIFF,
    FLAC,
    WAV,
    MP3,
    OGG,
    AAC,
}

impl SupportedAudioFormat {
    /// The lower-case name of the container, as a probe reports it.
    pub open spec fn spec_label(self) -> Seq<char> {
        match self {
            SupportedAudioFormat::AIFF => seq!['a', 'i', 'f', 'f'],
            SupportedAudioFormat::FLAC => seq!['f', 'l', 'a', 'c'],
            SupportedAudioFormat::WAV => seq!['w', 'a', 'v'],
            SupportedAudioFormat::MP3 => seq!['m', 'p', '3'],
            SupportedAudioFormat::OGG => seq!['o', 'g', 'g'],
            SupportedAudioFormat::AAC => seq!['a', 'a', 'c'],
        }
    }

    pub open spec fn spec_is_lossless(self) -> bool {
        match self {
            SupportedAudioFormat::AIFF | SupportedAudioFormat::FLAC | SupportedAudioFormat::WAV => true,
            _ => false,
        }
    }

    /// The containers the DJ library accepts as they are.
    pub open spec fn spec_is_rekordbox_container(self) -> bool {
        match self {
            SupportedAudioFormat::AIFF
            | SupportedAudioFormat::WAV
            | SupportedAudioFormat::MP3
            | SupportedAudioFormat::AAC => true,
            _ => false,
        }
    }

    /// The class a container belongs to: AIFF, FLAC and WAV are lossless, the others lossy.
    pub open spec fn spec_class(self) -> AudioFormatType {
        if self.spec_is_lossless() {
            AudioFormatType::Lossless(self)
        } else {
            AudioFormatType::Lossy(self)
        }
    }

    /// The container that `s` names: its text without surrounding white space, compared without
    /// regard to ASCII case.
    pub open spec fn spec_from_label(s: Seq<char>) -> Option<SupportedAudioFormat> {
        let w = ascii_lowercase(trim(s));
        if w == SupportedAudioFormat::AIFF.spec_label() {
            Some(SupportedAudioFormat::AIFF)
        } else if w == SupportedAudioFormat::FLAC.spec_label() {
            Some(SupportedAudioFormat::FLAC)
        } else if w == SupportedAudioFormat::WAV.spec_label() {
            Some(SupportedAudioFormat::WAV)
        } else if w == SupportedAudioFormat::MP3.spec_label() {
            Some(SupportedAudioFormat::MP3)
        } else if w == SupportedAudioFormat::OGG.spec_label() {
            Some(SupportedAudioFormat::OGG)
        } else if w == SupportedAudioFormat::AAC.spec_label() {
            Some(SupportedAudioFormat::AAC)
        } else {
            None
        }
    }

    pub fn from_label(s: &str) -> (r: Option<SupportedAudioFormat>)
        ensures
            r == Self::spec_from_label(s@),
    {
        let cs = chars_of(s);
        let (i, j) = trim_bounds(&cs);
        if lowers_to_word(&cs, i, j, SupportedAudioFormat::AIFF.label()) {
            Some(SupportedAudioFormat::AIFF)
        } else if lowers_to_word(&cs, i, j, SupportedAudioFormat::FLAC.label()) {
            Some(SupportedAudioFormat::FLAC)
        } else if lowers_to_word(&cs, i, j, SupportedAudioFormat::WAV.label()) {
            Some(SupportedAudioFormat::WAV)
        } else if lowers_to_word(&cs, i, j, SupportedAudioFormat::MP3.label()) {
            Some(SupportedAudioFormat::MP3)
        } else if lowers_to_word(&cs, i, j, SupportedAudioFormat::OGG.label()) {
            Some(SupportedAudioFormat::OGG)
        } else if lowers_to_word(&cs, i, j, SupportedAudioFormat::AAC.label()) {
            Some(SupportedAudioFormat::AAC)
        } else {
            None
        }
    }

    pub fn is_lossless(&self) -> (r: bool)
        ensures
            r == self.spec_is_lossless(),
    {
        match self {
            SupportedAudioFormat::AIFF | SupportedAudioFormat::FLAC | SupportedAudioFormat::WAV => true,
            _ => false,
        }
    }

    /// The container's lower-case name, as used for file extensions.
    pub fn to_string(&self) -> (r: String)
        ensures
            r@ == self.spec_label(),
    {
        self.label().to_string()
    }

    pub fn label(&self) -> (r: &'static str)
        ensures
            r@ == self.spec_label(),
    {
        match self {
            SupportedAudioFormat::AIFF => {
                proof {
                    reveal_strlit("aiff");
                }
                assert("aiff"@ =~= seq!['a', 'i', 'f', 'f']);
                "aiff"
            },
            SupportedAudioFormat::FLAC => {
                proof {
                    reveal_strlit("flac");
                }
                assert("flac"@ =~= seq!['f', 'l', 'a', 'c']);
                "flac"
            },
            SupportedAudioFormat::WAV => {
                proof {
                    reveal_strlit("wav");
                }
                assert("wav"@ =~= seq!['w', 'a', 'v']);
                "wav"
            },
            SupportedAudioFormat::MP3 => {
                proof {
                    reveal_strlit("mp3");
                }
                assert("mp3"@ =~= seq!['m', 'p', '3']);
                "mp3"
            },
            SupportedAudioFormat::OGG => {
                proof {
                    reveal_strlit("ogg");
                }
                assert("ogg"@ =~= seq!['o', 'g', 'g']);
                "ogg"
            },
            SupportedAudioFormat::AAC => {
                proof {
                    reveal_strlit("aac");
                }
                assert("aac"@ =~= seq!['a', 'a', 'c']);
                "aac"
            },
        }
    }
}

impl From<SupportedAudioFormat> for AudioFormatType {
    fn from(value: SupportedAudioFormat) -> (r: AudioFormatType) {
        if value.is_lossless() {
            AudioFormatType::Lossless(value)
        } else {
            AudioFormatType::Lossy(value)
        }
    }
}

impl vstd::std_specs::convert::FromSpecImpl<SupportedAudioFormat> for AudioFormatType {
    open spec fn obeys_from_spec() -> bool {
        true
    }

    open spec fn from_spec(v: SupportedAudioFormat) -> AudioFormatType {
        v.spec_class()
    }
}

impl AudioFormatType {
    /// The container of a supported format.
    pub open spec fn spec_container(self) -> Option<SupportedAudioFormat> {
        match self {
            AudioFormatType::Lossless(f) | AudioFormatType::Lossy(f) => Some(f),
            AudioFormatType::Unsupported => None,
        }
    }

    /// A supported container that the DJ library accepts as it is.
    pub open spec fn spec_is_rekordbox_format(self) -> bool {
        match self {
            AudioFormatType::Lossless(f) | AudioFormatType::Lossy(f) => f.spec_is_rekordbox_container(),
            AudioFormatType::Unsupported => false,
        }
    }

    pub fn is_rekordbox_format(&self) -> (r: bool)
        ensures
            r == self.spec_is_rekordbox_format(),
    {
        match self {
            AudioFormatType::Lossless(f) | AudioFormatType::Lossy(f) => match f {
                SupportedAudioFormat::AIFF
                | SupportedAudioFormat::WAV
                | SupportedAudioFormat::MP3
                | SupportedAudioFormat::AAC => true,
                _ => false,
            },
            AudioFormatType::Unsupported => false,
        }
    }

    /// The class of a raw format label; a label naming no supported container is `Unsupported`.
    pub open spec fn spec_classify(s: Seq<char>) -> AudioFormatType {
        match SupportedAudioFormat::spec_from_label(s) {
            Some(f) => f.spec_class(),
            None => AudioFormatType::Unsupported,
        }
    }

    pub fn classify(s: &str) -> (r: AudioFormatType)
        ensures
            r == Self::spec_classify(s@),
    {
        match SupportedAudioFormat::from_label(s) {
            Some(f) => AudioFormatType::from(f),
            None => AudioFormatType::Unsupported,
        }
    }
}

/// `pre`, then `word`, then `post`.
pub open spec fn padded(pre: Seq<char>, word: Seq<char>, post: Seq<char>) -> Seq<char> {
    pre + word + post
}

/// `word` spells the name of `f`, each letter in either case.
pub open spec fn spells(word: Seq<char>, f: SupportedAudioFormat) -> bool {
    ascii_lowercase(word) == f.spec_label()
}

/// `s` is the name of `f`, in any mix of cases, with any white space before and after it.
pub open spec fn written_as(s: Seq<char>, f: SupportedAudioFormat) -> bool {
    exists|pre: Seq<char>, word: Seq<char>, post: Seq<char>|
        #[trigger] padded(pre, word, post) == s && all_white_space(pre) && all_white_space(post)
            && spells(word, f)
}

proof fn lemma_spelled_ends(word: Seq<char>, f: SupportedAudioFormat)
    requires
        spells(word, f),
    ensures
        word.len() > 0,
        !is_white_space(word[0]),
        !is_white_space(word.last()),
{
    let l = f.spec_label();
    assert(ascii_lowercase(word).len() == word.len());
    assert(ascii_lower(word[0]) == l[0]);
    assert(ascii_lower(word.last()) == l[l.len() - 1]);
}

/// Classifying a label that writes a supported container's name, in any case and with any
/// surrounding white space, gives that container's class.
pub proof fn lemma_classify_written_name(s: Seq<char>, f: SupportedAudioFormat)
    requires
        written_as(s, f),
    ensures
        AudioFormatType::spec_classify(s) == f.spec_class(),
{
    let (pre, word, post) = choose|pre: Seq<char>, word: Seq<char>, post: Seq<char>|
        #[trigger] padded(pre, word, post) == s && all_white_space(pre) && all_white_space(post)
            && spells(word, f);
    lemma_spelled_ends(word, f);
    assert(s =~= pre + (word + post));
    lemma_trim_start_padding(pre, word + post);
    lemma_trim_end_padding(word, post);
    assert(trim(s) == word);
}

/// Any label that writes none of the supported containers' names is `Unsupported`.
pub proof fn lemma_classify_other_label(s: Seq<char>)
    requires
        forall|f: SupportedAudioFormat| !written_as(s, f),
    ensures
        AudioFormatType::spec_classify(s) == AudioFormatType::Unsupported,
{
    if let Some(f) = SupportedAudioFormat::spec_from_label(s) {
        let ts = trim_start(s);
        let k = s.len() - ts.len();
        lemma_trim_start_split(s);
        lemma_trim_end_split(ts);
        let word = trim(s);
        let pre = s.take(k);
        let post = ts.skip(word.len() as int);
        assert(s =~= pre + ts);
        assert(ts =~= word + post);
        assert(padded(pre, word, post) == s);
        assert(spells(word, f));
        assert(written_as(s, f));
    }
}

impl std::str::FromStr for SupportedAudioFormat {
    type Err = UnsupportedLabel;

    fn from_str(s: &str) -> (r: Result<SupportedAudioFormat, UnsupportedLabel>)
        ensures
            match r {
                Ok(f) => SupportedAudioFormat::spec_from_label(s@) == Some(f),
                Err(_) => SupportedAudioFormat::spec_from_label(s@) is None,
            },
    {
        match SupportedAudioFormat::from_label(s) {
            Some(f) => Ok(f),
            None => Err(UnsupportedLabel),
        }
    }
}

impl std::str::FromStr for AudioFormatType {
    type Err = std::convert::Infallible;

    /// Classification never fails: a label naming no supported container is `Unsupported`.
    fn from_str(s: &str) -> (r: Result<AudioFormatType, std::convert::Infallible>)
        ensures
            match r {
                Ok(v) => v == AudioFormatType::spec_classify(s@),
                Err(_) => false,
            },
    {
        Ok(AudioFormatType::classify(s))
    }
}

} // verus!
