use vstd::prelude::*;

use crate::format::AudioFormatType;
use crate::paths::{file_name, file_stem, stem_of_path};
use crate::text::{chars_of, drop_letter_s, parse_usize, string_of, without_letter_s};

verus! {

/// The tags of a file's container: names mapped to values.
#[derive(Clone, Debug)]
pub struct TagMap {
    entries: Vec<(String, String)>,
}

/// The map that a list of entries writes, a later entry overriding an earlier one of the same
/// name.
spec fn entries_map(s: Seq<(String, String)>) -> Map<Seq<char>, Seq<char>>
    decreases s.len(),
{
    if s.len() == 0 {
        Map::empty()
    } else {
        entries_map(s.drop_last()).insert(s.last().0@, s.last().1@)
    }
}

impl View for TagMap {
    type V = Map<Seq<char>, Seq<char>>;

    closed spec fn view(&self) -> Map<Seq<char>, Seq<char>> {
        entries_map(self.entries@)
    }
}

impl TagMap {
    pub fn new() -> (r: TagMap)
        ensures
            r@ == Map::<Seq<char>, Seq<char>>::empty(),
    {
        TagMap { entries: Vec::new() }
    }

    /// Sets the tag `key` to `value`, replacing any value it had.
    pub fn insert(&mut self, key: String, value: String)
        ensures
            final(self)@ == old(self)@.insert(key@, value@),
    {
        self.entries.push((key, value));
        assert(self.entries@.drop_last() =~= old(self).entries@);
    }

    /// The value of the tag `key`, if the map holds it.
    pub fn get(&self, key: &str) -> (r: Option<&String>)
        ensures
            match r {
                Some(v) => self@.contains_key(key@) && self@[key@] == v@,
                None => !self@.contains_key(key@),
            },
    {
        let k = key.to_string();
        let mut j: usize = self.entries.len();
        assert(self.entries@.take(j as int) =~= self.entries@);
        while j > 0
            invariant
                j <= self.entries.len(),
                k@ == key@,
                entries_map(self.entries@.take(j as int)).contains_key(key@)
                    == self@.contains_key(key@),
                self@.contains_key(key@) ==> self@[key@] == entries_map(
                    self.entries@.take(j as int),
                )[key@],
            decreases j,
        {
            assert(self.entries@.take(j as int).drop_last() =~= self.entries@.take(j - 1));
            if self.entries[j - 1].0 == k {
                return Some(&self.entries[j - 1].1);
            }
            j = j - 1;
        }
        None
    }
}

/// The first stream of a probe report, its numeric fields still as the probe wrote them.
#[derive(Clone, Debug)]
pub struct ProbeStream {
    pub codec_name: String,
    pub sample_rate: Option<String>,
    pub sample_fmt: Option<String>,
    pub bit_rate: Option<String>,
}

/// The container section of a probe report.
#[derive(Clone, Debug)]
pub struct ProbeFormat {
    pub format_name: String,
    pub tags: Option<TagMap>,
}

/// What the probe tool reports of one file.
#[derive(Clone, Debug)]
pub struct ProbeReport {
    pub streams: Option<Vec<ProbeStream>>,
    pub format: Option<ProbeFormat>,
}

/// Why no metadata could be built for a file.
#[derive(Clone, Debug)]
pub enum ProbeError {
    /// The probe ran but reported no stream or no container section.
    MissingData,
    /// The probe could not be run, or what it wrote could not be read.
    ProcessFailure(String),
}

/// What the converter knows of one audio file.
#[derive(Clone, Debug)]
pub struct SongInfo {
    codec: String,
    format: AudioFormatType,
    song_path: String,
    sample_rate: usize,
    bit_info: usize,
    tags: Option<TagMap>,
}

/// The contents of a `SongInfo`. `bit_info` is the bit depth of a lossless file and the bit rate
/// of a lossy one.
pub struct SongInfoView {
    pub codec: Seq<char>,
    pub format: AudioFormatType,
    pub path: Seq<char>,
    pub sample_rate: nat,
    pub bit_info: nat,
    pub tags: Option<Map<Seq<char>, Seq<char>>>,
}

pub open spec fn tags_view(t: Option<TagMap>) -> Option<Map<Seq<char>, Seq<char>>> {
    match t {
        Some(m) => Some(m@),
        None => None,
    }
}

impl View for SongInfo {
    type V = SongInfoView;

    closed spec fn view(&self) -> SongInfoView {
        SongInfoView {
            codec: self.codec@,
            format: self.format,
            path: self.song_path@,
            sample_rate: self.sample_rate as nat,
            bit_info: self.bit_info as nat,
            tags: tags_view(self.tags),
        }
    }
}

/// The number a numeric probe field holds: the field with its `s` characters taken out, read as
/// a decimal number; 0 where the field is absent or is no such number.
pub open spec fn field_value(field: Option<String>) -> nat {
    match field {
        Some(s) => match parse_usize(without_letter_s(s@)) {
            Some(n) => n as nat,
            None => 0,
        },
        None => 0,
    }
}

/// The metadata that a probe report gives for the file at `path`: none where the report lacks
/// a stream or a container section.
pub open spec fn spec_from_probe(path: Seq<char>, report: ProbeReport) -> Option<SongInfoView> {
    match (report.streams, report.format) {
        (Some(streams), Some(f)) => {
            if streams.len() > 0 {
                let s = streams[0];
                let format = AudioFormatType::spec_classify(f.format_name@);
                let bit_info = match format {
                    AudioFormatType::Lossless(_) => field_value(s.sample_fmt),
                    AudioFormatType::Lossy(_) => field_value(s.bit_rate),
                    AudioFormatType::Unsupported => 0,
                };
                Some(
                    SongInfoView {
                        codec: s.codec_name@,
                        format,
                        path,
                        sample_rate: field_value(s.sample_rate),
                        bit_info,
                        tags: tags_view(f.tags),
                    },
                )
            } else {
                None
            }
        },
        _ => None,
    }
}

impl SongInfo {
    pub fn new(
        song_path: String,
        codec: String,
        format: AudioFormatType,
        sample_rate: usize,
        bit_info: usize,
        tags: Option<TagMap>,
    ) -> (r: SongInfo)
        requires
            format.spec_container() is Some ==> format == format.spec_container()->Some_0.spec_class(),
        ensures
            r@ == (SongInfoView {
                codec: codec@,
                format,
                path: song_path@,
                sample_rate: sample_rate as nat,
                bit_info: bit_info as nat,
                tags: tags_view(tags),
            }),
    {
        SongInfo { codec, format, song_path, sample_rate, bit_info, tags }
    }

    pub fn get_codec(&self) -> (r: &str)
        ensures
            r@ == self@.codec,
    {
        self.codec.as_str()
    }

    pub fn get_format(&self) -> (r: &AudioFormatType)
        ensures
            *r == self@.format,
    {
        &self.format
    }

    pub fn get_song_path(&self) -> (r: &str)
        ensures
            r@ == self@.path,
    {
        self.song_path.as_str()
    }

    /// The file's name without its directory and extension.
    pub fn get_song_name(&self) -> (r: String)
        ensures
            r@ == file_stem(file_name(self@.path)),
    {
        string_of(&stem_of_path(&chars_of(self.song_path.as_str())))
    }

    pub fn get_sample_rate(&self) -> (r: &usize)
        ensures
            *r as nat == self@.sample_rate,
    {
        &self.sample_rate
    }

    pub fn get_bit_info(&self) -> (r: &usize)
        ensures
            *r as nat == self@.bit_info,
    {
        &self.bit_info
    }

    pub fn get_tags(&self) -> (r: &Option<TagMap>)
        ensures
            tags_view(*r) == self@.tags,
    {
        &self.tags
    }

    /// Whether the file's container is one the DJ library accepts.
    pub fn is_rekordbox_format(&self) -> (r: bool)
        ensures
            r == self@.format.spec_is_rekordbox_format(),
    {
        self.format.is_rekordbox_format()
    }
}

/// Reads a numeric probe field.
pub fn read_field(field: &Option<String>) -> (r: usize)
    ensures
        r as nat == field_value(*field),
{
    match field {
        Some(s) => match crate::text::parse_usize_chars(&drop_letter_s(s.as_str())) {
            Some(n) => n,
            None => 0,
        },
        None => 0,
    }
}

/// Builds the metadata of the file at `path` from what the probe reported of it.
pub fn from_probe(path: &str, report: ProbeReport) -> (r: Result<SongInfo, ProbeError>)
    ensures
        match r {
            Ok(song) => spec_from_probe(path@, report) == Some(song@),
            Err(e) => e is MissingData && spec_from_probe(path@, report) is None,
        },
{
    match (report.streams, report.format) {
        (Some(mut streams), Some(f)) => {
            if streams.len() == 0 {
                return Err(ProbeError::MissingData);
            }
            let s = streams.remove(0);
            let format = AudioFormatType::classify(f.format_name.as_str());
            let bit_info = match format {
                AudioFormatType::Lossless(_) => read_field(&s.sample_fmt),
                AudioFormatType::Lossy(_) => read_field(&s.bit_rate),
                AudioFormatType::Unsupported => 0,
            };
            let sample_rate = read_field(&s.sample_rate);
            Ok(
                SongInfo {
                    codec: s.codec_name,
                    format,
                    song_path: path.to_string(),
                    sample_rate,
                    bit_info,
                    tags: f.tags,
                },
            )
        },
        _ => Err(ProbeError::MissingData),
    }
}

} // verus!
