//! Audio sample events: a sound played at a time on a layer.
use vstd::prelude::*;

use crate::events::storyboard::sprites::FilePath;
use crate::hitobjects::{i32_field, i32_field_exec};
use crate::text::{
    eq_str, int_text, join, join_chars, parse_int_spec, parse_u8, parse_usize, push_int, push_part,
    split, split_chars, starts_with, starts_with_str, string_from_chars, vv, ParseIntError,
};
use crate::types::{Integer, Version, VersionedFromStr, VersionedToString};

verus! {

/// Error reading an audio sample event.
#[derive(Clone, Copy, Debug, Hash, PartialEq, Eq)]
pub enum ParseAudioSampleError {
    MissingTime,
    InvalidTime,
    MissingLayer,
    InvalidLayer,
    MissingVolume,
    InvalidVolume,
    WrongEvent,
    MissingFilepath,
}

/// Error setting a volume.
#[derive(Clone, Copy, Debug, Hash, PartialEq, Eq)]
pub enum VolumeSetError {
    /// The volume is above 100.
    VolumeTooHigh,
    /// The volume is 0; it must be 1 to 100.
    VolumeTooLow,
}

/// Error reading a volume.
#[derive(Clone, Copy, Debug, Hash, PartialEq, Eq)]
pub enum ParseVolumeError {
    /// The text is not a byte.
    ParseIntError(ParseIntError),
    /// The byte is no volume.
    VolumeSetError(VolumeSetError),
}

/// Volume of an audio sample, 1 to 100; none given means 100.
#[derive(Clone, Copy, Debug, Hash, PartialEq, Eq)]
pub struct Volume(Option<u8>);

impl Default for Volume {
    /// No volume given, which stands for 100.
    fn default() -> (r: Volume)
        ensures
            r@ == None::<u8>,
            volume_value(r@) == 100,
    {
        Volume(None)
    }
}

impl View for Volume {
    type V = Option<u8>;

    closed spec fn view(&self) -> Option<u8> {
        self.0
    }
}

/// Whether a byte is a volume, and the error where it is not.
pub open spec fn volume_check(v: u8) -> Result<u8, VolumeSetError> {
    if v > 100 {
        Err(VolumeSetError::VolumeTooHigh)
    } else if v == 0 {
        Err(VolumeSetError::VolumeTooLow)
    } else {
        Ok(v)
    }
}

/// The volume a volume stands for: 100 where none is given.
pub open spec fn volume_value(v: Option<u8>) -> u8 {
    match v {
        Some(x) => x,
        None => 100,
    }
}

impl Volume {
    #[verifier::type_invariant]
    closed spec fn inv(self) -> bool {
        self.0 matches Some(v) ==> 1 <= v <= 100
    }

    /// A volume of 1 to 100.
    pub fn new(volume: u8) -> (r: Result<Volume, VolumeSetError>)
        ensures
            match volume_check(volume) {
                Ok(v) => r matches Ok(x) && x@ == Some(v),
                Err(e) => r == Err::<Volume, VolumeSetError>(e),
            },
    {
        if volume > 100 {
            Err(VolumeSetError::VolumeTooHigh)
        } else if volume == 0 {
            Err(VolumeSetError::VolumeTooLow)
        } else {
            Ok(Volume(Some(volume)))
        }
    }

    /// The volume: 100 where none was given.
    pub fn get(&self) -> (r: u8)
        ensures
            r == volume_value(self@),
            1 <= r <= 100,
    {
        proof {
            use_type_invariant(self);
        }
        match self.0 {
            Some(v) => v,
            None => 100,
        }
    }

    /// Sets the volume to 1 to 100; otherwise nothing changes.
    pub fn set(&mut self, value: u8) -> (r: Result<(), VolumeSetError>)
        ensures
            match volume_check(value) {
                Ok(v) => r is Ok && final(self)@ == Some(v),
                Err(e) => r == Err::<(), VolumeSetError>(e) && final(self)@ == old(self)@,
            },
    {
        match Volume::new(value) {
            Ok(v) => {
                *self = v;
                Ok(())
            },
            Err(e) => Err(e),
        }
    }
}

/// What reading a volume gives.
pub open spec fn audio_volume_parse(s: Seq<char>) -> Result<u8, ParseVolumeError> {
    match parse_int_spec(s, 0, 255) {
        Err(k) => Err(ParseVolumeError::ParseIntError(ParseIntError { kind: k })),
        Ok(v) => match volume_check(v as u8) {
            Ok(x) => Ok(x),
            Err(e) => Err(ParseVolumeError::VolumeSetError(e)),
        },
    }
}

impl VersionedFromStr for Volume {
    type Err = ParseVolumeError;

    open spec fn parse_text(s: Seq<char>, version: Version) -> Result<Option<Option<u8>>, ParseVolumeError> {
        match audio_volume_parse(s) {
            Ok(v) => Ok(Some(Some(v))),
            Err(e) => Err(e),
        }
    }

    fn from_chars(s: &[char], version: Version) -> (r: Result<Option<Volume>, ParseVolumeError>) {
        match parse_u8(s) {
            Err(e) => Err(ParseVolumeError::ParseIntError(e)),
            Ok(v) => match Volume::new(v) {
                Ok(x) => Ok(Some(x)),
                Err(e) => Err(ParseVolumeError::VolumeSetError(e)),
            },
        }
    }
}

impl VersionedToString for Volume {
    open spec fn text_of(v: Option<u8>, version: Version) -> Option<Seq<char>> {
        Some(int_text(volume_value(v) as int))
    }

    fn to_chars(&self, version: Version) -> (r: Option<Vec<char>>) {
        let mut out: Vec<char> = Vec::new();
        push_int(&mut out, self.get() as i64);
        assert(out@ =~= int_text(volume_value(self@) as int));
        Some(out)
    }
}

/// Layer an audio sample plays on.
#[derive(Clone, Copy, Debug, Hash, PartialEq, Eq)]
pub enum Layer {
    Background,
    Fail,
    Pass,
    Foreground,
}

impl Layer {
    /// The number of the layer.
    pub open spec fn number(self) -> int {
        match self {
            Layer::Background => 0,
            Layer::Fail => 1,
            Layer::Pass => 2,
            Layer::Foreground => 3,
        }
    }

    /// The layer with the given number.
    pub open spec fn from_number(v: int) -> Option<Layer> {
        if v == 0 {
            Some(Layer::Background)
        } else if v == 1 {
            Some(Layer::Fail)
        } else if v == 2 {
            Some(Layer::Pass)
        } else if v == 3 {
            Some(Layer::Foreground)
        } else {
            None
        }
    }

    /// The layer with the given number.
    pub fn from_repr(repr: usize) -> (r: Option<Layer>)
        ensures
            r == Layer::from_number(repr as int),
    {
        match repr {
            0 => Some(Layer::Background),
            1 => Some(Layer::Fail),
            2 => Some(Layer::Pass),
            3 => Some(Layer::Foreground),
            _ => None,
        }
    }

    /// The number of the layer.
    pub fn to_usize(&self) -> (r: usize)
        ensures
            r == self.number(),
    {
        match self {
            Layer::Background => 0,
            Layer::Fail => 1,
            Layer::Pass => 2,
            Layer::Foreground => 3,
        }
    }
}

/// A sound played at a time.
#[derive(Clone, Debug, Hash, PartialEq, Eq)]
pub struct AudioSample {
    pub time: Integer,
    pub layer: Layer,
    pub filepath: FilePath,
    pub volume: Volume,
}

/// The view of an audio sample.
pub struct AudioSampleView {
    pub time: Integer,
    pub layer: Layer,
    pub filepath: Seq<char>,
    pub volume: Option<u8>,
}

impl View for AudioSample {
    type V = AudioSampleView;

    open spec fn view(&self) -> AudioSampleView {
        AudioSampleView { time: self.time, layer: self.layer, filepath: self.filepath@, volume: self.volume@ }
    }
}

/// `Sample`.
pub open spec fn sample_word() -> Seq<char> {
    seq!['S', 'a', 'm', 'p', 'l', 'e']
}

/// The lines on which reading an audio sample panics: a proper
/// start of `Sample`, which the grammar reports as incomplete.
pub open spec fn audio_sample_stuck(s: Seq<char>) -> bool {
    s.len() < 6 && sample_word().take(s.len() as int) == s
}

/// What reading an audio sample line gives:
/// `Sample,time,layer,filepath[,volume]`; fields after the volume are ignored.
pub open spec fn audio_sample_parse(s: Seq<char>) -> Result<AudioSampleView, ParseAudioSampleError> {
    let p = split(s, ',');
    if !starts_with(s, sample_word()) {
        Err(ParseAudioSampleError::WrongEvent)
    } else if p[0] != sample_word() || p.len() < 2 {
        Err(ParseAudioSampleError::MissingTime)
    } else {
        match i32_field(p[1]) {
            None => Err(ParseAudioSampleError::InvalidTime),
            Some(t) => if p.len() < 3 {
                Err(ParseAudioSampleError::MissingLayer)
            } else {
                match parse_int_spec(p[2], 0, u32::MAX as int) {
                    Err(_) => Err(ParseAudioSampleError::InvalidLayer),
                    Ok(l) => match Layer::from_number(l) {
                        None => Err(ParseAudioSampleError::InvalidLayer),
                        Some(layer) => if p.len() < 4 {
                            Err(ParseAudioSampleError::MissingFilepath)
                        } else if p.len() == 4 {
                            Ok(AudioSampleView { time: t, layer, filepath: p[3], volume: None })
                        } else {
                            match audio_volume_parse(p[4]) {
                                Err(_) => Err(ParseAudioSampleError::InvalidVolume),
                                Ok(v) => Ok(AudioSampleView { time: t, layer, filepath: p[3], volume: Some(v) }),
                            }
                        },
                    },
                }
            },
        }
    }
}

/// The text of an audio sample line; a volume that was not given is written
/// as 100.
pub open spec fn audio_sample_text(a: AudioSampleView) -> Seq<char> {
    join(
        seq![
            sample_word(),
            int_text(a.time as int),
            int_text(a.layer.number()),
            a.filepath,
            int_text(volume_value(a.volume) as int),
        ],
        seq![','],
    )
}

proof fn lemma_sample_word()
    ensures
        "Sample"@ == sample_word(),
        ","@ == seq![','],
{
    reveal_strlit("Sample");
    reveal_strlit(",");
    assert("Sample"@ =~= sample_word());
    assert(","@ =~= seq![',']);
}

impl AudioSample {
    /// Reads an audio sample line; the `requires` leaves out the lines on
    /// which reading panics.
    pub fn parse_chars(s: &[char]) -> (r: Result<AudioSample, ParseAudioSampleError>)
        requires
            !audio_sample_stuck(s@),
        ensures
            match (r, audio_sample_parse(s@)) {
                (Ok(a), Ok(b)) => a@ == b,
                (Err(a), Err(b)) => a == b,
                _ => false,
            },
    {
        proof {
            lemma_sample_word();
        }
        let p = split_chars(s, ',');
        if !starts_with_str(s, "Sample") {
            return Err(ParseAudioSampleError::WrongEvent);
        }
        if !eq_str(p[0].as_slice(), "Sample") || p.len() < 2 {
            return Err(ParseAudioSampleError::MissingTime);
        }
        let time = match i32_field_exec(p[1].as_slice()) {
            Some(t) => t,
            None => return Err(ParseAudioSampleError::InvalidTime),
        };
        if p.len() < 3 {
            return Err(ParseAudioSampleError::MissingLayer);
        }
        let layer = match parse_usize(p[2].as_slice()) {
            Err(_) => return Err(ParseAudioSampleError::InvalidLayer),
            Ok(l) => match Layer::from_repr(l) {
                Some(layer) => layer,
                None => return Err(ParseAudioSampleError::InvalidLayer),
            },
        };
        if p.len() < 4 {
            return Err(ParseAudioSampleError::MissingFilepath);
        }
        let filepath = FilePath(string_from_chars(&p[3]));
        if p.len() == 4 {
            return Ok(AudioSample { time, layer, filepath, volume: Volume(None) });
        }
        match Volume::from_chars(p[4].as_slice(), 14) {
            Ok(Some(v)) => Ok(AudioSample { time, layer, filepath, volume: v }),
            _ => Err(ParseAudioSampleError::InvalidVolume),
        }
    }

    /// Reads an audio sample line; `None` exactly on the lines on which
    /// reading panics (see `audio_sample_stuck`).
    pub fn try_parse_chars(s: &[char]) -> (r: Option<Result<AudioSample, ParseAudioSampleError>>)
        ensures
            r is None <==> audio_sample_stuck(s@),
            r matches Some(x) ==> match (x, audio_sample_parse(s@)) {
                (Ok(a), Ok(b)) => a@ == b,
                (Err(a), Err(b)) => a == b,
                _ => false,
            },
    {
        proof {
            lemma_sample_word();
        }
        if s.len() < 6 {
            let w = crate::text::chars_of("Sample");
            let head = crate::text::slice_to_vec(w.as_slice(), 0, s.len());
            assert(head@ =~= sample_word().take(s@.len() as int));
            if crate::text::chars_eq(s, head.as_slice()) {
                return None;
            }
        }
        Some(AudioSample::parse_chars(s))
    }

    /// Reads an audio sample line; `None` exactly on the lines on which
    /// reading panics (see `audio_sample_stuck`).
    pub fn try_from_str(s: &str) -> (r: Option<Result<AudioSample, ParseAudioSampleError>>)
        ensures
            r is None <==> audio_sample_stuck(s@),
            r matches Some(x) ==> match (x, audio_sample_parse(s@)) {
                (Ok(a), Ok(b)) => a@ == b,
                (Err(a), Err(b)) => a == b,
                _ => false,
            },
    {
        let c = crate::text::chars_of(s);
        AudioSample::try_parse_chars(c.as_slice())
    }

    /// Reads an audio sample line; the `requires` leaves out the lines on
    /// which reading panics.
    pub fn from_str(s: &str, version: Version) -> (r: Result<Option<AudioSample>, ParseAudioSampleError>)
        requires
            !audio_sample_stuck(s@),
        ensures
            match (r, audio_sample_parse(s@)) {
                (Ok(Some(a)), Ok(b)) => a@ == b,
                (Err(a), Err(b)) => a == b,
                _ => false,
            },
    {
        let c = crate::text::chars_of(s);
        match AudioSample::parse_chars(c.as_slice()) {
            Ok(a) => Ok(Some(a)),
            Err(e) => Err(e),
        }
    }
}

impl VersionedToString for AudioSample {
    open spec fn text_of(v: AudioSampleView, version: Version) -> Option<Seq<char>> {
        Some(audio_sample_text(v))
    }

    fn to_chars(&self, version: Version) -> (r: Option<Vec<char>>) {
        proof {
            lemma_sample_word();
        }
        let mut parts: Vec<Vec<char>> = Vec::new();
        push_part(&mut parts, crate::text::chars_of("Sample"));
        let mut t: Vec<char> = Vec::new();
        push_int(&mut t, self.time as i64);
        push_part(&mut parts, t);
        let mut l: Vec<char> = Vec::new();
        push_int(&mut l, self.layer.to_usize() as i64);
        push_part(&mut parts, l);
        push_part(&mut parts, crate::text::chars_of(self.filepath.0.as_str()));
        let mut v: Vec<char> = Vec::new();
        push_int(&mut v, self.volume.get() as i64);
        push_part(&mut parts, v);
        assert(vv(parts@) =~= seq![
            sample_word(),
            int_text(self.time as int),
            int_text(self.layer.number()),
            self.filepath@,
            int_text(volume_value(self.volume@) as int),
        ]);
        Some(join_chars(&parts, ","))
    }
}

} // verus!
