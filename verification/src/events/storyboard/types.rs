//! Small value types of storyboard commands: trigger types, sample sets,
//! additions, easings and parameters.
use vstd::prelude::*;

use crate::text::{
    chars_of, eq_str, int_text, parse_int_spec, parse_usize, push_nat, push_str, starts_with,
    starts_with_str, trim, trim_chars, ParseIntError,
};
use crate::types::{Version, VersionedFromStr, VersionedToString};

verus! {

/// What `char::is_uppercase` gives for a character.
pub uninterp spec fn char_uppercase(c: char) -> bool;

/// What `char::is_numeric` gives for a character.
pub uninterp spec fn char_numeric(c: char) -> bool;

/// Calls `char::is_uppercase`. Claimed: the result is `char_uppercase` of the
/// character (Unicode's `Uppercase` property, a function of the character).
#[verifier::external_body]
fn is_uppercase(c: char) -> (r: bool)
    ensures
        r == char_uppercase(c),
{
    c.is_uppercase()
}

/// Calls `char::is_numeric`. Claimed: the result is `char_numeric` of the
/// character (Unicode's numeric categories, a function of the character).
#[verifier::external_body]
fn is_numeric(c: char) -> (r: bool)
    ensures
        r == char_numeric(c),
{
    c.is_numeric()
}

/// The names as string literals.
proof fn lemma_names()
    ensures
        "All"@ == (SampleSet::All).name(),
        "Normal"@ == (SampleSet::Normal).name(),
        "Soft"@ == (SampleSet::Soft).name(),
        "Drum"@ == (SampleSet::Drum).name(),
        "Whistle"@ == (Addition::Whistle).name(),
        "Finish"@ == (Addition::Finish).name(),
        "Clap"@ == (Addition::Clap).name(),
        "Passing"@ == passing_word(),
        "Failing"@ == failing_word(),
        "HitSound"@ == hitsound_word(),
{
    reveal_strlit("All");
    reveal_strlit("Normal");
    reveal_strlit("Soft");
    reveal_strlit("Drum");
    reveal_strlit("Whistle");
    reveal_strlit("Finish");
    reveal_strlit("Clap");
    reveal_strlit("Passing");
    reveal_strlit("Failing");
    reveal_strlit("HitSound");
    assert("All"@ =~= (SampleSet::All).name());
    assert("Normal"@ =~= (SampleSet::Normal).name());
    assert("Soft"@ =~= (SampleSet::Soft).name());
    assert("Drum"@ =~= (SampleSet::Drum).name());
    assert("Whistle"@ =~= (Addition::Whistle).name());
    assert("Finish"@ =~= (Addition::Finish).name());
    assert("Clap"@ =~= (Addition::Clap).name());
    assert("Passing"@ =~= passing_word());
    assert("Failing"@ =~= failing_word());
    assert("HitSound"@ =~= hitsound_word());
}

/// Sample set named in a `HitSound` trigger.
#[derive(Clone, Copy, Debug, Hash, PartialEq, Eq)]
pub enum SampleSet {
    All,
    Normal,
    Soft,
    Drum,
}

/// Error reading a sample set name.
#[derive(Clone, Copy, Debug, Hash, PartialEq, Eq)]
pub enum ParseSampleSetError {
    /// The name is none of the sample sets.
    UnknownVariant,
}

impl SampleSet {
    /// The name of the sample set.
    pub open spec fn name(self) -> Seq<char> {
        match self {
            SampleSet::All => seq!['A', 'l', 'l'],
            SampleSet::Normal => seq!['N', 'o', 'r', 'm', 'a', 'l'],
            SampleSet::Soft => seq!['S', 'o', 'f', 't'],
            SampleSet::Drum => seq!['D', 'r', 'u', 'm'],
        }
    }

    /// The sample set with the given name.
    pub open spec fn parse_name(s: Seq<char>) -> Option<SampleSet> {
        if s == (SampleSet::All).name() {
            Some(SampleSet::All)
        } else if s == (SampleSet::Normal).name() {
            Some(SampleSet::Normal)
        } else if s == (SampleSet::Soft).name() {
            Some(SampleSet::Soft)
        } else if s == (SampleSet::Drum).name() {
            Some(SampleSet::Drum)
        } else {
            None
        }
    }

    /// Reads a sample set name.
    pub fn parse_chars(s: &[char]) -> (r: Result<SampleSet, ParseSampleSetError>)
        ensures
            match SampleSet::parse_name(s@) {
                Some(v) => r == Ok::<SampleSet, ParseSampleSetError>(v),
                None => r == Err::<SampleSet, ParseSampleSetError>(ParseSampleSetError::UnknownVariant),
            },
    {
        proof {
            lemma_names();
        }
        if eq_str(s, "All") {
            Ok(SampleSet::All)
        } else if eq_str(s, "Normal") {
            Ok(SampleSet::Normal)
        } else if eq_str(s, "Soft") {
            Ok(SampleSet::Soft)
        } else if eq_str(s, "Drum") {
            Ok(SampleSet::Drum)
        } else {
            Err(ParseSampleSetError::UnknownVariant)
        }
    }

    /// Appends the name of the sample set.
    pub fn push_to(&self, out: &mut Vec<char>)
        ensures
            final(out)@ == old(out)@ + self.name(),
    {
        proof {
            lemma_names();
        }
        match self {
            SampleSet::All => push_str(out, "All"),
            SampleSet::Normal => push_str(out, "Normal"),
            SampleSet::Soft => push_str(out, "Soft"),
            SampleSet::Drum => push_str(out, "Drum"),
        }
    }
}

/// Addition sound named in a `HitSound` trigger.
#[derive(Clone, Copy, Debug, Hash, PartialEq, Eq)]
pub enum Addition {
    Whistle,
    Finish,
    Clap,
}

/// Error reading an addition name.
#[derive(Clone, Copy, Debug, Hash, PartialEq, Eq)]
pub enum ParseAdditionError {
    /// The name is none of the additions.
    UnknownVariant,
}

impl Addition {
    /// The name of the addition.
    pub open spec fn name(self) -> Seq<char> {
        match self {
            Addition::Whistle => seq!['W', 'h', 'i', 's', 't', 'l', 'e'],
            Addition::Finish => seq!['F', 'i', 'n', 'i', 's', 'h'],
            Addition::Clap => seq!['C', 'l', 'a', 'p'],
        }
    }

    /// The addition with the given name.
    pub open spec fn parse_name(s: Seq<char>) -> Option<Addition> {
        if s == (Addition::Whistle).name() {
            Some(Addition::Whistle)
        } else if s == (Addition::Finish).name() {
            Some(Addition::Finish)
        } else if s == (Addition::Clap).name() {
            Some(Addition::Clap)
        } else {
            None
        }
    }

    /// Reads an addition name.
    pub fn parse_chars(s: &[char]) -> (r: Result<Addition, ParseAdditionError>)
        ensures
            match Addition::parse_name(s@) {
                Some(v) => r == Ok::<Addition, ParseAdditionError>(v),
                None => r == Err::<Addition, ParseAdditionError>(ParseAdditionError::UnknownVariant),
            },
    {
        proof {
            lemma_names();
        }
        if eq_str(s, "Whistle") {
            Ok(Addition::Whistle)
        } else if eq_str(s, "Finish") {
            Ok(Addition::Finish)
        } else if eq_str(s, "Clap") {
            Ok(Addition::Clap)
        } else {
            Err(ParseAdditionError::UnknownVariant)
        }
    }

    /// Appends the name of the addition.
    pub fn push_to(&self, out: &mut Vec<char>)
        ensures
            final(out)@ == old(out)@ + self.name(),
    {
        proof {
            lemma_names();
        }
        match self {
            Addition::Whistle => push_str(out, "Whistle"),
            Addition::Finish => push_str(out, "Finish"),
            Addition::Clap => push_str(out, "Clap"),
        }
    }
}

/// Easing of a storyboard command: how a value moves from its start to its end.
#[derive(Clone, Copy, Debug, Hash, PartialEq, Eq)]
pub enum Easing {
    Linear,
    EasingOut,
    EasingIn,
    QuadIn,
    QuadOut,
    QuadInOut,
    CubicIn,
    CubicOut,
    CubicInOut,
    QuartIn,
    QuartOut,
    QuartInOut,
    QuintIn,
    QuintOut,
    QuintInOut,
    SineIn,
    SineOut,
    SineInOut,
    ExpoIn,
    ExpoOut,
    ExpoInOut,
    CircIn,
    CircOut,
    CircInOut,
    ElasticIn,
    ElasticOut,
    ElasticHalfOut,
    ElasticQuarterOut,
    ElasticInOut,
    BackIn,
    BackOut,
    BackInOut,
    BounceIn,
    BounceOut,
    BounceInOut,
    /// Any other number, kept as it was written.
    Other(usize),
}

/// Error reading an easing.
#[derive(Clone, Copy, Debug, Hash, PartialEq, Eq)]
pub enum ParseEasingError {
    /// The text is not a number.
    ParseValueError(ParseIntError),
    /// The number names no easing.
    UnknownEasingType(usize),
}

impl Easing {
    /// The number of the easing.
    pub open spec fn number(self) -> nat {
        match self {
            Easing::Linear => 0,
            Easing::EasingOut => 1,
            Easing::EasingIn => 2,
            Easing::QuadIn => 3,
            Easing::QuadOut => 4,
            Easing::QuadInOut => 5,
            Easing::CubicIn => 6,
            Easing::CubicOut => 7,
            Easing::CubicInOut => 8,
            Easing::QuartIn => 9,
            Easing::QuartOut => 10,
            Easing::QuartInOut => 11,
            Easing::QuintIn => 12,
            Easing::QuintOut => 13,
            Easing::QuintInOut => 14,
            Easing::SineIn => 15,
            Easing::SineOut => 16,
            Easing::SineInOut => 17,
            Easing::ExpoIn => 18,
            Easing::ExpoOut => 19,
            Easing::ExpoInOut => 20,
            Easing::CircIn => 21,
            Easing::CircOut => 22,
            Easing::CircInOut => 23,
            Easing::ElasticIn => 24,
            Easing::ElasticOut => 25,
            Easing::ElasticHalfOut => 26,
            Easing::ElasticQuarterOut => 27,
            Easing::ElasticInOut => 28,
            Easing::BackIn => 29,
            Easing::BackOut => 30,
            Easing::BackInOut => 31,
            Easing::BounceIn => 32,
            Easing::BounceOut => 33,
            Easing::BounceInOut => 34,
            Easing::Other(v) => v as nat,
        }
    }

    /// The easing with the given number: numbers past the named ones are kept as `Other`.
    pub open spec fn from_number(v: usize) -> Easing {
        if v == 0 {
            Easing::Linear
        } else if v == 1 {
            Easing::EasingOut
        } else if v == 2 {
            Easing::EasingIn
        } else if v == 3 {
            Easing::QuadIn
        } else if v == 4 {
            Easing::QuadOut
        } else if v == 5 {
            Easing::QuadInOut
        } else if v == 6 {
            Easing::CubicIn
        } else if v == 7 {
            Easing::CubicOut
        } else if v == 8 {
            Easing::CubicInOut
        } else if v == 9 {
            Easing::QuartIn
        } else if v == 10 {
            Easing::QuartOut
        } else if v == 11 {
            Easing::QuartInOut
        } else if v == 12 {
            Easing::QuintIn
        } else if v == 13 {
            Easing::QuintOut
        } else if v == 14 {
            Easing::QuintInOut
        } else if v == 15 {
            Easing::SineIn
        } else if v == 16 {
            Easing::SineOut
        } else if v == 17 {
            Easing::SineInOut
        } else if v == 18 {
            Easing::ExpoIn
        } else if v == 19 {
            Easing::ExpoOut
        } else if v == 20 {
            Easing::ExpoInOut
        } else if v == 21 {
            Easing::CircIn
        } else if v == 22 {
            Easing::CircOut
        } else if v == 23 {
            Easing::CircInOut
        } else if v == 24 {
            Easing::ElasticIn
        } else if v == 25 {
            Easing::ElasticOut
        } else if v == 26 {
            Easing::ElasticHalfOut
        } else if v == 27 {
            Easing::ElasticQuarterOut
        } else if v == 28 {
            Easing::ElasticInOut
        } else if v == 29 {
            Easing::BackIn
        } else if v == 30 {
            Easing::BackOut
        } else if v == 31 {
            Easing::BackInOut
        } else if v == 32 {
            Easing::BounceIn
        } else if v == 33 {
            Easing::BounceOut
        } else if v == 34 {
            Easing::BounceInOut
        } else {
            Easing::Other(v)
        }
    }

    /// The easing with the given number.
    pub fn from_usize(v: usize) -> (r: Easing)
        ensures
            r == Easing::from_number(v),
    {
        match v {
            0 => Easing::Linear,
            1 => Easing::EasingOut,
            2 => Easing::EasingIn,
            3 => Easing::QuadIn,
            4 => Easing::QuadOut,
            5 => Easing::QuadInOut,
            6 => Easing::CubicIn,
            7 => Easing::CubicOut,
            8 => Easing::CubicInOut,
            9 => Easing::QuartIn,
            10 => Easing::QuartOut,
            11 => Easing::QuartInOut,
            12 => Easing::QuintIn,
            13 => Easing::QuintOut,
            14 => Easing::QuintInOut,
            15 => Easing::SineIn,
            16 => Easing::SineOut,
            17 => Easing::SineInOut,
            18 => Easing::ExpoIn,
            19 => Easing::ExpoOut,
            20 => Easing::ExpoInOut,
            21 => Easing::CircIn,
            22 => Easing::CircOut,
            23 => Easing::CircInOut,
            24 => Easing::ElasticIn,
            25 => Easing::ElasticOut,
            26 => Easing::ElasticHalfOut,
            27 => Easing::ElasticQuarterOut,
            28 => Easing::ElasticInOut,
            29 => Easing::BackIn,
            30 => Easing::BackOut,
            31 => Easing::BackInOut,
            32 => Easing::BounceIn,
            33 => Easing::BounceOut,
            34 => Easing::BounceInOut,
            _ => Easing::Other(v),
        }
    }

    /// The number of the easing.
    pub fn to_usize(&self) -> (r: usize)
        ensures
            r == self.number(),
    {
        match self {
            Easing::Linear => 0,
            Easing::EasingOut => 1,
            Easing::EasingIn => 2,
            Easing::QuadIn => 3,
            Easing::QuadOut => 4,
            Easing::QuadInOut => 5,
            Easing::CubicIn => 6,
            Easing::CubicOut => 7,
            Easing::CubicInOut => 8,
            Easing::QuartIn => 9,
            Easing::QuartOut => 10,
            Easing::QuartInOut => 11,
            Easing::QuintIn => 12,
            Easing::QuintOut => 13,
            Easing::QuintInOut => 14,
            Easing::SineIn => 15,
            Easing::SineOut => 16,
            Easing::SineInOut => 17,
            Easing::ExpoIn => 18,
            Easing::ExpoOut => 19,
            Easing::ExpoInOut => 20,
            Easing::CircIn => 21,
            Easing::CircOut => 22,
            Easing::CircInOut => 23,
            Easing::ElasticIn => 24,
            Easing::ElasticOut => 25,
            Easing::ElasticHalfOut => 26,
            Easing::ElasticQuarterOut => 27,
            Easing::ElasticInOut => 28,
            Easing::BackIn => 29,
            Easing::BackOut => 30,
            Easing::BackInOut => 31,
            Easing::BounceIn => 32,
            Easing::BounceOut => 33,
            Easing::BounceInOut => 34,
            Easing::Other(v) => *v,
        }
    }
}


/// A command parameter: a flip or additive colour blending.
#[derive(Clone, Copy, Debug, Hash, PartialEq, Eq)]
pub enum Parameter {
    /// `H`.
    ImageFlipHorizontal,
    /// `V`.
    ImageFlipVertical,
    /// `A`.
    UseAdditiveColourBlending,
}

/// Error reading a parameter.
#[derive(Clone, Copy, Debug, Hash, PartialEq, Eq)]
pub enum ParseParameterError {
    /// The letter is none of `H`, `V` and `A`.
    UnknownVariant,
}

impl Parameter {
    /// The letter of the parameter.
    pub open spec fn letter(self) -> char {
        match self {
            Parameter::ImageFlipHorizontal => 'H',
            Parameter::ImageFlipVertical => 'V',
            Parameter::UseAdditiveColourBlending => 'A',
        }
    }

    /// The parameter written as `s`.
    pub open spec fn parse_name(s: Seq<char>) -> Option<Parameter> {
        if s == seq!['H'] {
            Some(Parameter::ImageFlipHorizontal)
        } else if s == seq!['V'] {
            Some(Parameter::ImageFlipVertical)
        } else if s == seq!['A'] {
            Some(Parameter::UseAdditiveColourBlending)
        } else {
            None
        }
    }

    /// Reads a parameter.
    pub fn parse_chars(s: &[char]) -> (r: Result<Parameter, ParseParameterError>)
        ensures
            match Parameter::parse_name(s@) {
                Some(v) => r == Ok::<Parameter, ParseParameterError>(v),
                None => r == Err::<Parameter, ParseParameterError>(ParseParameterError::UnknownVariant),
            },
    {
        if s.len() != 1 {
            return Err(ParseParameterError::UnknownVariant);
        }
        assert(s@ =~= seq![s@[0]]);
        if s[0] == 'H' {
            Ok(Parameter::ImageFlipHorizontal)
        } else if s[0] == 'V' {
            Ok(Parameter::ImageFlipVertical)
        } else if s[0] == 'A' {
            Ok(Parameter::UseAdditiveColourBlending)
        } else {
            Err(ParseParameterError::UnknownVariant)
        }
    }

    /// The letter of the parameter.
    pub fn to_char(&self) -> (r: char)
        ensures
            r == self.letter(),
    {
        match self {
            Parameter::ImageFlipHorizontal => 'H',
            Parameter::ImageFlipVertical => 'V',
            Parameter::UseAdditiveColourBlending => 'A',
        }
    }
}

/// What sets off a trigger command.
#[derive(Clone, Copy, Debug, Hash, PartialEq, Eq)]
pub enum TriggerType {
    /// A hitsound, optionally narrowed by sample sets, an addition and a custom sample set.
    HitSound {
        sample_set: Option<SampleSet>,
        additions_sample_set: Option<SampleSet>,
        addition: Option<Addition>,
        custom_sample_set: Option<usize>,
    },
    Passing,
    Failing,
}

/// Error reading a trigger type.
#[derive(Clone, Copy, Debug, Hash, PartialEq, Eq)]
pub enum ParseTriggerTypeError {
    /// More than four fields follow `HitSound`.
    TooManyHitSoundFields,
    /// A number failed to read.
    ParseFieldError(ParseIntError),
    /// The text is no trigger type.
    UnknownTriggerType,
    /// A field after `HitSound` fits no remaining slot.
    UnknownHitSoundType,
}

/// `HitSound`.
pub open spec fn hitsound_word() -> Seq<char> {
    seq!['H', 'i', 't', 'S', 'o', 'u', 'n', 'd']
}

/// `Passing`.
pub open spec fn passing_word() -> Seq<char> {
    seq!['P', 'a', 's', 's', 'i', 'n', 'g']
}

/// `Failing`.
pub open spec fn failing_word() -> Seq<char> {
    seq!['F', 'a', 'i', 'l', 'i', 'n', 'g']
}

/// Whether a character starts a new field after `HitSound` (past the
/// first): an uppercase or numeric character. Among ASCII characters these
/// are the capital letters and the digits.
pub open spec fn field_start(c: char) -> bool {
    if c <= '\u{7f}' {
        ('A' <= c <= 'Z') || ('0' <= c <= '9')
    } else {
        char_uppercase(c) || char_numeric(c)
    }
}

/// Whether a character starts a new field after `HitSound`.
fn field_start_exec(c: char) -> (r: bool)
    ensures
        r == field_start(c),
{
    if c <= '\u{7f}' {
        ('A' <= c && c <= 'Z') || ('0' <= c && c <= '9')
    } else {
        is_uppercase(c) || is_numeric(c)
    }
}

/// The fields after `HitSound`: a new field starts at each uppercase or
/// numeric character past the first.
pub open spec fn hitsound_fields(s: Seq<char>) -> Seq<Seq<char>>
    decreases s.len(),
{
    if s.len() <= 1 {
        seq![s]
    } else {
        let prev = hitsound_fields(s.drop_last());
        let c = s.last();
        if field_start(c) {
            prev.push(seq![c])
        } else {
            prev.update(prev.len() - 1, prev.last().push(c))
        }
    }
}

proof fn lemma_hitsound_fields_len(s: Seq<char>)
    ensures
        hitsound_fields(s).len() >= 1,
    decreases s.len(),
{
    if s.len() > 1 {
        lemma_hitsound_fields_len(s.drop_last());
    }
}

/// Whether slot `j` (sample set, additions sample set, addition, custom
/// sample set) takes the field.
pub open spec fn slot_accepts(f: Seq<char>, j: nat) -> bool {
    if j <= 1 {
        SampleSet::parse_name(f) is Some
    } else if j == 2 {
        Addition::parse_name(f) is Some
    } else {
        parse_int_spec(f, 0, u32::MAX as int) is Ok
    }
}

/// The first slot from `idx` on that takes the field.
pub open spec fn first_slot(f: Seq<char>, idx: nat) -> Option<nat>
    decreases 4 - idx,
{
    if idx > 3 {
        None
    } else if slot_accepts(f, idx) {
        Some(idx)
    } else if idx == 3 {
        None
    } else {
        first_slot(f, idx + 1)
    }
}

/// The trigger type with the field put into slot `j`.
pub open spec fn set_slot(t: TriggerType, j: nat, f: Seq<char>) -> TriggerType {
    match t {
        TriggerType::HitSound { sample_set, additions_sample_set, addition, custom_sample_set } => {
            if j == 0 {
                TriggerType::HitSound {
                    sample_set: SampleSet::parse_name(f),
                    additions_sample_set,
                    addition,
                    custom_sample_set,
                }
            } else if j == 1 {
                TriggerType::HitSound {
                    sample_set,
                    additions_sample_set: SampleSet::parse_name(f),
                    addition,
                    custom_sample_set,
                }
            } else if j == 2 {
                TriggerType::HitSound {
                    sample_set,
                    additions_sample_set,
                    addition: Addition::parse_name(f),
                    custom_sample_set,
                }
            } else {
                TriggerType::HitSound {
                    sample_set,
                    additions_sample_set,
                    addition,
                    custom_sample_set: match parse_int_spec(f, 0, u32::MAX as int) {
                        Ok(v) => Some(v as usize),
                        Err(_) => None,
                    },
                }
            }
        },
        _ => t,
    }
}

/// A `HitSound` trigger with nothing narrowed.
pub open spec fn bare_hitsound() -> TriggerType {
    TriggerType::HitSound {
        sample_set: None,
        additions_sample_set: None,
        addition: None,
        custom_sample_set: None,
    }
}

/// Puts the fields into the slots from left to right; each field takes the
/// first slot from the next free one on that accepts it. `Err(false)`: a field
/// fits no slot; `Err(true)`: a field comes after the last slot is taken.
pub open spec fn fill_slots(fields: Seq<Seq<char>>) -> Result<(nat, TriggerType), bool>
    decreases fields.len(),
{
    if fields.len() == 0 {
        Ok((0, bare_hitsound()))
    } else {
        match fill_slots(fields.drop_last()) {
            Err(e) => Err(e),
            Ok((idx, t)) => if idx > 3 {
                Err(true)
            } else {
                match first_slot(fields.last(), idx) {
                    None => Err(false),
                    Some(j) => Ok((j + 1, set_slot(t, j, fields.last()))),
                }
            },
        }
    }
}

/// What reading a trigger type gives, after trimming whitespace.
pub open spec fn trigger_type_parse(s: Seq<char>) -> Result<TriggerType, ParseTriggerTypeError> {
    let t = trim(s);
    if t == passing_word() {
        Ok(TriggerType::Passing)
    } else if t == failing_word() {
        Ok(TriggerType::Failing)
    } else if starts_with(t, hitsound_word()) {
        let r = t.skip(8);
        if r.len() == 0 {
            Ok(bare_hitsound())
        } else if hitsound_fields(r).len() > 4 {
            Err(ParseTriggerTypeError::TooManyHitSoundFields)
        } else {
            match fill_slots(hitsound_fields(r)) {
                Ok((_, tt)) => Ok(tt),
                Err(_) => Err(ParseTriggerTypeError::UnknownHitSoundType),
            }
        }
    } else {
        Err(ParseTriggerTypeError::UnknownTriggerType)
    }
}

/// The inputs on which reading a trigger type panics: a field after
/// `HitSound` comes after the custom sample set slot is taken.
pub open spec fn trigger_type_stuck(s: Seq<char>) -> bool {
    let t = trim(s);
    &&& t != passing_word()
    &&& t != failing_word()
    &&& starts_with(t, hitsound_word())
    &&& t.skip(8).len() > 0
    &&& hitsound_fields(t.skip(8)).len() <= 4
    &&& fill_slots(hitsound_fields(t.skip(8))) == Err::<(nat, TriggerType), bool>(true)
}

/// The name of an optional sample set; empty where there is none.
pub open spec fn opt_sample_set_name(o: Option<SampleSet>) -> Seq<char> {
    match o {
        Some(v) => v.name(),
        None => Seq::empty(),
    }
}

/// The name of an optional addition; empty where there is none.
pub open spec fn opt_addition_name(o: Option<Addition>) -> Seq<char> {
    match o {
        Some(v) => v.name(),
        None => Seq::empty(),
    }
}

/// The digits of an optional number; empty where there is none.
pub open spec fn opt_number_text(o: Option<usize>) -> Seq<char> {
    match o {
        Some(v) => int_text(v as int),
        None => Seq::empty(),
    }
}

/// The text of a trigger type.
pub open spec fn trigger_type_text(t: TriggerType) -> Seq<char> {
    match t {
        TriggerType::HitSound { sample_set, additions_sample_set, addition, custom_sample_set } =>
            hitsound_word() + opt_sample_set_name(sample_set) + opt_sample_set_name(
            additions_sample_set,
        ) + opt_addition_name(addition) + opt_number_text(custom_sample_set),
        TriggerType::Passing => passing_word(),
        TriggerType::Failing => failing_word(),
    }
}

fn hitsound_fields_exec(s: &[char]) -> (r: Vec<Vec<char>>)
    requires
        s.len() > 0,
    ensures
        r@.len() == hitsound_fields(s@).len(),
        forall|k: int| 0 <= k < r@.len() ==> (#[trigger] r@[k])@ == hitsound_fields(s@)[k],
{
    let mut fields: Vec<Vec<char>> = Vec::new();
    let mut builder: Vec<char> = Vec::new();
    builder.push(s[0]);
    assert(s@.take(1) =~= seq![s@[0]]);
    let mut i: usize = 1;
    while i < s.len()
        invariant
            1 <= i <= s.len(),
            fields@.len() + 1 == hitsound_fields(s@.take(i as int)).len(),
            forall|k: int| 0 <= k < fields@.len() ==> (#[trigger] fields@[k])@ == hitsound_fields(
                s@.take(i as int),
            )[k],
            builder@ == hitsound_fields(s@.take(i as int)).last(),
        decreases s.len() - i,
    {
        let ch = s[i];
        let ghost prev = hitsound_fields(s@.take(i as int));
        assert(s@.take(i + 1).drop_last() =~= s@.take(i as int));
        assert(s@.take(i + 1).last() == ch);
        if field_start_exec(ch) {
            fields.push(builder);
            builder = Vec::new();
            builder.push(ch);
            assert(builder@ =~= seq![ch]);
        } else {
            builder.push(ch);
        }
        i = i + 1;
    }
    assert(s@.take(s.len() as int) =~= s@);
    fields.push(builder);
    fields
}

fn first_slot_exec(f: &[char], idx: usize) -> (r: Option<usize>)
    requires
        idx <= 3,
    ensures
        match first_slot(f@, idx as nat) {
            Some(j) => r == Some(j as usize),
            None => r is None,
        },
    decreases 4 - idx,
{
    let ok = if idx <= 1 {
        SampleSet::parse_chars(f).is_ok()
    } else if idx == 2 {
        Addition::parse_chars(f).is_ok()
    } else {
        parse_usize(f).is_ok()
    };
    if ok {
        Some(idx)
    } else if idx == 3 {
        None
    } else {
        first_slot_exec(f, idx + 1)
    }
}

fn set_slot_exec(t: TriggerType, j: usize, f: &[char]) -> (r: TriggerType)
    requires
        j <= 3,
        t is HitSound,
    ensures
        r == set_slot(t, j as nat, f@),
{
    match t {
        TriggerType::HitSound { sample_set, additions_sample_set, addition, custom_sample_set } => {
            if j == 0 {
                TriggerType::HitSound {
                    sample_set: SampleSet::parse_chars(f).ok(),
                    additions_sample_set,
                    addition,
                    custom_sample_set,
                }
            } else if j == 1 {
                TriggerType::HitSound {
                    sample_set,
                    additions_sample_set: SampleSet::parse_chars(f).ok(),
                    addition,
                    custom_sample_set,
                }
            } else if j == 2 {
                TriggerType::HitSound {
                    sample_set,
                    additions_sample_set,
                    addition: Addition::parse_chars(f).ok(),
                    custom_sample_set,
                }
            } else {
                TriggerType::HitSound {
                    sample_set,
                    additions_sample_set,
                    addition,
                    custom_sample_set: parse_usize(f).ok(),
                }
            }
        },
        _ => t,
    }
}

proof fn lemma_fill_slots_hitsound(fields: Seq<Seq<char>>)
    ensures
        fill_slots(fields) matches Ok((i, t)) ==> t is HitSound && i <= 4,
    decreases fields.len(),
{
    if fields.len() > 0 {
        lemma_fill_slots_hitsound(fields.drop_last());
        if let Ok((idx, _)) = fill_slots(fields.drop_last()) {
            if idx <= 3 {
                lemma_first_slot_bound(fields.last(), idx);
            }
        }
    }
}

proof fn lemma_first_slot_bound(f: Seq<char>, idx: nat)
    ensures
        first_slot(f, idx) matches Some(j) ==> idx <= j <= 3,
    decreases 4 - idx,
{
    if idx <= 2 && !slot_accepts(f, idx) {
        lemma_first_slot_bound(f, idx + 1);
    }
}

fn push_opt_sample_set(out: &mut Vec<char>, o: &Option<SampleSet>)
    ensures
        final(out)@ == old(out)@ + opt_sample_set_name(*o),
{
    match o {
        Some(v) => v.push_to(out),
        None => {
            assert(out@ =~= out@ + Seq::<char>::empty());
        },
    }
}

fn push_hitsound(
    out: &mut Vec<char>,
    sample_set: &Option<SampleSet>,
    additions_sample_set: &Option<SampleSet>,
    addition: &Option<Addition>,
    custom_sample_set: &Option<usize>,
)
    ensures
        final(out)@ == old(out)@ + hitsound_word() + opt_sample_set_name(*sample_set)
            + opt_sample_set_name(*additions_sample_set) + opt_addition_name(*addition)
            + opt_number_text(*custom_sample_set),
{
    proof {
        reveal_strlit("HitSound");
        assert("HitSound"@ =~= hitsound_word());
    }
    push_str(out, "HitSound");
    push_opt_sample_set(out, sample_set);
    push_opt_sample_set(out, additions_sample_set);
    match addition {
        Some(v) => v.push_to(out),
        None => {
            assert(out@ =~= out@ + Seq::<char>::empty());
        },
    }
    match custom_sample_set {
        Some(v) => push_nat(out, *v as u64),
        None => {
            assert(out@ =~= out@ + Seq::<char>::empty());
        },
    }
}

impl TriggerType {
    /// Reads a trigger type from characters; `None` exactly on the inputs on
    /// which reading panics (see `trigger_type_stuck`).
    pub fn try_parse_chars(s: &[char]) -> (r: Option<Result<TriggerType, ParseTriggerTypeError>>)
        ensures
            r is None <==> trigger_type_stuck(s@),
            r matches Some(x) ==> x == trigger_type_parse(s@),
    {
        proof {
            lemma_names();
        }
        let t = trim_chars(s);
        if eq_str(t.as_slice(), "Passing") {
            return Some(Ok(TriggerType::Passing));
        }
        if eq_str(t.as_slice(), "Failing") {
            return Some(Ok(TriggerType::Failing));
        }
        if !starts_with_str(t.as_slice(), "HitSound") {
            return Some(Err(ParseTriggerTypeError::UnknownTriggerType));
        }
        if t.len() == 8 {
            assert(t@.skip(8).len() == 0);
            return Some(Ok(TriggerType::HitSound {
                sample_set: None,
                additions_sample_set: None,
                addition: None,
                custom_sample_set: None,
            }));
        }
        let r = crate::text::slice_to_vec(t.as_slice(), 8, t.len());
        assert(r@ =~= t@.skip(8));
        let fields = hitsound_fields_exec(r.as_slice());
        if fields.len() > 4 {
            return Some(Err(ParseTriggerTypeError::TooManyHitSoundFields));
        }
        let ghost fs = hitsound_fields(r@);
        let mut idx: usize = 0;
        let mut tt = TriggerType::HitSound {
            sample_set: None,
            additions_sample_set: None,
            addition: None,
            custom_sample_set: None,
        };
        let mut k: usize = 0;
        assert(fs.take(0) =~= Seq::<Seq<char>>::empty());
        while k < fields.len()
            invariant
                k <= fields.len() <= 4,
                fs == hitsound_fields(trim(s@).skip(8)),
                trim(s@) != passing_word(),
                trim(s@) != failing_word(),
                starts_with(trim(s@), hitsound_word()),
                trim(s@).skip(8).len() > 0,
                fields@.len() == fs.len(),
                forall|m: int| 0 <= m < fields@.len() ==> (#[trigger] fields@[m])@ == fs[m],
                fill_slots(fs.take(k as int)) == Ok::<(nat, TriggerType), bool>((idx as nat, tt)),
                idx <= 4,
                tt is HitSound,
            decreases fields.len() - k,
        {
            assert(fs.take(k + 1).drop_last() =~= fs.take(k as int));
            assert(fs.take(k + 1).last() == fields@[k as int]@);
            if idx > 3 {
                proof {
                    lemma_fill_slots_stuck(fs, k as int + 1);
                }
                return None;
            }
            match first_slot_exec(fields[k].as_slice(), idx) {
                None => {
                    proof {
                        assert(first_slot(fs.take(k + 1).last(), idx as nat) is None);
                        assert(fill_slots(fs.take(k + 1)) == Err::<(nat, TriggerType), bool>(false));
                        lemma_fill_slots_err_extends(fs, k as int + 1);
                    }
                    return Some(Err(ParseTriggerTypeError::UnknownHitSoundType));
                },
                Some(j) => {
                    proof {
                        lemma_first_slot_bound(fields@[k as int]@, idx as nat);
                    }
                    tt = set_slot_exec(tt, j, fields[k].as_slice());
                    idx = j + 1;
                },
            }
            k = k + 1;
        }
        assert(fs.take(fs.len() as int) =~= fs);
        Some(Ok(tt))
    }

    /// Reads a trigger type from characters; the `requires` leaves out the
    /// inputs on which reading panics.
    pub fn parse_chars(s: &[char]) -> (r: Result<TriggerType, ParseTriggerTypeError>)
        requires
            !trigger_type_stuck(s@),
        ensures
            r == trigger_type_parse(s@),
    {
        match TriggerType::try_parse_chars(s) {
            Some(x) => x,
            None => Err(ParseTriggerTypeError::UnknownTriggerType),
        }
    }

    /// Reads a trigger type; `None` exactly on the inputs on which reading
    /// panics (see `trigger_type_stuck`).
    pub fn try_from_str(s: &str) -> (r: Option<Result<TriggerType, ParseTriggerTypeError>>)
        ensures
            r is None <==> trigger_type_stuck(s@),
            r matches Some(x) ==> x == trigger_type_parse(s@),
    {
        let c = chars_of(s);
        TriggerType::try_parse_chars(c.as_slice())
    }


    /// Reads a trigger type; the `requires` leaves out the inputs on which
    /// reading panics.
    pub fn from_str(s: &str, version: Version) -> (r: Result<Option<TriggerType>, ParseTriggerTypeError>)
        requires
            !trigger_type_stuck(s@),
        ensures
            match trigger_type_parse(s@) {
                Ok(t) => r == Ok::<Option<TriggerType>, ParseTriggerTypeError>(Some(t)),
                Err(e) => r == Err::<Option<TriggerType>, ParseTriggerTypeError>(e),
            },
    {
        let c = chars_of(s);
        match TriggerType::parse_chars(c.as_slice()) {
            Ok(t) => Ok(Some(t)),
            Err(e) => Err(e),
        }
    }

    /// Appends the text of the trigger type.
    pub fn push_to(&self, out: &mut Vec<char>)
        ensures
            final(out)@ == old(out)@ + trigger_type_text(*self),
    {
        match self {
            TriggerType::HitSound { sample_set, additions_sample_set, addition, custom_sample_set } => {
                let ghost o = out@;
                push_hitsound(out, sample_set, additions_sample_set, addition, custom_sample_set);
                assert(out@ =~= o + trigger_type_text(*self));
            },
            TriggerType::Passing => {
                proof {
                    reveal_strlit("Passing");
                    assert("Passing"@ =~= passing_word());
                }
                push_str(out, "Passing")
            },
            TriggerType::Failing => {
                proof {
                    reveal_strlit("Failing");
                    assert("Failing"@ =~= failing_word());
                }
                push_str(out, "Failing")
            },
        }
    }
}

/// Once slot filling fails at some prefix of the fields, it fails the same way
/// for all of them.
proof fn lemma_fill_slots_err_extends(fs: Seq<Seq<char>>, k: int)
    requires
        0 <= k <= fs.len(),
        fill_slots(fs.take(k)) is Err,
    ensures
        fill_slots(fs) == fill_slots(fs.take(k)),
    decreases fs.len() - k,
{
    if k < fs.len() {
        assert(fs.take(k + 1).drop_last() =~= fs.take(k));
        lemma_fill_slots_err_extends(fs, k + 1);
    } else {
        assert(fs.take(k) =~= fs);
    }
}

proof fn lemma_fill_slots_stuck(fs: Seq<Seq<char>>, k: int)
    requires
        1 <= k <= fs.len(),
        fill_slots(fs.take(k - 1)) matches Ok((idx, _)) && idx > 3,
    ensures
        fill_slots(fs) == Err::<(nat, TriggerType), bool>(true),
{
    assert(fs.take(k).drop_last() =~= fs.take(k - 1));
    lemma_fill_slots_err_extends(fs, k);
}


impl View for SampleSet {
    type V = SampleSet;

    open spec fn view(&self) -> SampleSet {
        *self
    }
}

impl VersionedFromStr for SampleSet {
    type Err = ParseSampleSetError;

    open spec fn parse_text(s: Seq<char>, version: Version) -> Result<Option<SampleSet>, ParseSampleSetError> {
        match SampleSet::parse_name(s) {
            Some(x) => Ok(Some(x)),
            None => Err(ParseSampleSetError::UnknownVariant),
        }
    }

    fn from_chars(s: &[char], version: Version) -> (r: Result<Option<SampleSet>, ParseSampleSetError>) {
        match SampleSet::parse_chars(s) {
            Ok(v) => Ok(Some(v)),
            Err(e) => Err(e),
        }
    }
}

impl VersionedToString for SampleSet {
    open spec fn text_of(v: SampleSet, version: Version) -> Option<Seq<char>> {
        Some(v.name())
    }

    fn to_chars(&self, version: Version) -> (r: Option<Vec<char>>) {
        let mut out: Vec<char> = Vec::new();
        self.push_to(&mut out);
        assert(out@ =~= self.name());
        Some(out)
    }
}

impl View for Addition {
    type V = Addition;

    open spec fn view(&self) -> Addition {
        *self
    }
}

impl VersionedFromStr for Addition {
    type Err = ParseAdditionError;

    open spec fn parse_text(s: Seq<char>, version: Version) -> Result<Option<Addition>, ParseAdditionError> {
        match Addition::parse_name(s) {
            Some(x) => Ok(Some(x)),
            None => Err(ParseAdditionError::UnknownVariant),
        }
    }

    fn from_chars(s: &[char], version: Version) -> (r: Result<Option<Addition>, ParseAdditionError>) {
        match Addition::parse_chars(s) {
            Ok(v) => Ok(Some(v)),
            Err(e) => Err(e),
        }
    }
}

impl VersionedToString for Addition {
    open spec fn text_of(v: Addition, version: Version) -> Option<Seq<char>> {
        Some(v.name())
    }

    fn to_chars(&self, version: Version) -> (r: Option<Vec<char>>) {
        let mut out: Vec<char> = Vec::new();
        self.push_to(&mut out);
        assert(out@ =~= self.name());
        Some(out)
    }
}

impl View for Parameter {
    type V = Parameter;

    open spec fn view(&self) -> Parameter {
        *self
    }
}

impl VersionedFromStr for Parameter {
    type Err = ParseParameterError;

    open spec fn parse_text(s: Seq<char>, version: Version) -> Result<Option<Parameter>, ParseParameterError> {
        match Parameter::parse_name(s) {
            Some(x) => Ok(Some(x)),
            None => Err(ParseParameterError::UnknownVariant),
        }
    }

    fn from_chars(s: &[char], version: Version) -> (r: Result<Option<Parameter>, ParseParameterError>) {
        match Parameter::parse_chars(s) {
            Ok(v) => Ok(Some(v)),
            Err(e) => Err(e),
        }
    }
}

impl VersionedToString for Parameter {
    open spec fn text_of(v: Parameter, version: Version) -> Option<Seq<char>> {
        Some(seq![v.letter()])
    }

    fn to_chars(&self, version: Version) -> (r: Option<Vec<char>>) {
        let mut out: Vec<char> = Vec::new();
        out.push(self.to_char());
        assert(out@ =~= seq![self.letter()]);
        Some(out)
    }
}

impl View for Easing {
    type V = Easing;

    open spec fn view(&self) -> Easing {
        *self
    }
}

impl VersionedToString for Easing {
    open spec fn text_of(v: Easing, version: Version) -> Option<Seq<char>> {
        Some(int_text(v.number() as int))
    }

    fn to_chars(&self, version: Version) -> (r: Option<Vec<char>>) {
        let mut out: Vec<char> = Vec::new();
        push_nat(&mut out, self.to_usize() as u64);
        assert(out@ =~= int_text(self.number() as int));
        Some(out)
    }
}

impl View for TriggerType {
    type V = TriggerType;

    open spec fn view(&self) -> TriggerType {
        *self
    }
}

impl VersionedToString for TriggerType {
    open spec fn text_of(v: TriggerType, version: Version) -> Option<Seq<char>> {
        Some(trigger_type_text(v))
    }

    fn to_chars(&self, version: Version) -> (r: Option<Vec<char>>) {
        let mut out: Vec<char> = Vec::new();
        self.push_to(&mut out);
        assert(out@ =~= trigger_type_text(*self));
        Some(out)
    }
}

} // verus!
