//! Storyboard objects: sprites and animations with their layer, origin and
//! position.
use vstd::prelude::*;

use crate::decimal::{parse_decimal_spec, Decimal};
use crate::events::storyboard::cmds::{
    command_lines, commands_view, push_command_lines, push_indented, try_push_cmd, Command,
    CommandPushError, CommandView,
};
use crate::hitobjects::{i32_field, i32_field_exec, lemma_comma_lit, rest_from};
use crate::text::{
    eq_str, int_text, join, join_chars, join_from, parse_int_spec, parse_i32, parse_usize,
    push_int, push_part, push_str, slice_to_vec, split, split_chars, starts_with, starts_with_str,
    string_from_chars, vv, ParseIntError,
};
use crate::types::{Integer, Position, Version, VersionedFromStr, VersionedToString};

verus! {

/// A path to a file, relative to the beatmap's folder, kept as written.
#[derive(Clone, Debug, Hash, PartialEq, Eq)]
pub struct FilePath(pub String);

impl View for FilePath {
    type V = Seq<char>;

    open spec fn view(&self) -> Seq<char> {
        self.0@
    }
}

/// The file path given as a relative path is an absolute one.
#[derive(Clone, Copy, Debug, Hash, PartialEq, Eq)]
pub struct FilePathNotRelative;

/// Layer a storyboard object is drawn on.
#[derive(Clone, Copy, Debug, Hash, PartialEq, Eq)]
pub enum Layer {
    Background,
    Fail,
    Pass,
    Foreground,
    Overlay,
}

/// Error reading a layer.
#[derive(Clone, Copy, Debug, Hash, PartialEq, Eq)]
pub enum ParseLayerError {
    /// The name is none of the layers.
    UnknownVariant,
}

impl Layer {
    /// The name of the layer.
    pub open spec fn name(self) -> Seq<char> {
        match self {
            Layer::Background => seq!['B', 'a', 'c', 'k', 'g', 'r', 'o', 'u', 'n', 'd'],
            Layer::Fail => seq!['F', 'a', 'i', 'l'],
            Layer::Pass => seq!['P', 'a', 's', 's'],
            Layer::Foreground => seq!['F', 'o', 'r', 'e', 'g', 'r', 'o', 'u', 'n', 'd'],
            Layer::Overlay => seq!['O', 'v', 'e', 'r', 'l', 'a', 'y'],
        }
    }

    /// The layer with the given name.
    pub open spec fn parse_name(s: Seq<char>) -> Option<Layer> {
        if s == (Layer::Background).name() {
            Some(Layer::Background)
        } else if s == (Layer::Fail).name() {
            Some(Layer::Fail)
        } else if s == (Layer::Pass).name() {
            Some(Layer::Pass)
        } else if s == (Layer::Foreground).name() {
            Some(Layer::Foreground)
        } else if s == (Layer::Overlay).name() {
            Some(Layer::Overlay)
        } else {
            None
        }
    }

    /// Reads a layer name.
    pub fn parse_chars(s: &[char]) -> (r: Result<Layer, ParseLayerError>)
        ensures
            match Layer::parse_name(s@) {
                Some(v) => r == Ok::<Layer, ParseLayerError>(v),
                None => r == Err::<Layer, ParseLayerError>(ParseLayerError::UnknownVariant),
            },
    {
        proof {
            reveal_strlit("Background");
            assert("Background"@ =~= (Layer::Background).name());
            reveal_strlit("Fail");
            assert("Fail"@ =~= (Layer::Fail).name());
            reveal_strlit("Pass");
            assert("Pass"@ =~= (Layer::Pass).name());
            reveal_strlit("Foreground");
            assert("Foreground"@ =~= (Layer::Foreground).name());
            reveal_strlit("Overlay");
            assert("Overlay"@ =~= (Layer::Overlay).name());
        }
        if eq_str(s, "Background") {
            Ok(Layer::Background)
        } else if eq_str(s, "Fail") {
            Ok(Layer::Fail)
        } else if eq_str(s, "Pass") {
            Ok(Layer::Pass)
        } else if eq_str(s, "Foreground") {
            Ok(Layer::Foreground)
        } else if eq_str(s, "Overlay") {
            Ok(Layer::Overlay)
        } else {
            Err(ParseLayerError::UnknownVariant)
        }
    }

    /// Appends the name of the layer.
    pub fn push_to(&self, out: &mut Vec<char>)
        ensures
            final(out)@ == old(out)@ + self.name(),
    {
        match self {
            Layer::Background => {
                proof {
                    reveal_strlit("Background");
                    assert("Background"@ =~= (Layer::Background).name());
                }
                push_str(out, "Background")
            },
            Layer::Fail => {
                proof {
                    reveal_strlit("Fail");
                    assert("Fail"@ =~= (Layer::Fail).name());
                }
                push_str(out, "Fail")
            },
            Layer::Pass => {
                proof {
                    reveal_strlit("Pass");
                    assert("Pass"@ =~= (Layer::Pass).name());
                }
                push_str(out, "Pass")
            },
            Layer::Foreground => {
                proof {
                    reveal_strlit("Foreground");
                    assert("Foreground"@ =~= (Layer::Foreground).name());
                }
                push_str(out, "Foreground")
            },
            Layer::Overlay => {
                proof {
                    reveal_strlit("Overlay");
                    assert("Overlay"@ =~= (Layer::Overlay).name());
                }
                push_str(out, "Overlay")
            },
        }
    }
}

/// Where on an object its position is.
#[derive(Clone, Copy, Debug, Hash, PartialEq, Eq)]
pub enum OriginType {
    TopLeft,
    Centre,
    CentreLeft,
    TopRight,
    BottomCentre,
    TopCentre,
    Custom,
    CentreRight,
    BottomLeft,
    BottomRight,
}

/// A number names no origin type.
#[derive(Clone, Copy, Debug, Hash, PartialEq, Eq)]
pub enum OriginTryFromIntError {
    /// The number is not 0 to 9.
    UnknownVariant,
}

impl OriginType {
    /// The number of the origin type.
    pub open spec fn number(self) -> int {
        match self {
            OriginType::TopLeft => 0,
            OriginType::Centre => 1,
            OriginType::CentreLeft => 2,
            OriginType::TopRight => 3,
            OriginType::BottomCentre => 4,
            OriginType::TopCentre => 5,
            OriginType::Custom => 6,
            OriginType::CentreRight => 7,
            OriginType::BottomLeft => 8,
            OriginType::BottomRight => 9,
        }
    }

    /// The name of the origin type.
    pub open spec fn name(self) -> Seq<char> {
        match self {
            OriginType::TopLeft => seq!['T', 'o', 'p', 'L', 'e', 'f', 't'],
            OriginType::Centre => seq!['C', 'e', 'n', 't', 'r', 'e'],
            OriginType::CentreLeft => seq!['C', 'e', 'n', 't', 'r', 'e', 'L', 'e', 'f', 't'],
            OriginType::TopRight => seq!['T', 'o', 'p', 'R', 'i', 'g', 'h', 't'],
            OriginType::BottomCentre => seq!['B', 'o', 't', 't', 'o', 'm', 'C', 'e', 'n', 't', 'r', 'e'],
            OriginType::TopCentre => seq!['T', 'o', 'p', 'C', 'e', 'n', 't', 'r', 'e'],
            OriginType::Custom => seq!['C', 'u', 's', 't', 'o', 'm'],
            OriginType::CentreRight => seq!['C', 'e', 'n', 't', 'r', 'e', 'R', 'i', 'g', 'h', 't'],
            OriginType::BottomLeft => seq!['B', 'o', 't', 't', 'o', 'm', 'L', 'e', 'f', 't'],
            OriginType::BottomRight => seq!['B', 'o', 't', 't', 'o', 'm', 'R', 'i', 'g', 'h', 't'],
        }
    }

    /// The origin type with the given number.
    pub open spec fn from_number(v: int) -> Option<OriginType> {
        if v == 0 {
            Some(OriginType::TopLeft)
        } else if v == 1 {
            Some(OriginType::Centre)
        } else if v == 2 {
            Some(OriginType::CentreLeft)
        } else if v == 3 {
            Some(OriginType::TopRight)
        } else if v == 4 {
            Some(OriginType::BottomCentre)
        } else if v == 5 {
            Some(OriginType::TopCentre)
        } else if v == 6 {
            Some(OriginType::Custom)
        } else if v == 7 {
            Some(OriginType::CentreRight)
        } else if v == 8 {
            Some(OriginType::BottomLeft)
        } else if v == 9 {
            Some(OriginType::BottomRight)
        } else {
            None
        }
    }

    /// The origin type with the given name.
    pub open spec fn parse_name(s: Seq<char>) -> Option<OriginType> {
        if s == (OriginType::TopLeft).name() {
            Some(OriginType::TopLeft)
        } else if s == (OriginType::Centre).name() {
            Some(OriginType::Centre)
        } else if s == (OriginType::CentreLeft).name() {
            Some(OriginType::CentreLeft)
        } else if s == (OriginType::TopRight).name() {
            Some(OriginType::TopRight)
        } else if s == (OriginType::BottomCentre).name() {
            Some(OriginType::BottomCentre)
        } else if s == (OriginType::TopCentre).name() {
            Some(OriginType::TopCentre)
        } else if s == (OriginType::Custom).name() {
            Some(OriginType::Custom)
        } else if s == (OriginType::CentreRight).name() {
            Some(OriginType::CentreRight)
        } else if s == (OriginType::BottomLeft).name() {
            Some(OriginType::BottomLeft)
        } else if s == (OriginType::BottomRight).name() {
            Some(OriginType::BottomRight)
        } else {
            None
        }
    }

    /// The origin type with the given number.
    pub fn try_from(value: Integer) -> (r: Result<OriginType, OriginTryFromIntError>)
        ensures
            match OriginType::from_number(value as int) {
                Some(t) => r == Ok::<OriginType, OriginTryFromIntError>(t),
                None => r == Err::<OriginType, OriginTryFromIntError>(OriginTryFromIntError::UnknownVariant),
            },
    {
        match value {
            0 => Ok(OriginType::TopLeft),
            1 => Ok(OriginType::Centre),
            2 => Ok(OriginType::CentreLeft),
            3 => Ok(OriginType::TopRight),
            4 => Ok(OriginType::BottomCentre),
            5 => Ok(OriginType::TopCentre),
            6 => Ok(OriginType::Custom),
            7 => Ok(OriginType::CentreRight),
            8 => Ok(OriginType::BottomLeft),
            9 => Ok(OriginType::BottomRight),
            _ => Err(OriginTryFromIntError::UnknownVariant),
        }
    }

    /// The number of the origin type.
    pub fn to_integer(&self) -> (r: Integer)
        ensures
            r == self.number(),
    {
        match self {
            OriginType::TopLeft => 0,
            OriginType::Centre => 1,
            OriginType::CentreLeft => 2,
            OriginType::TopRight => 3,
            OriginType::BottomCentre => 4,
            OriginType::TopCentre => 5,
            OriginType::Custom => 6,
            OriginType::CentreRight => 7,
            OriginType::BottomLeft => 8,
            OriginType::BottomRight => 9,
        }
    }

    fn parse_name_exec(s: &[char]) -> (r: Option<OriginType>)
        ensures
            r == OriginType::parse_name(s@),
    {
        proof {
            reveal_strlit("TopLeft");
            assert("TopLeft"@ =~= (OriginType::TopLeft).name());
            reveal_strlit("Centre");
            assert("Centre"@ =~= (OriginType::Centre).name());
            reveal_strlit("CentreLeft");
            assert("CentreLeft"@ =~= (OriginType::CentreLeft).name());
            reveal_strlit("TopRight");
            assert("TopRight"@ =~= (OriginType::TopRight).name());
            reveal_strlit("BottomCentre");
            assert("BottomCentre"@ =~= (OriginType::BottomCentre).name());
            reveal_strlit("TopCentre");
            assert("TopCentre"@ =~= (OriginType::TopCentre).name());
            reveal_strlit("Custom");
            assert("Custom"@ =~= (OriginType::Custom).name());
            reveal_strlit("CentreRight");
            assert("CentreRight"@ =~= (OriginType::CentreRight).name());
            reveal_strlit("BottomLeft");
            assert("BottomLeft"@ =~= (OriginType::BottomLeft).name());
            reveal_strlit("BottomRight");
            assert("BottomRight"@ =~= (OriginType::BottomRight).name());
        }
        if eq_str(s, "TopLeft") {
            Some(OriginType::TopLeft)
        } else if eq_str(s, "Centre") {
            Some(OriginType::Centre)
        } else if eq_str(s, "CentreLeft") {
            Some(OriginType::CentreLeft)
        } else if eq_str(s, "TopRight") {
            Some(OriginType::TopRight)
        } else if eq_str(s, "BottomCentre") {
            Some(OriginType::BottomCentre)
        } else if eq_str(s, "TopCentre") {
            Some(OriginType::TopCentre)
        } else if eq_str(s, "Custom") {
            Some(OriginType::Custom)
        } else if eq_str(s, "CentreRight") {
            Some(OriginType::CentreRight)
        } else if eq_str(s, "BottomLeft") {
            Some(OriginType::BottomLeft)
        } else if eq_str(s, "BottomRight") {
            Some(OriginType::BottomRight)
        } else {
            None
        }
    }

    fn push_name(&self, out: &mut Vec<char>)
        ensures
            final(out)@ == old(out)@ + self.name(),
    {
        match self {
            OriginType::TopLeft => {
                proof {
                    reveal_strlit("TopLeft");
                    assert("TopLeft"@ =~= (OriginType::TopLeft).name());
                }
                push_str(out, "TopLeft")
            },
            OriginType::Centre => {
                proof {
                    reveal_strlit("Centre");
                    assert("Centre"@ =~= (OriginType::Centre).name());
                }
                push_str(out, "Centre")
            },
            OriginType::CentreLeft => {
                proof {
                    reveal_strlit("CentreLeft");
                    assert("CentreLeft"@ =~= (OriginType::CentreLeft).name());
                }
                push_str(out, "CentreLeft")
            },
            OriginType::TopRight => {
                proof {
                    reveal_strlit("TopRight");
                    assert("TopRight"@ =~= (OriginType::TopRight).name());
                }
                push_str(out, "TopRight")
            },
            OriginType::BottomCentre => {
                proof {
                    reveal_strlit("BottomCentre");
                    assert("BottomCentre"@ =~= (OriginType::BottomCentre).name());
                }
                push_str(out, "BottomCentre")
            },
            OriginType::TopCentre => {
                proof {
                    reveal_strlit("TopCentre");
                    assert("TopCentre"@ =~= (OriginType::TopCentre).name());
                }
                push_str(out, "TopCentre")
            },
            OriginType::Custom => {
                proof {
                    reveal_strlit("Custom");
                    assert("Custom"@ =~= (OriginType::Custom).name());
                }
                push_str(out, "Custom")
            },
            OriginType::CentreRight => {
                proof {
                    reveal_strlit("CentreRight");
                    assert("CentreRight"@ =~= (OriginType::CentreRight).name());
                }
                push_str(out, "CentreRight")
            },
            OriginType::BottomLeft => {
                proof {
                    reveal_strlit("BottomLeft");
                    assert("BottomLeft"@ =~= (OriginType::BottomLeft).name());
                }
                push_str(out, "BottomLeft")
            },
            OriginType::BottomRight => {
                proof {
                    reveal_strlit("BottomRight");
                    assert("BottomRight"@ =~= (OriginType::BottomRight).name());
                }
                push_str(out, "BottomRight")
            },
        }
    }
}


/// An origin: a named origin type, or a number that names none.
#[derive(Clone, Copy, Debug, Hash, PartialEq, Eq)]
pub enum OriginValue {
    /// One of the documented origin types.
    Named(OriginType),
    /// A number that is used but names no documented origin type.
    Number(Integer),
}

/// The origin of a storyboard object, and whether it was written as a number.
#[derive(Clone, Copy, Debug, Hash, PartialEq, Eq)]
pub struct Origin {
    /// The origin.
    pub type_: OriginValue,
    /// Whether it is written as a number.
    pub shorthand: bool,
}

/// Error reading an origin.
#[derive(Clone, Copy, Debug, Hash, PartialEq, Eq)]
pub enum ParseOriginError {
    /// The origin is unknown.
    UnknownVariant,
    /// The text is neither a name nor a number.
    ParseIntError(ParseIntError),
    /// The number names no origin type.
    OriginTryFromIntError(OriginTryFromIntError),
}

/// What reading an origin gives: a name, or else a number.
pub open spec fn origin_parse(s: Seq<char>) -> Result<Origin, ParseOriginError> {
    match OriginType::parse_name(s) {
        Some(t) => Ok(Origin { type_: OriginValue::Named(t), shorthand: false }),
        None => match parse_int_spec(s, i32::MIN as int, i32::MAX as int) {
            Err(k) => Err(ParseOriginError::ParseIntError(ParseIntError { kind: k })),
            Ok(n) => match OriginType::from_number(n) {
                Some(t) => Ok(Origin { type_: OriginValue::Named(t), shorthand: true }),
                None => Ok(Origin { type_: OriginValue::Number(n as i32), shorthand: true }),
            },
        },
    }
}

/// The text of an origin: its number where it is written as one, else its name.
pub open spec fn origin_text(o: Origin) -> Seq<char> {
    match o.type_ {
        OriginValue::Named(t) => if o.shorthand {
            int_text(t.number())
        } else {
            t.name()
        },
        OriginValue::Number(n) => int_text(n as int),
    }
}

impl Origin {
    /// The origin of a type, written as a number.
    pub fn from_type(type_: OriginType) -> (r: Origin)
        ensures
            r == (Origin { type_: OriginValue::Named(type_), shorthand: true }),
    {
        Origin { type_: OriginValue::Named(type_), shorthand: true }
    }

    /// Reads an origin.
    pub fn parse_chars(s: &[char]) -> (r: Result<Origin, ParseOriginError>)
        ensures
            r == origin_parse(s@),
    {
        match OriginType::parse_name_exec(s) {
            Some(t) => Ok(Origin { type_: OriginValue::Named(t), shorthand: false }),
            None => match parse_i32(s) {
                Err(e) => Err(ParseOriginError::ParseIntError(e)),
                Ok(n) => match OriginType::try_from(n) {
                    Ok(t) => Ok(Origin { type_: OriginValue::Named(t), shorthand: true }),
                    Err(_) => Ok(Origin { type_: OriginValue::Number(n), shorthand: true }),
                },
            },
        }
    }

    /// Appends the text of the origin.
    pub fn push_to(&self, out: &mut Vec<char>)
        ensures
            final(out)@ == old(out)@ + origin_text(*self),
    {
        match self.type_ {
            OriginValue::Named(t) => if self.shorthand {
                push_int(out, t.to_integer() as i64);
            } else {
                t.push_name(out);
            },
            OriginValue::Number(n) => push_int(out, n as i64),
        }
    }
}

/// Whether an animation loops.
#[derive(Clone, Copy, Debug, Hash, PartialEq, Eq)]
pub enum LoopType {
    LoopForever,
    LoopOnce,
}

/// Error reading a loop type.
#[derive(Clone, Copy, Debug, Hash, PartialEq, Eq)]
pub enum ParseLoopTypeError {
    /// The name is none of the loop types.
    UnknownVariant,
}

impl LoopType {
    /// The name of the loop type.
    pub open spec fn name(self) -> Seq<char> {
        match self {
            LoopType::LoopForever => seq!['L', 'o', 'o', 'p', 'F', 'o', 'r', 'e', 'v', 'e', 'r'],
            LoopType::LoopOnce => seq!['L', 'o', 'o', 'p', 'O', 'n', 'c', 'e'],
        }
    }

    /// The loop type with the given name.
    pub open spec fn parse_name(s: Seq<char>) -> Option<LoopType> {
        if s == (LoopType::LoopForever).name() {
            Some(LoopType::LoopForever)
        } else if s == (LoopType::LoopOnce).name() {
            Some(LoopType::LoopOnce)
        } else {
            None
        }
    }

    /// The loop type of an animation that names none: it loops forever.
    pub fn default() -> (r: LoopType)
        ensures
            r == LoopType::LoopForever,
    {
        LoopType::LoopForever
    }

    /// Reads a loop type.
    pub fn parse_chars(s: &[char]) -> (r: Result<LoopType, ParseLoopTypeError>)
        ensures
            match LoopType::parse_name(s@) {
                Some(v) => r == Ok::<LoopType, ParseLoopTypeError>(v),
                None => r == Err::<LoopType, ParseLoopTypeError>(ParseLoopTypeError::UnknownVariant),
            },
    {
        proof {
            reveal_strlit("LoopForever");
            reveal_strlit("LoopOnce");
            assert("LoopForever"@ =~= (LoopType::LoopForever).name());
            assert("LoopOnce"@ =~= (LoopType::LoopOnce).name());
        }
        if eq_str(s, "LoopForever") {
            Ok(LoopType::LoopForever)
        } else if eq_str(s, "LoopOnce") {
            Ok(LoopType::LoopOnce)
        } else {
            Err(ParseLoopTypeError::UnknownVariant)
        }
    }

    /// Appends the name of the loop type.
    pub fn push_to(&self, out: &mut Vec<char>)
        ensures
            final(out)@ == old(out)@ + self.name(),
    {
        proof {
            reveal_strlit("LoopForever");
            reveal_strlit("LoopOnce");
            assert("LoopForever"@ =~= (LoopType::LoopForever).name());
            assert("LoopOnce"@ =~= (LoopType::LoopOnce).name());
        }
        match self {
            LoopType::LoopForever => push_str(out, "LoopForever"),
            LoopType::LoopOnce => push_str(out, "LoopOnce"),
        }
    }
}

/// Whether a path could be absolute on some platform: it starts with a
/// separator, or holds a `:` (a Windows drive or device prefix). A path that
/// is none of these is relative everywhere.
pub open spec fn maybe_absolute(s: Seq<char>) -> bool {
    s.len() > 0 && (s[0] == '/' || s[0] == '\\' || s.contains(':'))
}

/// Calls `std::path::Path::is_absolute`. By its documentation a path is
/// absolute on Unix when it starts with the root `/`, and on Windows when it
/// has a prefix (a drive such as `c:`, or one that starts with two
/// separators) and a root; so an absolute path is one that `maybe_absolute`
/// holds of. Which of those paths are absolute depends on the platform, and
/// is not stated.
#[verifier::external_body]
fn path_is_absolute(s: &str) -> (r: bool)
    ensures
        r ==> maybe_absolute(s@),
{
    std::path::Path::new(s).is_absolute()
}

/// A sprite: a still image.
#[derive(Clone, Debug, Hash, PartialEq, Eq)]
pub struct Sprite {
    pub filepath: FilePath,
}

impl Sprite {
    /// A sprite of the file, where the path is relative.
    pub fn new_checked(filepath: &str, absolute: bool) -> (r: Result<Sprite, FilePathNotRelative>)
        ensures
            absolute ==> r == Err::<Sprite, FilePathNotRelative>(FilePathNotRelative),
            !absolute ==> (r matches Ok(sp) && sp.filepath@ == filepath@),
    {
        if absolute {
            Err(FilePathNotRelative)
        } else {
            let v = crate::text::chars_of(filepath);
            Ok(Sprite { filepath: FilePath(string_from_chars(&v)) })
        }
    }

    /// A sprite of the file; an absolute path, by the rules of the platform,
    /// is refused. A path that starts with no separator and holds no `:` is
    /// relative on every platform, and is taken.
    pub fn new(filepath: &str) -> (r: Result<Sprite, FilePathNotRelative>)
        ensures
            r matches Ok(sp) ==> sp.filepath@ == filepath@,
            r is Err ==> maybe_absolute(filepath@),
            !maybe_absolute(filepath@) ==> (r matches Ok(sp) && sp.filepath@ == filepath@),
    {
        let absolute = path_is_absolute(filepath);
        Sprite::new_checked(filepath, absolute)
    }
}

/// An animation: numbered frames of an image.
#[derive(Clone, Debug, Hash, PartialEq, Eq)]
pub struct Animation {
    pub frame_count: u32,
    pub frame_delay: Decimal,
    pub loop_type: LoopType,
    pub filepath: FilePath,
}

/// What a storyboard object shows.
#[derive(Clone, Debug, Hash, PartialEq, Eq)]
pub enum ObjectType {
    Sprite(Sprite),
    Animation(Animation),
}

/// The view of what an object shows.
pub enum ObjectTypeView {
    Sprite { filepath: Seq<char> },
    Animation { frame_count: u32, frame_delay: Decimal, loop_type: LoopType, filepath: Seq<char> },
}

impl View for ObjectType {
    type V = ObjectTypeView;

    open spec fn view(&self) -> ObjectTypeView {
        match *self {
            ObjectType::Sprite(sp) => ObjectTypeView::Sprite { filepath: sp.filepath@ },
            ObjectType::Animation(a) => ObjectTypeView::Animation {
                frame_count: a.frame_count,
                frame_delay: a.frame_delay,
                loop_type: a.loop_type,
                filepath: a.filepath@,
            },
        }
    }
}

/// A storyboard object with its commands.
#[derive(Debug, Hash, PartialEq, Eq)]
pub struct Object {
    pub layer: Layer,
    pub origin: Origin,
    pub position: Position,
    pub object_type: ObjectType,
    pub commands: Vec<Command>,
}

/// The view of a storyboard object.
pub struct ObjectView {
    pub layer: Layer,
    pub origin: Origin,
    pub position: Position,
    pub object_type: ObjectTypeView,
    pub commands: Seq<CommandView>,
}

impl View for Object {
    type V = ObjectView;

    open spec fn view(&self) -> ObjectView {
        ObjectView {
            layer: self.layer,
            origin: self.origin,
            position: self.position,
            object_type: self.object_type@,
            commands: commands_view(self.commands@),
        }
    }
}

/// Error reading a storyboard object.
#[derive(Clone, Copy, Debug, Hash, PartialEq, Eq)]
pub enum ParseObjectError {
    UnknownObjectType,
    MissingLayer,
    InvalidLayer,
    MissingOrigin,
    InvalidOrigin,
    MissingFilePath,
    MissingPositionX,
    InvalidPositionX,
    MissingPositionY,
    InvalidPositionY,
    MissingFrameCount,
    InvalidFrameCount,
    MissingFrameDelay,
    InvalidFrameDelay,
    MissingLoopType,
    InvalidLoopType,
}

/// `Sprite`.
pub open spec fn sprite_word() -> Seq<char> {
    seq!['S', 'p', 'r', 'i', 't', 'e']
}

/// `Animation`.
pub open spec fn animation_word() -> Seq<char> {
    seq!['A', 'n', 'i', 'm', 'a', 't', 'i', 'o', 'n']
}

/// The loop type that follows an animation's frame delay: an unreadable or
/// missing one is taken as the default.
pub open spec fn loop_type_field(p: Seq<Seq<char>>) -> LoopType {
    if p.len() >= 9 {
        match LoopType::parse_name(rest_from(p, 8, ',')) {
            Some(l) => l,
            None => LoopType::LoopForever,
        }
    } else {
        LoopType::LoopForever
    }
}

/// Reads the fields of an object past its kind (`p[0]`).
pub open spec fn object_fields_parse(p: Seq<Seq<char>>, animation: bool) -> Result<ObjectView, ParseObjectError> {
    match Layer::parse_name(p[1]) {
        None => Err(ParseObjectError::InvalidLayer),
        Some(layer) => if p.len() < 3 {
            Err(ParseObjectError::MissingOrigin)
        } else {
            match origin_parse(p[2]) {
                Err(_) => Err(ParseObjectError::InvalidOrigin),
                Ok(origin) => if p.len() < 4 {
                    Err(ParseObjectError::MissingFilePath)
                } else if p.len() < 5 {
                    Err(ParseObjectError::MissingPositionX)
                } else {
                    match i32_field(p[4]) {
                        None => Err(ParseObjectError::InvalidPositionX),
                        Some(x) => if p.len() < 6 {
                            Err(ParseObjectError::MissingPositionY)
                        } else {
                            match i32_field(p[5]) {
                                None => Err(ParseObjectError::InvalidPositionY),
                                Some(y) => if !animation {
                                    Ok(ObjectView {
                                        layer,
                                        origin,
                                        position: Position { x, y },
                                        object_type: ObjectTypeView::Sprite { filepath: p[3] },
                                        commands: Seq::empty(),
                                    })
                                } else if p.len() < 7 {
                                    Err(ParseObjectError::MissingFrameCount)
                                } else {
                                    match parse_int_spec(p[6], 0, u32::MAX as int) {
                                        Err(_) => Err(ParseObjectError::InvalidFrameCount),
                                        Ok(fc) => if p.len() < 8 {
                                            Err(ParseObjectError::MissingFrameDelay)
                                        } else {
                                            match parse_decimal_spec(p[7]) {
                                                None => Err(ParseObjectError::InvalidFrameDelay),
                                                Some(fd) => Ok(ObjectView {
                                                    layer,
                                                    origin,
                                                    position: Position { x, y },
                                                    object_type: ObjectTypeView::Animation {
                                                        frame_count: fc as u32,
                                                        frame_delay: fd,
                                                        loop_type: loop_type_field(p),
                                                        filepath: p[3],
                                                    },
                                                    commands: Seq::empty(),
                                                }),
                                            }
                                        },
                                    }
                                },
                            }
                        },
                    }
                },
            }
        },
    }
}

/// What reading a storyboard object line gives; its commands come from the
/// lines that follow.
pub open spec fn object_parse(s: Seq<char>) -> Result<ObjectView, ParseObjectError> {
    let p = split(s, ',');
    if starts_with(s, sprite_word()) {
        if p[0] != sprite_word() || p.len() < 2 {
            Err(ParseObjectError::MissingLayer)
        } else {
            object_fields_parse(p, false)
        }
    } else if starts_with(s, animation_word()) {
        if p[0] != animation_word() || p.len() < 2 {
            Err(ParseObjectError::MissingLayer)
        } else {
            object_fields_parse(p, true)
        }
    } else {
        Err(ParseObjectError::UnknownObjectType)
    }
}

/// The text of an object's own line.
pub open spec fn object_line_text(o: ObjectView) -> Seq<char> {
    let common = seq![o.layer.name(), origin_text(o.origin)];
    let pos = seq![int_text(o.position.x as int), int_text(o.position.y as int)];
    match o.object_type {
        ObjectTypeView::Sprite { filepath } => join(seq![sprite_word()] + common + seq![filepath] + pos, seq![',']),
        ObjectTypeView::Animation { frame_count, frame_delay, loop_type, filepath } => join(
            seq![animation_word()] + common + seq![filepath] + pos + seq![
                int_text(frame_count as int),
                frame_delay.text(),
                loop_type.name(),
            ],
            seq![','],
        ),
    }
}

proof fn lemma_object_words()
    ensures
        "Sprite"@ == sprite_word(),
        "Animation"@ == animation_word(),
{
    reveal_strlit("Sprite");
    reveal_strlit("Animation");
    assert("Sprite"@ =~= sprite_word());
    assert("Animation"@ =~= animation_word());
}

fn loop_type_field_exec(p: &Vec<Vec<char>>) -> (r: LoopType)
    ensures
        r == loop_type_field(vv(p@)),
{
    if p.len() >= 9 {
        proof {
            lemma_comma_lit();
        }
        let rest = join_from(p, 8, ",");
        match LoopType::parse_chars(rest.as_slice()) {
            Ok(l) => l,
            Err(_) => LoopType::LoopForever,
        }
    } else {
        LoopType::LoopForever
    }
}

fn file_path_of(f: &Vec<char>) -> (r: FilePath)
    ensures
        r@ == f@,
{
    FilePath(string_from_chars(f))
}

fn object_fields_parse_exec(p: &Vec<Vec<char>>, animation: bool) -> (r: Result<Object, ParseObjectError>)
    requires
        p.len() >= 2,
    ensures
        match (r, object_fields_parse(vv(p@), animation)) {
            (Ok(a), Ok(b)) => a@ == b,
            (Err(a), Err(b)) => a == b,
            _ => false,
        },
{
    let layer = match Layer::parse_chars(p[1].as_slice()) {
        Ok(l) => l,
        Err(_) => return Err(ParseObjectError::InvalidLayer),
    };
    if p.len() < 3 {
        return Err(ParseObjectError::MissingOrigin);
    }
    let origin = match Origin::parse_chars(p[2].as_slice()) {
        Ok(o) => o,
        Err(_) => return Err(ParseObjectError::InvalidOrigin),
    };
    if p.len() < 4 {
        return Err(ParseObjectError::MissingFilePath);
    }
    if p.len() < 5 {
        return Err(ParseObjectError::MissingPositionX);
    }
    let x = match i32_field_exec(p[4].as_slice()) {
        Some(v) => v,
        None => return Err(ParseObjectError::InvalidPositionX),
    };
    if p.len() < 6 {
        return Err(ParseObjectError::MissingPositionY);
    }
    let y = match i32_field_exec(p[5].as_slice()) {
        Some(v) => v,
        None => return Err(ParseObjectError::InvalidPositionY),
    };
    let filepath = file_path_of(&p[3]);
    let commands: Vec<Command> = Vec::new();
    assert(commands_view(commands@) =~= Seq::<CommandView>::empty());
    if !animation {
        return Ok(Object {
            layer,
            origin,
            position: Position { x, y },
            object_type: ObjectType::Sprite(Sprite { filepath }),
            commands,
        });
    }
    if p.len() < 7 {
        return Err(ParseObjectError::MissingFrameCount);
    }
    let frame_count = match parse_usize(p[6].as_slice()) {
        Ok(v) => v as u32,
        Err(_) => return Err(ParseObjectError::InvalidFrameCount),
    };
    if p.len() < 8 {
        return Err(ParseObjectError::MissingFrameDelay);
    }
    let frame_delay = match Decimal::parse(p[7].as_slice()) {
        Some(v) => v,
        None => return Err(ParseObjectError::InvalidFrameDelay),
    };
    let loop_type = loop_type_field_exec(p);
    Ok(Object {
        layer,
        origin,
        position: Position { x, y },
        object_type: ObjectType::Animation(Animation { frame_count, frame_delay, loop_type, filepath }),
        commands,
    })
}

impl Object {
    /// Adds a command by its indentation (at least 1; an indentation of 0 is
    /// refused where there are no commands yet).
    pub fn try_push_cmd(&mut self, cmd: Command, indentation: usize) -> (r: Result<(), CommandPushError>)
        requires
            indentation >= 1 || old(self)@.commands.len() == 0,
        ensures
            indentation == 0 ==> r == Err::<(), CommandPushError>(CommandPushError::InvalidIndentation(1, 0)),
            match push_indented(old(self)@.commands, cmd@, indentation as nat) {
                Ok(n) => r is Ok && final(self)@ == (ObjectView { commands: n, ..old(self)@ }),
                Err(e) => r == Err::<(), CommandPushError>(e) && final(self)@ == old(self)@,
            },
    {
        try_push_cmd(&mut self.commands, cmd, indentation)
    }

    /// Reads a storyboard object line.
    pub fn parse_chars(s: &[char]) -> (r: Result<Object, ParseObjectError>)
        ensures
            match (r, object_parse(s@)) {
                (Ok(a), Ok(b)) => a@ == b,
                (Err(a), Err(b)) => a == b,
                _ => false,
            },
    {
        proof {
            lemma_object_words();
        }
        let p = split_chars(s, ',');
        if starts_with_str(s, "Sprite") {
            if !eq_str(p[0].as_slice(), "Sprite") || p.len() < 2 {
                return Err(ParseObjectError::MissingLayer);
            }
            object_fields_parse_exec(&p, false)
        } else if starts_with_str(s, "Animation") {
            if !eq_str(p[0].as_slice(), "Animation") || p.len() < 2 {
                return Err(ParseObjectError::MissingLayer);
            }
            object_fields_parse_exec(&p, true)
        } else {
            Err(ParseObjectError::UnknownObjectType)
        }
    }

    /// The text of the object's own line, without its commands.
    pub fn line_chars(&self) -> (r: Vec<char>)
        ensures
            r@ == object_line_text(self@),
    {
        proof {
            lemma_object_words();
            lemma_comma_lit();
        }
        let mut parts: Vec<Vec<char>> = Vec::new();
        let mut kind: Vec<char> = Vec::new();
        match &self.object_type {
            ObjectType::Sprite(_) => push_str(&mut kind, "Sprite"),
            ObjectType::Animation(_) => push_str(&mut kind, "Animation"),
        }
        push_part(&mut parts, kind);
        let mut l: Vec<char> = Vec::new();
        self.layer.push_to(&mut l);
        push_part(&mut parts, l);
        let mut o: Vec<char> = Vec::new();
        self.origin.push_to(&mut o);
        push_part(&mut parts, o);
        let fp = match &self.object_type {
            ObjectType::Sprite(sp) => &sp.filepath,
            ObjectType::Animation(a) => &a.filepath,
        };
        push_part(&mut parts, crate::text::chars_of(fp.0.as_str()));
        let mut x: Vec<char> = Vec::new();
        push_int(&mut x, self.position.x as i64);
        push_part(&mut parts, x);
        let mut y: Vec<char> = Vec::new();
        push_int(&mut y, self.position.y as i64);
        push_part(&mut parts, y);
        match &self.object_type {
            ObjectType::Sprite(_) => {},
            ObjectType::Animation(a) => {
                let mut fc: Vec<char> = Vec::new();
                push_int(&mut fc, a.frame_count as i64);
                push_part(&mut parts, fc);
                let mut fd: Vec<char> = Vec::new();
                a.frame_delay.push_to(&mut fd);
                push_part(&mut parts, fd);
                let mut lt: Vec<char> = Vec::new();
                a.loop_type.push_to(&mut lt);
                push_part(&mut parts, lt);
            },
        }
        let ghost v = self@;
        proof {
            let common = seq![v.layer.name(), origin_text(v.origin)];
            let pos = seq![int_text(v.position.x as int), int_text(v.position.y as int)];
            match v.object_type {
                ObjectTypeView::Sprite { filepath } => {
                    assert(vv(parts@) =~= seq![sprite_word()] + common + seq![filepath] + pos);
                },
                ObjectTypeView::Animation { frame_count, frame_delay, loop_type, filepath } => {
                    assert(vv(parts@) =~= seq![animation_word()] + common + seq![filepath] + pos + seq![
                        int_text(frame_count as int),
                        frame_delay.text(),
                        loop_type.name(),
                    ]);
                },
            }
        }
        join_chars(&parts, ",")
    }
}


/// The text of an object: its own line, then the lines of its commands,
/// indented from one space.
pub open spec fn object_text(o: ObjectView) -> Seq<char> {
    join(seq![object_line_text(o)] + command_lines(o.commands, 1), seq!['\n'])
}

impl VersionedToString for Object {
    open spec fn text_of(v: ObjectView, version: Version) -> Option<Seq<char>> {
        Some(object_text(v))
    }

    fn to_chars(&self, version: Version) -> (r: Option<Vec<char>>) {
        let mut lines: Vec<Vec<char>> = Vec::new();
        push_part(&mut lines, self.line_chars());
        push_command_lines(&mut lines, &self.commands, 1);
        proof {
            reveal_strlit("\n");
            assert("\n"@ =~= seq!['\n']);
            assert(vv(lines@) =~= seq![object_line_text(self@)] + command_lines(self@.commands, 1));
        }
        Some(join_chars(&lines, "\n"))
    }
}

impl VersionedFromStr for Object {
    type Err = ParseObjectError;

    open spec fn parse_text(s: Seq<char>, version: Version) -> Result<Option<ObjectView>, ParseObjectError> {
        match object_parse(s) {
            Ok(o) => Ok(Some(o)),
            Err(e) => Err(e),
        }
    }

    fn from_chars(s: &[char], version: Version) -> (r: Result<Option<Object>, ParseObjectError>) {
        match Object::parse_chars(s) {
            Ok(o) => Ok(Some(o)),
            Err(e) => Err(e),
        }
    }
}


impl View for Layer {
    type V = Layer;

    open spec fn view(&self) -> Layer {
        *self
    }
}

impl VersionedFromStr for Layer {
    type Err = ParseLayerError;

    open spec fn parse_text(s: Seq<char>, version: Version) -> Result<Option<Layer>, ParseLayerError> {
        match Layer::parse_name(s) {
            Some(x) => Ok(Some(x)),
            None => Err(ParseLayerError::UnknownVariant),
        }
    }

    fn from_chars(s: &[char], version: Version) -> (r: Result<Option<Layer>, ParseLayerError>) {
        match Layer::parse_chars(s) {
            Ok(v) => Ok(Some(v)),
            Err(e) => Err(e),
        }
    }
}

impl VersionedToString for Layer {
    open spec fn text_of(v: Layer, version: Version) -> Option<Seq<char>> {
        Some(v.name())
    }

    fn to_chars(&self, version: Version) -> (r: Option<Vec<char>>) {
        let mut out: Vec<char> = Vec::new();
        self.push_to(&mut out);
        assert(out@ =~= self.name());
        Some(out)
    }
}

impl View for LoopType {
    type V = LoopType;

    open spec fn view(&self) -> LoopType {
        *self
    }
}

impl VersionedFromStr for LoopType {
    type Err = ParseLoopTypeError;

    open spec fn parse_text(s: Seq<char>, version: Version) -> Result<Option<LoopType>, ParseLoopTypeError> {
        match LoopType::parse_name(s) {
            Some(x) => Ok(Some(x)),
            None => Err(ParseLoopTypeError::UnknownVariant),
        }
    }

    fn from_chars(s: &[char], version: Version) -> (r: Result<Option<LoopType>, ParseLoopTypeError>) {
        match LoopType::parse_chars(s) {
            Ok(v) => Ok(Some(v)),
            Err(e) => Err(e),
        }
    }
}

impl VersionedToString for LoopType {
    open spec fn text_of(v: LoopType, version: Version) -> Option<Seq<char>> {
        Some(v.name())
    }

    fn to_chars(&self, version: Version) -> (r: Option<Vec<char>>) {
        let mut out: Vec<char> = Vec::new();
        self.push_to(&mut out);
        assert(out@ =~= self.name());
        Some(out)
    }
}

impl View for Origin {
    type V = Origin;

    open spec fn view(&self) -> Origin {
        *self
    }
}

impl VersionedFromStr for Origin {
    type Err = ParseOriginError;

    open spec fn parse_text(s: Seq<char>, version: Version) -> Result<Option<Origin>, ParseOriginError> {
        match origin_parse(s) {
            Ok(x) => Ok(Some(x)),
            Err(e) => Err(e),
        }
    }

    fn from_chars(s: &[char], version: Version) -> (r: Result<Option<Origin>, ParseOriginError>) {
        match Origin::parse_chars(s) {
            Ok(v) => Ok(Some(v)),
            Err(e) => Err(e),
        }
    }
}

impl VersionedToString for Origin {
    open spec fn text_of(v: Origin, version: Version) -> Option<Seq<char>> {
        Some(origin_text(v))
    }

    fn to_chars(&self, version: Version) -> (r: Option<Vec<char>>) {
        let mut out: Vec<char> = Vec::new();
        self.push_to(&mut out);
        assert(out@ =~= origin_text(*self));
        Some(out)
    }
}


/// Whether `n` stands in `s` as a run of consecutive characters.
pub open spec fn is_piece(n: Seq<char>, s: Seq<char>) -> bool {
    exists|i: int| 0 <= i && i + n.len() <= s.len() && #[trigger] s.subrange(i, i + n.len()) == n
}

/// Whether a path is a bare file name on every platform: not empty, not `.`
/// or `..`, and without `/`, `\` or `:`.
pub open spec fn is_bare_name(s: Seq<char>) -> bool {
    &&& s.len() > 0
    &&& s != seq!['.']
    &&& s != seq!['.', '.']
    &&& !s.contains('/')
    &&& !s.contains('\\')
    &&& !s.contains(':')
}

/// The index of the last `.` of a name, or -1.
pub open spec fn last_dot(name: Seq<char>) -> int
    decreases name.len(),
{
    if name.len() == 0 {
        -1
    } else if name.last() == '.' {
        name.len() - 1
    } else {
        last_dot(name.drop_last())
    }
}

/// The extension of a file name, as `std::path::Path::extension` documents
/// it: none where the name has no `.`, or its only `.` is its first
/// character; else what follows the last `.`.
pub open spec fn extension_of(name: Seq<char>) -> Option<Seq<char>> {
    let k = last_dot(name);
    if k <= 0 {
        None
    } else {
        Some(name.subrange(k + 1, name.len() as int))
    }
}

/// Calls `std::path::Path::file_name` and converts the name to a `String`
/// (lossless here: the name is a piece of a `&str`). By its documentation
/// the file name is the last component of the path, so it is a nonempty run
/// of the path's characters without a separator, and a bare name is its own
/// file name; it is never `..`, for which the documentation says `None`.
/// Which component is last where the path holds separators or prefixes
/// depends on the platform, and is not stated.
#[verifier::external_body]
fn path_file_name(s: &str) -> (r: Option<String>)
    ensures
        r is Some ==> r.unwrap()@.len() > 0 && !r.unwrap()@.contains('/') && is_piece(r.unwrap()@, s@),
        r is Some ==> r.unwrap()@ != seq!['.', '.'],
        is_bare_name(s@) ==> r is Some && r.unwrap()@ == s@,
{
    match std::path::Path::new(s).file_name() {
        Some(n) => Some(n.to_string_lossy().to_string()),
        None => None,
    }
}

/// Facts of the last `.` of a name: it is a `.`, and none follows it.
proof fn lemma_last_dot(name: Seq<char>, k: int)
    requires
        -1 <= k < name.len(),
        k >= 0 ==> name[k] == '.',
        forall|j: int| k < j < name.len() ==> name[j] != '.',
    ensures
        last_dot(name) == k,
    decreases name.len(),
{
    if name.len() > 0 {
        if name.last() == '.' {
            assert(name[name.len() - 1] == '.');
        } else {
            assert(name[name.len() - 1] != '.');
            let p = name.drop_last();
            assert forall|j: int| k < j < p.len() implies p[j] != '.' by {
                assert(p[j] == name[j]);
            }
            if k >= 0 {
                assert(p[k] == name[k]);
            }
            lemma_last_dot(p, k);
        }
    }
}

/// The extension of a file name, as `std::path::Path::extension` gives it
/// for a path whose file name is `name` (see `extension_of`).
pub fn extension_of_name(name: &str) -> (r: Option<String>)
    ensures
        r is Some <==> extension_of(name@) is Some,
        r is Some ==> extension_of(name@) == Some(r.unwrap()@),
{
    let c = crate::text::chars_of(name);
    let mut i: usize = c.len();
    while i > 0 && c[i - 1] != '.'
        invariant
            i <= c.len(),
            c@ == name@,
            forall|j: int| i <= j < c.len() ==> c@[j] != '.',
        decreases i,
    {
        i = i - 1;
    }
    proof {
        lemma_last_dot(name@, i - 1);
    }
    if i <= 1 {
        None
    } else {
        let e = crate::text::slice_to_vec(c.as_slice(), i, c.len());
        Some(string_from_chars(&e))
    }
}

/// The name of frame `i`: the stem, the number, and the extension.
pub open spec fn frame_name(stem: Seq<char>, i: nat, ext: Seq<char>) -> Seq<char> {
    stem + int_text(i as int) + ext
}

/// The file names of the frames of an animation: the stem followed by the
/// frame number and the extension (with its dot, or empty).
pub fn frame_names(stem: &str, extension: &str, frame_count: u32) -> (r: Vec<String>)
    ensures
        r@.len() == frame_count,
        forall|i: int| 0 <= i < frame_count ==> (#[trigger] r@[i])@ == frame_name(stem@, i as nat, extension@),
{
    let mut r: Vec<String> = Vec::new();
    let mut i: u32 = 0;
    while i < frame_count
        invariant
            i <= frame_count,
            r@.len() == i,
            forall|j: int| 0 <= j < i ==> (#[trigger] r@[j])@ == frame_name(stem@, j as nat, extension@),
        decreases frame_count - i,
    {
        let mut c: Vec<char> = Vec::new();
        push_str(&mut c, stem);
        crate::text::push_nat(&mut c, i as u64);
        push_str(&mut c, extension);
        assert(c@ =~= frame_name(stem@, i as nat, extension@));
        r.push(string_from_chars(&c));
        i = i + 1;
    }
    r
}

/// The stem and the extension (with its dot, or empty) that frame names are
/// made of: the file name with `.` and the extension cut off its end where it
/// ends so.
pub open spec fn frame_stem(name: Seq<char>, extension: Option<Seq<char>>) -> (Seq<char>, Seq<char>) {
    match extension {
        Some(e) => {
            let d = seq!['.'] + e;
            if d.len() <= name.len() && name.subrange(name.len() - d.len(), name.len() as int) == d {
                (name.subrange(0, name.len() - d.len()), d)
            } else {
                (name, d)
            }
        },
        None => (name, Seq::empty()),
    }
}

/// The file names of the frames of an animation whose file name and
/// extension are given: the stem, the frame number, and the extension.
pub fn frame_names_of(file_name: &str, extension: Option<&str>, frame_count: u32) -> (r: Vec<String>)
    ensures
        r@.len() == frame_count,
        forall|i: int| 0 <= i < frame_count ==> (#[trigger] r@[i])@ == frame_name(
            frame_stem(file_name@, match extension { Some(e) => Some(e@), None => None }).0,
            i as nat,
            frame_stem(file_name@, match extension { Some(e) => Some(e@), None => None }).1,
        ),
{
    let name = crate::text::chars_of(file_name);
    let mut ext: Vec<char> = Vec::new();
    let mut stem = crate::text::slice_to_vec(name.as_slice(), 0, name.len());
    assert(stem@ =~= file_name@);
    match extension {
        Some(e) => {
            ext.push('.');
            push_str(&mut ext, e);
            assert(ext@ =~= seq!['.'] + e@);
            if ext.len() <= name.len() && crate::text::chars_eq(
                crate::text::slice_to_vec(name.as_slice(), name.len() - ext.len(), name.len()).as_slice(),
                ext.as_slice(),
            ) {
                stem = crate::text::slice_to_vec(name.as_slice(), 0, name.len() - ext.len());
            }
        },
        None => {
            assert(ext@ =~= Seq::<char>::empty());
        },
    }
    let stem_s = string_from_chars(&stem);
    let ext_s = string_from_chars(&ext);
    frame_names(stem_s.as_str(), ext_s.as_str(), frame_count)
}

impl Animation {
    /// The file names of the frames, from the file name of the animation's
    /// path with its extension cut off (see `frame_names_of`), the extension
    /// being `extension_of` the file name; `None` where the path has no file
    /// name. The file name is a nonempty run of the path's characters without
    /// `/`, other than `..`; a bare name (see `is_bare_name`) is its own file
    /// name. Which component of another path is its file name is the
    /// platform's rule.
    pub fn frame_file_names(&self) -> (r: Option<Vec<String>>)
        ensures
            r matches Some(v) ==> v@.len() == self.frame_count && exists|name: Seq<char>|
                #![trigger extension_of(name)]
                name.len() > 0 && !name.contains('/') && name != seq!['.', '.'] && is_piece(name, self.filepath@)
                && forall|i: int| 0 <= i < self.frame_count ==> (#[trigger] v@[i])@ == frame_name(
                    frame_stem(name, extension_of(name)).0,
                    i as nat,
                    frame_stem(name, extension_of(name)).1,
                ),
            is_bare_name(self.filepath@) ==> (r matches Some(v) && v@.len() == self.frame_count && forall|i: int|
                0 <= i < self.frame_count ==> (#[trigger] v@[i])@ == frame_name(
                    frame_stem(self.filepath@, extension_of(self.filepath@)).0,
                    i as nat,
                    frame_stem(self.filepath@, extension_of(self.filepath@)).1,
                )),
    {
        let file_name = match path_file_name(self.filepath.0.as_str()) {
            Some(n) => n,
            None => return None,
        };
        let ext = extension_of_name(file_name.as_str());
        let r = match &ext {
            Some(e) => frame_names_of(file_name.as_str(), Some(e.as_str()), self.frame_count),
            None => frame_names_of(file_name.as_str(), None, self.frame_count),
        };
        proof {
            let x: Option<Seq<char>> = match ext {
                Some(e) => Some(e@),
                None => None,
            };
            assert(forall|i: int| 0 <= i < self.frame_count ==> (#[trigger] r@[i])@ == frame_name(
                frame_stem(file_name@, x).0,
                i as nat,
                frame_stem(file_name@, x).1,
            ));
            assert(x == extension_of(file_name@));
        }
        Some(r)
    }
}

} // verus!
