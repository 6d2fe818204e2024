//! Events that are not storyboard objects: backgrounds, videos, breaks and
//! colour transformations.
use vstd::prelude::*;

use crate::events::storyboard::cmds::{
    commands_view, push_indented, try_push_cmd, Command, CommandPushError, CommandView,
};
use crate::events::storyboard::sprites::FilePath;
use crate::hitobjects::{
    has_time_offset, i32_field, i32_field_exec, lemma_comma_lit, rest_from, time_field,
    time_field_exec, written_time, written_time_exec,
};
use crate::text::{
    int_text, join, join_chars, join_from, parse_int_spec, parse_u8, push_int, push_part, split,
    split_chars, starts_with, starts_with_str, string_from_chars, vv, eq_str, parse_usize,
    ParseIntError,
};
use crate::types::{Integer, Position, Version, VersionedFromStr, VersionedToString};

verus! {

/// Error reading a background event.
#[derive(Clone, Copy, Debug, Hash, PartialEq, Eq)]
pub enum ParseBackgroundError {
    WrongEventType,
    MissingStartTime,
    InvalidStartTime,
    MissingFileName,
    MissingX,
    InvalidX,
    MissingY,
    InvalidY,
}

/// Error reading a video event.
#[derive(Clone, Copy, Debug, Hash, PartialEq, Eq)]
pub enum ParseVideoError {
    WrongEventType,
    MissingStartTime,
    InvalidStartTime,
    MissingFileName,
    MissingX,
    InvalidX,
    MissingY,
    InvalidY,
}

/// Error reading a break event.
#[derive(Clone, Copy, Debug, Hash, PartialEq, Eq)]
pub enum ParseBreakError {
    WrongEventType,
    MissingStartTime,
    InvalidStartTime,
    MissingEndTime,
    InvalidEndTime,
}

/// Error reading a colour transformation event.
#[derive(Clone, Copy, Debug, Hash, PartialEq, Eq)]
pub enum ParseColourTransformationError {
    WrongEventType,
    MissingStartTime,
    InvalidStartTime,
    MissingEndTime,
    InvalidEndTime,
    MissingRed,
    InvalidRed,
    MissingGreen,
    InvalidGreen,
    MissingBlue,
    InvalidBlue,
}

/// Error reading a sprite of the legacy event format.
#[derive(Clone, Copy, Debug, Hash, PartialEq, Eq)]
pub enum ParseSpriteLegacyError {
    WrongEventType,
    MissingLayer,
    InvalidLayer,
    MissingOrigin,
    InvalidOrigin,
    MissingFileName,
    MissingX,
    InvalidX,
    MissingY,
    InvalidY,
}

/// Error reading an animation of the legacy event format.
#[derive(Clone, Copy, Debug, Hash, PartialEq, Eq)]
pub enum ParseAnimationLegacyError {
    WrongEventType,
    MissingLayer,
    InvalidLayer,
    MissingOrigin,
    InvalidOrigin,
    MissingFileName,
    MissingX,
    InvalidX,
    MissingY,
    InvalidY,
}

/// Error reading a sample of the legacy event format.
#[derive(Clone, Copy, Debug, Hash, PartialEq, Eq)]
pub enum ParseSampleLegacyError {
    MissingTime,
    InvalidTime,
    WrongEventType,
    MissingFileName,
    MissingVolume,
    InvalidVolume,
    MissingLayer,
    InvalidLayer,
}

/// Where a file name and optional position that follow `k` fields fail, as
/// the four errors: missing x, invalid x, missing y, invalid y (indices 0 to 3).
pub open spec fn file_position_parse(p: Seq<Seq<char>>, k: int) -> Result<Option<Position>, u8> {
    if p.len() <= k + 1 {
        Ok(None)
    } else {
        match i32_field(p[k + 1]) {
            None => Err(1),
            Some(x) => if p.len() <= k + 2 {
                Err(2)
            } else {
                match i32_field(rest_from(p, k + 2, ',')) {
                    None => Err(3),
                    Some(y) => Ok(Some(Position { x, y })),
                }
            },
        }
    }
}

/// The text of an optional position: `,x,y`, or nothing.
pub open spec fn position_text(p: Option<Position>) -> Seq<char> {
    match p {
        Some(pos) => seq![','] + int_text(pos.x as int) + seq![','] + int_text(pos.y as int),
        None => Seq::empty(),
    }
}

fn file_position_parse_exec(p: &Vec<Vec<char>>, k: usize) -> (r: Result<Option<Position>, u8>)
    requires
        k < p.len(),
    ensures
        match (r, file_position_parse(vv(p@), k as int)) {
            (Ok(a), Ok(b)) => a == b,
            (Err(a), Err(b)) => a == b,
            _ => false,
        },
{
    if p.len() <= k + 1 {
        return Ok(None);
    }
    let x = match i32_field_exec(p[k + 1].as_slice()) {
        Some(x) => x,
        None => return Err(1),
    };
    if p.len() <= k + 2 {
        return Err(2);
    }
    proof {
        lemma_comma_lit();
    }
    let rest = join_from(p, k + 2, ",");
    match i32_field_exec(rest.as_slice()) {
        Some(y) => Ok(Some(Position { x, y })),
        None => Err(3),
    }
}

fn push_position(out: &mut Vec<char>, p: Option<Position>)
    ensures
        final(out)@ == old(out)@ + position_text(p),
{
    let ghost o = out@;
    match p {
        Some(pos) => {
            out.push(',');
            push_int(out, pos.x as i64);
            out.push(',');
            push_int(out, pos.y as i64);
            assert(out@ =~= o + position_text(p));
        },
        None => {
            assert(out@ =~= o + position_text(p));
        },
    }
}

/// The background image of the beatmap.
#[derive(Debug, Hash, PartialEq, Eq)]
pub struct Background {
    pub start_time: Integer,
    pub file_name: FilePath,
    pub position: Option<Position>,
    pub commands: Vec<Command>,
}

/// The view of a background.
pub struct BackgroundView {
    pub start_time: Integer,
    pub file_name: Seq<char>,
    pub position: Option<Position>,
    pub commands: Seq<CommandView>,
}

impl View for Background {
    type V = BackgroundView;

    open spec fn view(&self) -> BackgroundView {
        BackgroundView {
            start_time: self.start_time,
            file_name: self.file_name@,
            position: self.position,
            commands: commands_view(self.commands@),
        }
    }
}

/// What reading a background line gives: `0,start_time,file_name[,x,y]`.
pub open spec fn background_parse(s: Seq<char>) -> Result<BackgroundView, ParseBackgroundError> {
    let p = split(s, ',');
    if !starts_with(s, seq!['0']) {
        Err(ParseBackgroundError::WrongEventType)
    } else if p[0] != seq!['0'] || p.len() < 2 {
        Err(ParseBackgroundError::MissingStartTime)
    } else {
        match i32_field(p[1]) {
            None => Err(ParseBackgroundError::InvalidStartTime),
            Some(st) => if p.len() < 3 {
                Err(ParseBackgroundError::MissingFileName)
            } else {
                match file_position_parse(p, 2) {
                    Err(1) => Err(ParseBackgroundError::InvalidX),
                    Err(2) => Err(ParseBackgroundError::MissingY),
                    Err(_) => Err(ParseBackgroundError::InvalidY),
                    Ok(pos) => Ok(BackgroundView { start_time: st, file_name: p[2], position: pos, commands: Seq::empty() }),
                }
            },
        }
    }
}

/// The text of a background line; its start time is written as it is held.
pub open spec fn background_text(b: BackgroundView) -> Seq<char> {
    seq!['0', ','] + int_text(b.start_time as int) + seq![','] + b.file_name + position_text(b.position)
}

impl Background {
    /// Adds a command by its indentation (at least 1; an indentation of 0 is
    /// refused where there are no commands yet).
    pub fn try_push_cmd(&mut self, cmd: Command, indentation: usize) -> (r: Result<(), CommandPushError>)
        requires
            indentation >= 1 || old(self)@.commands.len() == 0,
        ensures
            indentation == 0 ==> r == Err::<(), CommandPushError>(CommandPushError::InvalidIndentation(1, 0)),
            match push_indented(old(self)@.commands, cmd@, indentation as nat) {
                Ok(n) => r is Ok && final(self)@ == (BackgroundView { commands: n, ..old(self)@ }),
                Err(e) => r == Err::<(), CommandPushError>(e) && final(self)@ == old(self)@,
            },
    {
        try_push_cmd(&mut self.commands, cmd, indentation)
    }
}

impl VersionedFromStr for Background {
    type Err = ParseBackgroundError;

    open spec fn parse_text(s: Seq<char>, version: Version) -> Result<Option<BackgroundView>, ParseBackgroundError> {
        match background_parse(s) {
            Ok(b) => Ok(Some(b)),
            Err(e) => Err(e),
        }
    }

    fn from_chars(s: &[char], version: Version) -> (r: Result<Option<Background>, ParseBackgroundError>) {
        proof {
            reveal_strlit("0");
            assert("0"@ =~= seq!['0']);
        }
        let p = split_chars(s, ',');
        if !starts_with_str(s, "0") {
            return Err(ParseBackgroundError::WrongEventType);
        }
        if !eq_str(p[0].as_slice(), "0") || p.len() < 2 {
            return Err(ParseBackgroundError::MissingStartTime);
        }
        let st = match i32_field_exec(p[1].as_slice()) {
            Some(v) => v,
            None => return Err(ParseBackgroundError::InvalidStartTime),
        };
        if p.len() < 3 {
            return Err(ParseBackgroundError::MissingFileName);
        }
        let pos = match file_position_parse_exec(&p, 2) {
            Ok(pos) => pos,
            Err(1) => return Err(ParseBackgroundError::InvalidX),
            Err(2) => return Err(ParseBackgroundError::MissingY),
            Err(_) => return Err(ParseBackgroundError::InvalidY),
        };
        let commands: Vec<Command> = Vec::new();
        assert(commands_view(commands@) =~= Seq::<CommandView>::empty());
        Ok(Some(Background { start_time: st, file_name: FilePath(string_from_chars(&p[2])), position: pos, commands }))
    }
}

impl VersionedToString for Background {
    open spec fn text_of(v: BackgroundView, version: Version) -> Option<Seq<char>> {
        Some(background_text(v))
    }

    fn to_chars(&self, version: Version) -> (r: Option<Vec<char>>) {
        let mut out: Vec<char> = Vec::new();
        out.push('0');
        out.push(',');
        push_int(&mut out, self.start_time as i64);
        out.push(',');
        crate::text::push_str(&mut out, self.file_name.0.as_str());
        push_position(&mut out, self.position);
        assert(out@ =~= background_text(self@));
        Some(out)
    }
}

/// A video shown in the background.
#[derive(Debug, Hash, PartialEq, Eq)]
pub struct Video {
    pub start_time: Integer,
    pub file_name: FilePath,
    pub position: Option<Position>,
    pub commands: Vec<Command>,
    short_hand: bool,
}

/// The view of a video: whether its header is written `1` rather than `Video`
/// is kept.
pub struct VideoView {
    pub start_time: Integer,
    pub file_name: Seq<char>,
    pub position: Option<Position>,
    pub commands: Seq<CommandView>,
    pub short_hand: bool,
}

impl View for Video {
    type V = VideoView;

    closed spec fn view(&self) -> VideoView {
        VideoView {
            start_time: self.start_time,
            file_name: self.file_name@,
            position: self.position,
            commands: commands_view(self.commands@),
            short_hand: self.short_hand,
        }
    }
}

impl Video {
    /// A video with no commands, written with the short header `1`.
    pub fn new(start_time: Integer, file_name: FilePath, position: Option<Position>) -> (r: Video)
        ensures
            r@ == (VideoView {
                start_time,
                file_name: file_name@,
                position,
                commands: Seq::empty(),
                short_hand: true,
            }),
    {
        let commands: Vec<Command> = Vec::new();
        assert(commands_view(commands@) =~= Seq::<CommandView>::empty());
        Video { start_time, file_name, position, commands, short_hand: true }
    }
}

impl Video {
    /// Adds a command by its indentation (at least 1; an indentation of 0 is
    /// refused where there are no commands yet).
    pub fn try_push_cmd(&mut self, cmd: Command, indentation: usize) -> (r: Result<(), CommandPushError>)
        requires
            indentation >= 1 || old(self)@.commands.len() == 0,
        ensures
            indentation == 0 ==> r == Err::<(), CommandPushError>(CommandPushError::InvalidIndentation(1, 0)),
            match push_indented(old(self)@.commands, cmd@, indentation as nat) {
                Ok(n) => r is Ok && final(self)@ == (VideoView { commands: n, ..old(self)@ }),
                Err(e) => r == Err::<(), CommandPushError>(e) && final(self)@ == old(self)@,
            },
    {
        try_push_cmd(&mut self.commands, cmd, indentation)
    }
}

/// `Video`.
pub open spec fn video_word() -> Seq<char> {
    seq!['V', 'i', 'd', 'e', 'o']
}

/// `Break`.
pub open spec fn break_word() -> Seq<char> {
    seq!['B', 'r', 'e', 'a', 'k']
}

/// What reading a video line gives: `1,start_time,file_name[,x,y]` or with
/// the header `Video`; times of versions 3 and 4 are shifted.
pub open spec fn video_parse(s: Seq<char>, version: Version) -> Result<VideoView, ParseVideoError> {
    let p = split(s, ',');
    let short = starts_with(s, seq!['1']);
    if !short && !starts_with(s, video_word()) {
        Err(ParseVideoError::WrongEventType)
    } else if p[0] != (if short { seq!['1'] } else { video_word() }) || p.len() < 2 {
        Err(ParseVideoError::MissingStartTime)
    } else {
        match time_field(p[1], has_time_offset(version)) {
            None => Err(ParseVideoError::InvalidStartTime),
            Some(st) => if p.len() < 3 {
                Err(ParseVideoError::MissingFileName)
            } else {
                match file_position_parse(p, 2) {
                    Err(1) => Err(ParseVideoError::InvalidX),
                    Err(2) => Err(ParseVideoError::MissingY),
                    Err(_) => Err(ParseVideoError::InvalidY),
                    Ok(pos) => Ok(VideoView { start_time: st, file_name: p[2], position: pos, commands: Seq::empty(), short_hand: short }),
                }
            },
        }
    }
}

/// The text of a video line.
pub open spec fn video_text(v: VideoView, version: Version) -> Seq<char> {
    (if v.short_hand { seq!['1'] } else { video_word() }) + seq![','] + int_text(written_time(v.start_time, version))
        + seq![','] + v.file_name + position_text(v.position)
}

proof fn lemma_words()
    ensures
        "Video"@ == video_word(),
        "Break"@ == break_word(),
        "1"@ == seq!['1'],
        "2"@ == seq!['2'],
        "3"@ == seq!['3'],
{
    reveal_strlit("Video");
    reveal_strlit("Break");
    reveal_strlit("1");
    reveal_strlit("2");
    reveal_strlit("3");
    assert("Video"@ =~= video_word());
    assert("Break"@ =~= break_word());
    assert("1"@ =~= seq!['1']);
    assert("2"@ =~= seq!['2']);
    assert("3"@ =~= seq!['3']);
}

impl VersionedFromStr for Video {
    type Err = ParseVideoError;

    open spec fn parse_text(s: Seq<char>, version: Version) -> Result<Option<VideoView>, ParseVideoError> {
        match video_parse(s, version) {
            Ok(b) => Ok(Some(b)),
            Err(e) => Err(e),
        }
    }

    fn from_chars(s: &[char], version: Version) -> (r: Result<Option<Video>, ParseVideoError>) {
        proof {
            lemma_words();
        }
        let p = split_chars(s, ',');
        let short = starts_with_str(s, "1");
        if !short && !starts_with_str(s, "Video") {
            return Err(ParseVideoError::WrongEventType);
        }
        let header_ok = if short {
            eq_str(p[0].as_slice(), "1")
        } else {
            eq_str(p[0].as_slice(), "Video")
        };
        if !header_ok || p.len() < 2 {
            return Err(ParseVideoError::MissingStartTime);
        }
        let st = match time_field_exec(p[1].as_slice(), 3 <= version && version <= 4) {
            Some(v) => v,
            None => return Err(ParseVideoError::InvalidStartTime),
        };
        if p.len() < 3 {
            return Err(ParseVideoError::MissingFileName);
        }
        let pos = match file_position_parse_exec(&p, 2) {
            Ok(pos) => pos,
            Err(1) => return Err(ParseVideoError::InvalidX),
            Err(2) => return Err(ParseVideoError::MissingY),
            Err(_) => return Err(ParseVideoError::InvalidY),
        };
        let commands: Vec<Command> = Vec::new();
        assert(commands_view(commands@) =~= Seq::<CommandView>::empty());
        Ok(Some(Video { start_time: st, file_name: FilePath(string_from_chars(&p[2])), position: pos, commands, short_hand: short }))
    }
}

impl VersionedToString for Video {
    open spec fn text_of(v: VideoView, version: Version) -> Option<Seq<char>> {
        Some(video_text(v, version))
    }

    fn to_chars(&self, version: Version) -> (r: Option<Vec<char>>) {
        proof {
            lemma_words();
        }
        let mut out: Vec<char> = Vec::new();
        if self.short_hand {
            out.push('1');
            assert(out@ =~= seq!['1']);
        } else {
            crate::text::push_str(&mut out, "Video");
        }
        out.push(',');
        push_int(&mut out, written_time_exec(self.start_time, version));
        out.push(',');
        crate::text::push_str(&mut out, self.file_name.0.as_str());
        push_position(&mut out, self.position);
        assert(out@ =~= video_text(self@, version));
        Some(out)
    }
}

/// A break: a time without hitobjects.
#[derive(Clone, Debug, Hash, PartialEq, Eq)]
pub struct Break {
    pub start_time: Integer,
    pub end_time: Integer,
    short_hand: bool,
}

/// The view of a break: whether its header is written `2` rather than `Break`
/// is kept.
pub struct BreakView {
    pub start_time: Integer,
    pub end_time: Integer,
    pub short_hand: bool,
}

impl View for Break {
    type V = BreakView;

    closed spec fn view(&self) -> BreakView {
        BreakView { start_time: self.start_time, end_time: self.end_time, short_hand: self.short_hand }
    }
}

impl Break {
    /// A break written with the short header `2`.
    pub fn new(start_time: Integer, end_time: Integer) -> (r: Break)
        ensures
            r@ == (BreakView { start_time, end_time, short_hand: true }),
    {
        Break { start_time, end_time, short_hand: true }
    }
}

/// What reading a break line gives: `2,start_time,end_time` or with the header
/// `Break`; times of versions 3 and 4 are shifted.
pub open spec fn break_parse(s: Seq<char>, version: Version) -> Result<BreakView, ParseBreakError> {
    let p = split(s, ',');
    let short = starts_with(s, seq!['2']);
    if !short && !starts_with(s, break_word()) {
        Err(ParseBreakError::WrongEventType)
    } else if p[0] != (if short { seq!['2'] } else { break_word() }) || p.len() < 2 {
        Err(ParseBreakError::MissingStartTime)
    } else {
        match time_field(p[1], has_time_offset(version)) {
            None => Err(ParseBreakError::InvalidStartTime),
            Some(st) => if p.len() < 3 {
                Err(ParseBreakError::MissingEndTime)
            } else {
                match time_field(rest_from(p, 2, ','), has_time_offset(version)) {
                    None => Err(ParseBreakError::InvalidEndTime),
                    Some(et) => Ok(BreakView { start_time: st, end_time: et, short_hand: short }),
                }
            },
        }
    }
}

/// The text of a break line.
pub open spec fn break_text(b: BreakView, version: Version) -> Seq<char> {
    (if b.short_hand { seq!['2'] } else { break_word() }) + seq![','] + int_text(written_time(b.start_time, version))
        + seq![','] + int_text(written_time(b.end_time, version))
}

impl VersionedFromStr for Break {
    type Err = ParseBreakError;

    open spec fn parse_text(s: Seq<char>, version: Version) -> Result<Option<BreakView>, ParseBreakError> {
        match break_parse(s, version) {
            Ok(b) => Ok(Some(b)),
            Err(e) => Err(e),
        }
    }

    fn from_chars(s: &[char], version: Version) -> (r: Result<Option<Break>, ParseBreakError>) {
        proof {
            lemma_words();
            lemma_comma_lit();
        }
        let p = split_chars(s, ',');
        let short = starts_with_str(s, "2");
        if !short && !starts_with_str(s, "Break") {
            return Err(ParseBreakError::WrongEventType);
        }
        let header_ok = if short {
            eq_str(p[0].as_slice(), "2")
        } else {
            eq_str(p[0].as_slice(), "Break")
        };
        if !header_ok || p.len() < 2 {
            return Err(ParseBreakError::MissingStartTime);
        }
        let shifted = 3 <= version && version <= 4;
        let st = match time_field_exec(p[1].as_slice(), shifted) {
            Some(v) => v,
            None => return Err(ParseBreakError::InvalidStartTime),
        };
        if p.len() < 3 {
            return Err(ParseBreakError::MissingEndTime);
        }
        let rest = join_from(&p, 2, ",");
        let et = match time_field_exec(rest.as_slice(), shifted) {
            Some(v) => v,
            None => return Err(ParseBreakError::InvalidEndTime),
        };
        Ok(Some(Break { start_time: st, end_time: et, short_hand: short }))
    }
}

impl VersionedToString for Break {
    open spec fn text_of(v: BreakView, version: Version) -> Option<Seq<char>> {
        Some(break_text(v, version))
    }

    fn to_chars(&self, version: Version) -> (r: Option<Vec<char>>) {
        proof {
            lemma_words();
        }
        let mut out: Vec<char> = Vec::new();
        if self.short_hand {
            out.push('2');
            assert(out@ =~= seq!['2']);
        } else {
            crate::text::push_str(&mut out, "Break");
        }
        out.push(',');
        push_int(&mut out, written_time_exec(self.start_time, version));
        out.push(',');
        push_int(&mut out, written_time_exec(self.end_time, version));
        assert(out@ =~= break_text(self@, version));
        Some(out)
    }
}

/// A colour transformation of the playfield.
#[derive(Clone, Copy, Debug, Hash, PartialEq, Eq)]
pub struct ColourTransformation {
    pub start_time: Integer,
    pub red: u8,
    pub green: u8,
    pub blue: u8,
}

impl View for ColourTransformation {
    type V = ColourTransformation;

    open spec fn view(&self) -> ColourTransformation {
        *self
    }
}

/// What reading a colour transformation line gives: `3,start_time,r,g,b`;
/// times of versions 3 and 4 are shifted.
pub open spec fn colour_transformation_parse(s: Seq<char>, version: Version) -> Result<ColourTransformation, ParseColourTransformationError> {
    let p = split(s, ',');
    if !starts_with(s, seq!['3']) {
        Err(ParseColourTransformationError::WrongEventType)
    } else if p[0] != seq!['3'] || p.len() < 2 {
        Err(ParseColourTransformationError::MissingStartTime)
    } else {
        match time_field(p[1], has_time_offset(version)) {
            None => Err(ParseColourTransformationError::InvalidStartTime),
            Some(st) => if p.len() < 3 {
                Err(ParseColourTransformationError::MissingRed)
            } else {
                match parse_int_spec(p[2], 0, 255) {
                    Err(_) => Err(ParseColourTransformationError::InvalidRed),
                    Ok(r) => if p.len() < 4 {
                        Err(ParseColourTransformationError::MissingGreen)
                    } else {
                        match parse_int_spec(p[3], 0, 255) {
                            Err(_) => Err(ParseColourTransformationError::InvalidGreen),
                            Ok(g) => if p.len() < 5 {
                                Err(ParseColourTransformationError::MissingBlue)
                            } else {
                                match parse_int_spec(rest_from(p, 4, ','), 0, 255) {
                                    Err(_) => Err(ParseColourTransformationError::InvalidBlue),
                                    Ok(b) => Ok(ColourTransformation { start_time: st, red: r as u8, green: g as u8, blue: b as u8 }),
                                }
                            },
                        }
                    },
                }
            },
        }
    }
}

/// The text of a colour transformation; it is not written from version 14 on.
pub open spec fn colour_transformation_text(c: ColourTransformation, version: Version) -> Option<Seq<char>> {
    if version < 14 {
        Some(join(
            seq![
                seq!['3'],
                int_text(written_time(c.start_time, version)),
                int_text(c.red as int),
                int_text(c.green as int),
                int_text(c.blue as int),
            ],
            seq![','],
        ))
    } else {
        None
    }
}

impl VersionedFromStr for ColourTransformation {
    type Err = ParseColourTransformationError;

    open spec fn parse_text(s: Seq<char>, version: Version) -> Result<Option<ColourTransformation>, ParseColourTransformationError> {
        match colour_transformation_parse(s, version) {
            Ok(b) => Ok(Some(b)),
            Err(e) => Err(e),
        }
    }

    fn from_chars(s: &[char], version: Version) -> (r: Result<Option<ColourTransformation>, ParseColourTransformationError>) {
        proof {
            lemma_words();
            lemma_comma_lit();
        }
        let p = split_chars(s, ',');
        if !starts_with_str(s, "3") {
            return Err(ParseColourTransformationError::WrongEventType);
        }
        if !eq_str(p[0].as_slice(), "3") || p.len() < 2 {
            return Err(ParseColourTransformationError::MissingStartTime);
        }
        let st = match time_field_exec(p[1].as_slice(), 3 <= version && version <= 4) {
            Some(v) => v,
            None => return Err(ParseColourTransformationError::InvalidStartTime),
        };
        if p.len() < 3 {
            return Err(ParseColourTransformationError::MissingRed);
        }
        let red = match parse_u8(p[2].as_slice()) {
            Ok(v) => v,
            Err(_) => return Err(ParseColourTransformationError::InvalidRed),
        };
        if p.len() < 4 {
            return Err(ParseColourTransformationError::MissingGreen);
        }
        let green = match parse_u8(p[3].as_slice()) {
            Ok(v) => v,
            Err(_) => return Err(ParseColourTransformationError::InvalidGreen),
        };
        if p.len() < 5 {
            return Err(ParseColourTransformationError::MissingBlue);
        }
        let rest = join_from(&p, 4, ",");
        let blue = match parse_u8(rest.as_slice()) {
            Ok(v) => v,
            Err(_) => return Err(ParseColourTransformationError::InvalidBlue),
        };
        Ok(Some(ColourTransformation { start_time: st, red, green, blue }))
    }
}

impl VersionedToString for ColourTransformation {
    open spec fn text_of(v: ColourTransformation, version: Version) -> Option<Seq<char>> {
        colour_transformation_text(v, version)
    }

    fn to_chars(&self, version: Version) -> (r: Option<Vec<char>>) {
        if version >= 14 {
            return None;
        }
        proof {
            lemma_comma_lit();
        }
        let mut parts: Vec<Vec<char>> = Vec::new();
        let mut h: Vec<char> = Vec::new();
        h.push('3');
        push_part(&mut parts, h);
        let mut t: Vec<char> = Vec::new();
        push_int(&mut t, written_time_exec(self.start_time, version));
        push_part(&mut parts, t);
        let mut r: Vec<char> = Vec::new();
        push_int(&mut r, self.red as i64);
        push_part(&mut parts, r);
        let mut g: Vec<char> = Vec::new();
        push_int(&mut g, self.green as i64);
        push_part(&mut parts, g);
        let mut b: Vec<char> = Vec::new();
        push_int(&mut b, self.blue as i64);
        push_part(&mut parts, b);
        assert(vv(parts@) =~= seq![
            seq!['3'],
            int_text(written_time(self.start_time, version)),
            int_text(self.red as int),
            int_text(self.green as int),
            int_text(self.blue as int),
        ]);
        Some(join_chars(&parts, ","))
    }
}

// ---------------------------------------------------------------------------
// Legacy storyboard values

/// A number names no value.
#[derive(Clone, Copy, Debug, Hash, PartialEq, Eq)]
pub struct InvalidRepr;

/// Error reading a legacy origin type.
#[derive(Clone, Copy, Debug, Hash, PartialEq, Eq)]
pub enum ParseOriginTypeLegacyError {
    ParseIntError(ParseIntError),
    InvalidRepr(InvalidRepr),
}

/// Error reading a legacy layer.
#[derive(Clone, Copy, Debug, Hash, PartialEq, Eq)]
pub enum ParseLayerLegacyError {
    ParseIntError(ParseIntError),
    InvalidRepr(InvalidRepr),
}

/// Origin of a sprite in the legacy event format, written as a number.
#[derive(Clone, Copy, Debug, Hash, PartialEq, Eq)]
pub enum OriginTypeLegacy {
    TopLeft,
    Centre,
    CentreLeft,
    TopRight,
    BottomCentre,
    TopCentre,
    Custom,
    CentreRight,
    BottomLeft,
    BottomRight,
}

/// Layer of a sprite in the legacy event format, written as a number.
#[derive(Clone, Copy, Debug, Hash, PartialEq, Eq)]
pub enum LayerLegacy {
    Background,
    Fail,
    Pass,
    Foreground,
    Overlay,
    Video,
}

impl OriginTypeLegacy {
    /// The number of the value.
    pub open spec fn number(self) -> nat {
        match self {
            OriginTypeLegacy::TopLeft => 0,
            OriginTypeLegacy::Centre => 1,
            OriginTypeLegacy::CentreLeft => 2,
            OriginTypeLegacy::TopRight => 3,
            OriginTypeLegacy::BottomCentre => 4,
            OriginTypeLegacy::TopCentre => 5,
            OriginTypeLegacy::Custom => 6,
            OriginTypeLegacy::CentreRight => 7,
            OriginTypeLegacy::BottomLeft => 8,
            OriginTypeLegacy::BottomRight => 9,
        }
    }

    /// The value with the given number.
    pub open spec fn from_number(v: int) -> Option<OriginTypeLegacy> {
        if v == 0 {
            Some(OriginTypeLegacy::TopLeft)
        } else if v == 1 {
            Some(OriginTypeLegacy::Centre)
        } else if v == 2 {
            Some(OriginTypeLegacy::CentreLeft)
        } else if v == 3 {
            Some(OriginTypeLegacy::TopRight)
        } else if v == 4 {
            Some(OriginTypeLegacy::BottomCentre)
        } else if v == 5 {
            Some(OriginTypeLegacy::TopCentre)
        } else if v == 6 {
            Some(OriginTypeLegacy::Custom)
        } else if v == 7 {
            Some(OriginTypeLegacy::CentreRight)
        } else if v == 8 {
            Some(OriginTypeLegacy::BottomLeft)
        } else if v == 9 {
            Some(OriginTypeLegacy::BottomRight)
        } else {
            None
        }
    }

    /// The value with the given number.
    pub fn from_repr(repr: usize) -> (r: Result<OriginTypeLegacy, InvalidRepr>)
        ensures
            match OriginTypeLegacy::from_number(repr as int) {
                Some(v) => r == Ok::<OriginTypeLegacy, InvalidRepr>(v),
                None => r == Err::<OriginTypeLegacy, InvalidRepr>(InvalidRepr),
            },
    {
        match repr {
            0 => Ok(OriginTypeLegacy::TopLeft),
            1 => Ok(OriginTypeLegacy::Centre),
            2 => Ok(OriginTypeLegacy::CentreLeft),
            3 => Ok(OriginTypeLegacy::TopRight),
            4 => Ok(OriginTypeLegacy::BottomCentre),
            5 => Ok(OriginTypeLegacy::TopCentre),
            6 => Ok(OriginTypeLegacy::Custom),
            7 => Ok(OriginTypeLegacy::CentreRight),
            8 => Ok(OriginTypeLegacy::BottomLeft),
            9 => Ok(OriginTypeLegacy::BottomRight),
            _ => Err(InvalidRepr),
        }
    }

    /// The number of the value.
    pub fn to_usize(&self) -> (r: usize)
        ensures
            r == self.number(),
    {
        match self {
            OriginTypeLegacy::TopLeft => 0,
            OriginTypeLegacy::Centre => 1,
            OriginTypeLegacy::CentreLeft => 2,
            OriginTypeLegacy::TopRight => 3,
            OriginTypeLegacy::BottomCentre => 4,
            OriginTypeLegacy::TopCentre => 5,
            OriginTypeLegacy::Custom => 6,
            OriginTypeLegacy::CentreRight => 7,
            OriginTypeLegacy::BottomLeft => 8,
            OriginTypeLegacy::BottomRight => 9,
        }
    }
}

impl View for OriginTypeLegacy {
    type V = OriginTypeLegacy;

    open spec fn view(&self) -> OriginTypeLegacy {
        *self
    }
}

impl VersionedFromStr for OriginTypeLegacy {
    type Err = ParseOriginTypeLegacyError;

    open spec fn parse_text(s: Seq<char>, version: Version) -> Result<Option<OriginTypeLegacy>, ParseOriginTypeLegacyError> {
        match parse_int_spec(s, 0, u32::MAX as int) {
            Err(k) => Err(ParseOriginTypeLegacyError::ParseIntError(ParseIntError { kind: k })),
            Ok(n) => match OriginTypeLegacy::from_number(n) {
                Some(v) => Ok(Some(v)),
                None => Err(ParseOriginTypeLegacyError::InvalidRepr(InvalidRepr)),
            },
        }
    }

    fn from_chars(s: &[char], version: Version) -> (r: Result<Option<OriginTypeLegacy>, ParseOriginTypeLegacyError>) {
        match parse_usize(s) {
            Err(e) => Err(ParseOriginTypeLegacyError::ParseIntError(e)),
            Ok(n) => match OriginTypeLegacy::from_repr(n) {
                Ok(v) => Ok(Some(v)),
                Err(e) => Err(ParseOriginTypeLegacyError::InvalidRepr(e)),
            },
        }
    }
}

impl VersionedToString for OriginTypeLegacy {
    open spec fn text_of(v: OriginTypeLegacy, version: Version) -> Option<Seq<char>> {
        Some(int_text(v.number() as int))
    }

    fn to_chars(&self, version: Version) -> (r: Option<Vec<char>>) {
        let mut out: Vec<char> = Vec::new();
        push_int(&mut out, self.to_usize() as i64);
        assert(out@ =~= int_text(self.number() as int));
        Some(out)
    }
}

impl LayerLegacy {
    /// The number of the value.
    pub open spec fn number(self) -> nat {
        match self {
            LayerLegacy::Background => 0,
            LayerLegacy::Fail => 1,
            LayerLegacy::Pass => 2,
            LayerLegacy::Foreground => 3,
            LayerLegacy::Overlay => 4,
            LayerLegacy::Video => 5,
        }
    }

    /// The value with the given number.
    pub open spec fn from_number(v: int) -> Option<LayerLegacy> {
        if v == 0 {
            Some(LayerLegacy::Background)
        } else if v == 1 {
            Some(LayerLegacy::Fail)
        } else if v == 2 {
            Some(LayerLegacy::Pass)
        } else if v == 3 {
            Some(LayerLegacy::Foreground)
        } else if v == 4 {
            Some(LayerLegacy::Overlay)
        } else if v == 5 {
            Some(LayerLegacy::Video)
        } else {
            None
        }
    }

    /// The value with the given number.
    pub fn from_repr(repr: usize) -> (r: Result<LayerLegacy, InvalidRepr>)
        ensures
            match LayerLegacy::from_number(repr as int) {
                Some(v) => r == Ok::<LayerLegacy, InvalidRepr>(v),
                None => r == Err::<LayerLegacy, InvalidRepr>(InvalidRepr),
            },
    {
        match repr {
            0 => Ok(LayerLegacy::Background),
            1 => Ok(LayerLegacy::Fail),
            2 => Ok(LayerLegacy::Pass),
            3 => Ok(LayerLegacy::Foreground),
            4 => Ok(LayerLegacy::Overlay),
            5 => Ok(LayerLegacy::Video),
            _ => Err(InvalidRepr),
        }
    }

    /// The number of the value.
    pub fn to_usize(&self) -> (r: usize)
        ensures
            r == self.number(),
    {
        match self {
            LayerLegacy::Background => 0,
            LayerLegacy::Fail => 1,
            LayerLegacy::Pass => 2,
            LayerLegacy::Foreground => 3,
            LayerLegacy::Overlay => 4,
            LayerLegacy::Video => 5,
        }
    }
}

impl View for LayerLegacy {
    type V = LayerLegacy;

    open spec fn view(&self) -> LayerLegacy {
        *self
    }
}

impl VersionedFromStr for LayerLegacy {
    type Err = ParseLayerLegacyError;

    open spec fn parse_text(s: Seq<char>, version: Version) -> Result<Option<LayerLegacy>, ParseLayerLegacyError> {
        match parse_int_spec(s, 0, u32::MAX as int) {
            Err(k) => Err(ParseLayerLegacyError::ParseIntError(ParseIntError { kind: k })),
            Ok(n) => match LayerLegacy::from_number(n) {
                Some(v) => Ok(Some(v)),
                None => Err(ParseLayerLegacyError::InvalidRepr(InvalidRepr)),
            },
        }
    }

    fn from_chars(s: &[char], version: Version) -> (r: Result<Option<LayerLegacy>, ParseLayerLegacyError>) {
        match parse_usize(s) {
            Err(e) => Err(ParseLayerLegacyError::ParseIntError(e)),
            Ok(n) => match LayerLegacy::from_repr(n) {
                Ok(v) => Ok(Some(v)),
                Err(e) => Err(ParseLayerLegacyError::InvalidRepr(e)),
            },
        }
    }
}

impl VersionedToString for LayerLegacy {
    open spec fn text_of(v: LayerLegacy, version: Version) -> Option<Seq<char>> {
        Some(int_text(v.number() as int))
    }

    fn to_chars(&self, version: Version) -> (r: Option<Vec<char>>) {
        let mut out: Vec<char> = Vec::new();
        push_int(&mut out, self.to_usize() as i64);
        assert(out@ =~= int_text(self.number() as int));
        Some(out)
    }
}

} // verus!
