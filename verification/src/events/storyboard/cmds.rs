//! Storyboard commands: what a command line holds, how it is read and how it
//! is written.
use vstd::prelude::*;

use crate::decimal::{parse_decimal_spec, Decimal};
use crate::events::storyboard::types::{
    trigger_type_parse, trigger_type_stuck, trigger_type_text, Easing, Parameter, TriggerType,
};
use crate::hitobjects::{i32_field, i32_field_exec, lemma_comma_lit, rest_from};
use crate::text::{
    int_text, is_blank, join, join_chars, join_from, parse_int_spec, parse_u8, parse_usize,
    push_int, push_nat, push_part, slice_to_vec, split, split_chars, trim, vv,
};
use crate::section::spaces;
use crate::types::{Integer, Version, VersionedToString};

verus! {

/// Two values that continue in pairs, such as the x and y of a move; the
/// second value of the last pair may be missing.
#[derive(Debug, Hash, PartialEq, Eq)]
pub struct ContinuingFields<T> {
    /// The first pair.
    pub start: (T, T),
    /// The pairs that follow.
    pub continuing: Vec<(T, Option<T>)>,
}

/// The view of continuing pairs.
pub struct ContinuingFieldsView<T> {
    pub start: (T, T),
    pub continuing: Seq<(T, Option<T>)>,
}

impl<T> View for ContinuingFields<T> {
    type V = ContinuingFieldsView<T>;

    open spec fn view(&self) -> ContinuingFieldsView<T> {
        ContinuingFieldsView { start: self.start, continuing: self.continuing@ }
    }
}

/// Colours that continue in triples; the green or blue of the last triple may
/// be missing.
#[derive(Debug, Hash, PartialEq, Eq)]
pub struct Colours {
    /// The first red, green and blue.
    pub start: (u8, u8, u8),
    /// The triples that follow.
    pub continuing: Vec<(u8, Option<u8>, Option<u8>)>,
}

/// The view of continuing colours.
pub struct ColoursView {
    pub start: (u8, u8, u8),
    pub continuing: Seq<(u8, Option<u8>, Option<u8>)>,
}

impl View for Colours {
    type V = ColoursView;

    open spec fn view(&self) -> ColoursView {
        ColoursView { start: self.start, continuing: self.continuing@ }
    }
}

impl<T: Copy> Clone for ContinuingFields<T> {
    fn clone(&self) -> (r: Self)
        ensures
            r@ == self@,
    {
        let mut continuing: Vec<(T, Option<T>)> = Vec::new();
        let mut i: usize = 0;
        while i < self.continuing.len()
            invariant
                i <= self.continuing.len(),
                continuing@ == self.continuing@.take(i as int),
            decreases self.continuing.len() - i,
        {
            continuing.push(self.continuing[i]);
            assert(self.continuing@.take(i + 1) == self.continuing@.take(i as int).push(self.continuing@[i as int]));
            i = i + 1;
        }
        assert(self.continuing@.take(self.continuing@.len() as int) == self.continuing@);
        ContinuingFields { start: self.start, continuing }
    }
}

impl Clone for Colours {
    fn clone(&self) -> (r: Self)
        ensures
            r@ == self@,
    {
        let mut continuing: Vec<(u8, Option<u8>, Option<u8>)> = Vec::new();
        let mut i: usize = 0;
        while i < self.continuing.len()
            invariant
                i <= self.continuing.len(),
                continuing@ == self.continuing@.take(i as int),
            decreases self.continuing.len() - i,
        {
            continuing.push(self.continuing[i]);
            assert(self.continuing@.take(i + 1) == self.continuing@.take(i as int).push(self.continuing@[i as int]));
            i = i + 1;
        }
        assert(self.continuing@.take(self.continuing@.len() as int) == self.continuing@);
        Colours { start: self.start, continuing }
    }
}

/// A storyboard command: its start time and what it does.
#[derive(Debug, Hash, PartialEq, Eq)]
pub struct Command {
    pub start_time: Integer,
    pub properties: CommandProperties,
}

/// What a command does.
#[derive(Debug, Hash, PartialEq, Eq)]
pub enum CommandProperties {
    Fade {
        easing: Easing,
        end_time: Option<Integer>,
        start_opacity: Decimal,
        continuing_opacities: Vec<Decimal>,
    },
    Move { easing: Easing, end_time: Option<Integer>, positions_xy: ContinuingFields<Decimal> },
    MoveX { easing: Easing, end_time: Option<Integer>, start_x: Decimal, continuing_x: Vec<Decimal> },
    MoveY { easing: Easing, end_time: Option<Integer>, start_y: Decimal, continuing_y: Vec<Decimal> },
    Scale {
        easing: Easing,
        end_time: Option<Integer>,
        start_scale: Decimal,
        continuing_scales: Vec<Decimal>,
    },
    VectorScale { easing: Easing, end_time: Option<Integer>, scales_xy: ContinuingFields<Decimal> },
    Rotate {
        easing: Easing,
        end_time: Option<Integer>,
        start_rotation: Decimal,
        continuing_rotations: Vec<Decimal>,
    },
    Colour { easing: Easing, end_time: Option<Integer>, colours: Colours },
    Parameter {
        easing: Easing,
        end_time: Option<Integer>,
        parameter: Parameter,
        continuing_parameters: Vec<Parameter>,
    },
    /// Repeats the nested commands.
    Loop { loop_count: u32, commands: Vec<Command> },
    /// Runs the nested commands when the trigger fires.
    Trigger {
        trigger_type: TriggerType,
        end_time: Option<Integer>,
        group_number: Option<Integer>,
        commands: Vec<Command>,
    },
}

/// The view of a command.
pub struct CommandView {
    pub start_time: Integer,
    pub properties: CommandPropertiesView,
}

/// The view of what a command does.
pub enum CommandPropertiesView {
    Fade { easing: Easing, end_time: Option<Integer>, start_opacity: Decimal, continuing_opacities: Seq<Decimal> },
    Move { easing: Easing, end_time: Option<Integer>, positions_xy: ContinuingFieldsView<Decimal> },
    MoveX { easing: Easing, end_time: Option<Integer>, start_x: Decimal, continuing_x: Seq<Decimal> },
    MoveY { easing: Easing, end_time: Option<Integer>, start_y: Decimal, continuing_y: Seq<Decimal> },
    Scale { easing: Easing, end_time: Option<Integer>, start_scale: Decimal, continuing_scales: Seq<Decimal> },
    VectorScale { easing: Easing, end_time: Option<Integer>, scales_xy: ContinuingFieldsView<Decimal> },
    Rotate { easing: Easing, end_time: Option<Integer>, start_rotation: Decimal, continuing_rotations: Seq<Decimal> },
    Colour { easing: Easing, end_time: Option<Integer>, colours: ColoursView },
    Parameter { easing: Easing, end_time: Option<Integer>, parameter: Parameter, continuing_parameters: Seq<Parameter> },
    Loop { loop_count: u32, commands: Seq<CommandView> },
    Trigger { trigger_type: TriggerType, end_time: Option<Integer>, group_number: Option<Integer>, commands: Seq<CommandView> },
}

/// The view of a command, nested commands included.
pub open spec fn command_view(c: Command) -> CommandView
    decreases c, 1nat,
{
    CommandView {
        start_time: c.start_time,
        properties: match c.properties {
            CommandProperties::Fade { easing, end_time, start_opacity, continuing_opacities } =>
                CommandPropertiesView::Fade { easing, end_time, start_opacity, continuing_opacities: continuing_opacities@ },
            CommandProperties::Move { easing, end_time, positions_xy } =>
                CommandPropertiesView::Move { easing, end_time, positions_xy: positions_xy@ },
            CommandProperties::MoveX { easing, end_time, start_x, continuing_x } =>
                CommandPropertiesView::MoveX { easing, end_time, start_x, continuing_x: continuing_x@ },
            CommandProperties::MoveY { easing, end_time, start_y, continuing_y } =>
                CommandPropertiesView::MoveY { easing, end_time, start_y, continuing_y: continuing_y@ },
            CommandProperties::Scale { easing, end_time, start_scale, continuing_scales } =>
                CommandPropertiesView::Scale { easing, end_time, start_scale, continuing_scales: continuing_scales@ },
            CommandProperties::VectorScale { easing, end_time, scales_xy } =>
                CommandPropertiesView::VectorScale { easing, end_time, scales_xy: scales_xy@ },
            CommandProperties::Rotate { easing, end_time, start_rotation, continuing_rotations } =>
                CommandPropertiesView::Rotate { easing, end_time, start_rotation, continuing_rotations: continuing_rotations@ },
            CommandProperties::Colour { easing, end_time, colours } =>
                CommandPropertiesView::Colour { easing, end_time, colours: colours@ },
            CommandProperties::Parameter { easing, end_time, parameter, continuing_parameters } =>
                CommandPropertiesView::Parameter { easing, end_time, parameter, continuing_parameters: continuing_parameters@ },
            CommandProperties::Loop { loop_count, commands } =>
                CommandPropertiesView::Loop { loop_count, commands: commands_view(commands@) },
            CommandProperties::Trigger { trigger_type, end_time, group_number, commands } =>
                CommandPropertiesView::Trigger { trigger_type, end_time, group_number, commands: commands_view(commands@) },
        },
    }
}

/// The views of a sequence of commands.
pub open spec fn commands_view(cs: Seq<Command>) -> Seq<CommandView>
    decreases cs, 0nat,
{
    if cs.len() == 0 {
        Seq::empty()
    } else {
        commands_view(cs.drop_last()).push(command_view(cs.last()))
    }
}

impl View for Command {
    type V = CommandView;

    open spec fn view(&self) -> CommandView {
        command_view(*self)
    }
}

/// Error reading a command.
#[derive(Clone, Copy, Debug, Hash, PartialEq, Eq)]
pub enum ParseCommandError {
    UnknownCommandType,
    MissingStartTime,
    InvalidStartTime,
    MissingLoopCount,
    InvalidLoopCount,
    MissingTriggerType,
    InvalidTriggerType,
    InvalidGroupNumber,
    MissingEndTime,
    InvalidEndTime,
    MissingEasing,
    InvalidEasing,
    MissingRed,
    MissingGreen,
    MissingBlue,
    InvalidRed,
    InvalidGreen,
    InvalidBlue,
    InvalidContinuingColours,
    MissingParameterType,
    InvalidParameterType,
    InvalidContinuingParameters,
    MissingMoveX,
    InvalidMoveX,
    MissingMoveY,
    InvalidMoveY,
    InvalidContinuingMove,
    MissingScaleX,
    InvalidScaleX,
    MissingScaleY,
    InvalidScaleY,
    InvalidContinuingScales,
    MissingStartOpacity,
    InvalidStartOpacity,
    InvalidContinuingOpacities,
    MissingStartScale,
    InvalidStartScale,
    InvalidContinuingScale,
    MissingStartRotation,
    InvalidStartRotation,
    InvalidContinuingRotation,
}

// ---------------------------------------------------------------------------
// Reading

/// The kind of a command, told by the start of its line.
#[derive(Clone, Copy, Debug, PartialEq, Eq, Structural)]
pub enum CommandKind {
    Fade,
    MoveX,
    MoveY,
    Scale,
    Rotate,
    Loop,
    Trigger,
    Colour,
    Parameter,
    Move,
    VectorScale,
}

/// Number of leading indentation characters (spaces and underscores).
pub open spec fn indent_len(s: Seq<char>) -> nat
    decreases s.len(),
{
    if s.len() > 0 && (s[0] == ' ' || s[0] == '_') {
        1 + indent_len(s.drop_first())
    } else {
        0
    }
}

/// The kind of a command whose line, past the indentation, is `t`: the first
/// of `F`, `MX`, `MY`, `S`, `R`, `L`, `T`, `C`, `P`, `M`, `V` that starts it.
pub open spec fn command_kind(t: Seq<char>) -> Option<CommandKind> {
    if t.len() == 0 {
        None
    } else if t[0] == 'F' {
        Some(CommandKind::Fade)
    } else if t.len() >= 2 && t[0] == 'M' && t[1] == 'X' {
        Some(CommandKind::MoveX)
    } else if t.len() >= 2 && t[0] == 'M' && t[1] == 'Y' {
        Some(CommandKind::MoveY)
    } else if t[0] == 'S' {
        Some(CommandKind::Scale)
    } else if t[0] == 'R' {
        Some(CommandKind::Rotate)
    } else if t[0] == 'L' {
        Some(CommandKind::Loop)
    } else if t[0] == 'T' {
        Some(CommandKind::Trigger)
    } else if t[0] == 'C' {
        Some(CommandKind::Colour)
    } else if t[0] == 'P' {
        Some(CommandKind::Parameter)
    } else if t[0] == 'M' {
        Some(CommandKind::Move)
    } else if t[0] == 'V' {
        Some(CommandKind::VectorScale)
    } else {
        None
    }
}

/// The letters that name a kind of command.
pub open spec fn kind_tag(k: CommandKind) -> Seq<char> {
    match k {
        CommandKind::Fade => seq!['F'],
        CommandKind::MoveX => seq!['M', 'X'],
        CommandKind::MoveY => seq!['M', 'Y'],
        CommandKind::Scale => seq!['S'],
        CommandKind::Rotate => seq!['R'],
        CommandKind::Loop => seq!['L'],
        CommandKind::Trigger => seq!['T'],
        CommandKind::Colour => seq!['C'],
        CommandKind::Parameter => seq!['P'],
        CommandKind::Move => seq!['M'],
        CommandKind::VectorScale => seq!['V'],
    }
}

/// An end time field: blank means none.
pub open spec fn end_time_field(f: Seq<char>) -> Option<Option<i32>> {
    if trim(f).len() == 0 {
        Some(None)
    } else {
        match i32_field(f) {
            Some(v) => Some(Some(v)),
            None => None,
        }
    }
}

/// Reads every field as a decimal.
pub open spec fn parse_decimals(q: Seq<Seq<char>>) -> Option<Seq<Decimal>>
    decreases q.len(),
{
    if q.len() == 0 {
        Some(Seq::empty())
    } else {
        match (parse_decimals(q.drop_last()), parse_decimal_spec(q.last())) {
            (Some(d), Some(x)) => Some(d.push(x)),
            _ => None,
        }
    }
}

/// Reads every field as a byte.
pub open spec fn parse_bytes(q: Seq<Seq<char>>) -> Option<Seq<u8>>
    decreases q.len(),
{
    if q.len() == 0 {
        Some(Seq::empty())
    } else {
        match (parse_bytes(q.drop_last()), parse_int_spec(q.last(), 0, 255)) {
            (Some(d), Ok(x)) => Some(d.push(x as u8)),
            _ => None,
        }
    }
}

/// Reads every field as a parameter.
pub open spec fn parse_parameters(q: Seq<Seq<char>>) -> Option<Seq<Parameter>>
    decreases q.len(),
{
    if q.len() == 0 {
        Some(Seq::empty())
    } else {
        match (parse_parameters(q.drop_last()), Parameter::parse_name(q.last())) {
            (Some(d), Some(x)) => Some(d.push(x)),
            _ => None,
        }
    }
}

/// Values taken two at a time; the last pair may lack its second value.
pub open spec fn pairs_of<T>(d: Seq<T>) -> Seq<(T, Option<T>)> {
    Seq::new(
        ((d.len() + 1) / 2) as nat,
        |i: int| (d[2 * i], if 2 * i + 1 < d.len() { Some(d[2 * i + 1]) } else { None }),
    )
}

/// Bytes taken three at a time; the last triple may lack its green or blue.
pub open spec fn triples_of(d: Seq<u8>) -> Seq<(u8, Option<u8>, Option<u8>)> {
    Seq::new(
        ((d.len() + 2) / 3) as nat,
        |i: int|
            (
                d[3 * i],
                if 3 * i + 1 < d.len() { Some(d[3 * i + 1]) } else { None },
                if 3 * i + 2 < d.len() { Some(d[3 * i + 2]) } else { None },
            ),
    )
}

/// Whether reading continuing pairs stops at the second value of a pair: the
/// first field that is no decimal has an odd index.
pub open spec fn pairs_stuck(q: Seq<Seq<char>>) -> bool {
    exists|i: int|
        0 <= i < q.len() && i % 2 == 1 && #[trigger] parse_decimals(q.take(i)) is Some
            && parse_decimal_spec(q[i]) is None
}

/// The easing, start time and end time that follow the letters of a command.
pub open spec fn head_parse(p: Seq<Seq<char>>) -> Result<(Easing, i32, Option<i32>), ParseCommandError> {
    match parse_int_spec(p[1], 0, u32::MAX as int) {
        Err(_) => Err(ParseCommandError::InvalidEasing),
        Ok(e) => if p.len() < 3 {
            Err(ParseCommandError::MissingStartTime)
        } else {
            match i32_field(p[2]) {
                None => Err(ParseCommandError::InvalidStartTime),
                Some(st) => if p.len() < 4 {
                    Err(ParseCommandError::MissingEndTime)
                } else {
                    match end_time_field(p[3]) {
                        None => Err(ParseCommandError::InvalidEndTime),
                        Some(et) => Ok((Easing::from_number(e as usize), st, et)),
                    }
                },
            }
        },
    }
}

/// Errors of a command whose values are one decimal followed by more:
/// missing start, invalid start, invalid continuing.
pub open spec fn single_errors(k: CommandKind) -> (ParseCommandError, ParseCommandError, ParseCommandError) {
    match k {
        CommandKind::Fade => (
            ParseCommandError::MissingStartOpacity,
            ParseCommandError::InvalidStartOpacity,
            ParseCommandError::InvalidContinuingOpacities,
        ),
        CommandKind::MoveX => (
            ParseCommandError::MissingMoveX,
            ParseCommandError::InvalidMoveX,
            ParseCommandError::InvalidContinuingMove,
        ),
        CommandKind::MoveY => (
            ParseCommandError::MissingMoveY,
            ParseCommandError::InvalidMoveY,
            ParseCommandError::InvalidContinuingMove,
        ),
        CommandKind::Scale => (
            ParseCommandError::MissingStartScale,
            ParseCommandError::InvalidStartScale,
            ParseCommandError::InvalidContinuingScales,
        ),
        _ => (
            ParseCommandError::MissingStartRotation,
            ParseCommandError::InvalidStartRotation,
            ParseCommandError::InvalidContinuingRotation,
        ),
    }
}

/// Errors of a command whose values continue in pairs: missing x, invalid x,
/// missing y, invalid y, invalid continuing.
pub open spec fn pair_errors(k: CommandKind) -> (ParseCommandError, ParseCommandError, ParseCommandError, ParseCommandError, ParseCommandError) {
    match k {
        CommandKind::Move => (
            ParseCommandError::MissingMoveX,
            ParseCommandError::InvalidMoveX,
            ParseCommandError::MissingMoveY,
            ParseCommandError::InvalidMoveY,
            ParseCommandError::InvalidContinuingMove,
        ),
        _ => (
            ParseCommandError::MissingScaleX,
            ParseCommandError::InvalidScaleX,
            ParseCommandError::MissingScaleY,
            ParseCommandError::InvalidScaleY,
            ParseCommandError::InvalidContinuingScales,
        ),
    }
}

/// The properties of a command whose values are one decimal followed by more.
pub open spec fn single_properties(k: CommandKind, easing: Easing, end_time: Option<i32>, start: Decimal, rest: Seq<Decimal>) -> CommandPropertiesView {
    match k {
        CommandKind::Fade => CommandPropertiesView::Fade { easing, end_time, start_opacity: start, continuing_opacities: rest },
        CommandKind::MoveX => CommandPropertiesView::MoveX { easing, end_time, start_x: start, continuing_x: rest },
        CommandKind::MoveY => CommandPropertiesView::MoveY { easing, end_time, start_y: start, continuing_y: rest },
        CommandKind::Scale => CommandPropertiesView::Scale { easing, end_time, start_scale: start, continuing_scales: rest },
        _ => CommandPropertiesView::Rotate { easing, end_time, start_rotation: start, continuing_rotations: rest },
    }
}

/// Reads the values of a command that follow its end time (from field 4 on).
pub open spec fn body_parse(k: CommandKind, p: Seq<Seq<char>>, easing: Easing, end_time: Option<i32>) -> Result<CommandPropertiesView, ParseCommandError> {
    match k {
        CommandKind::Colour => if p.len() < 5 {
            Err(ParseCommandError::MissingRed)
        } else {
            match parse_int_spec(p[4], 0, 255) {
                Err(_) => Err(ParseCommandError::InvalidRed),
                Ok(r) => if p.len() < 6 {
                    Err(ParseCommandError::MissingGreen)
                } else {
                    match parse_int_spec(p[5], 0, 255) {
                        Err(_) => Err(ParseCommandError::InvalidGreen),
                        Ok(g) => if p.len() < 7 {
                            Err(ParseCommandError::MissingBlue)
                        } else {
                            match parse_int_spec(p[6], 0, 255) {
                                Err(_) => Err(ParseCommandError::InvalidBlue),
                                Ok(b) => match parse_bytes(p.skip(7)) {
                                    None => Err(ParseCommandError::InvalidContinuingColours),
                                    Some(rest) => Ok(CommandPropertiesView::Colour {
                                        easing,
                                        end_time,
                                        colours: ColoursView { start: (r as u8, g as u8, b as u8), continuing: triples_of(rest) },
                                    }),
                                },
                            }
                        },
                    }
                },
            }
        },
        CommandKind::Parameter => if p.len() < 5 {
            Err(ParseCommandError::MissingParameterType)
        } else {
            match Parameter::parse_name(p[4]) {
                None => Err(ParseCommandError::InvalidParameterType),
                Some(parameter) => match parse_parameters(p.skip(5)) {
                    None => Err(ParseCommandError::InvalidContinuingParameters),
                    Some(rest) => Ok(CommandPropertiesView::Parameter { easing, end_time, parameter, continuing_parameters: rest }),
                },
            }
        },
        CommandKind::Move | CommandKind::VectorScale => {
            let (mx, ix, my, iy, ic) = pair_errors(k);
            if p.len() < 5 {
                Err(mx)
            } else {
                match parse_decimal_spec(p[4]) {
                    None => Err(ix),
                    Some(x) => if p.len() < 6 {
                        Err(my)
                    } else {
                        match parse_decimal_spec(p[5]) {
                            None => Err(iy),
                            Some(y) => match parse_decimals(p.skip(6)) {
                                None => Err(ic),
                                Some(rest) => {
                                    let f = ContinuingFieldsView { start: (x, y), continuing: pairs_of(rest) };
                                    Ok(if k == CommandKind::Move {
                                        CommandPropertiesView::Move { easing, end_time, positions_xy: f }
                                    } else {
                                        CommandPropertiesView::VectorScale { easing, end_time, scales_xy: f }
                                    })
                                },
                            },
                        }
                    },
                }
            }
        },
        _ => {
            let (ms, is, ic) = single_errors(k);
            if p.len() < 5 {
                Err(ms)
            } else {
                match parse_decimal_spec(p[4]) {
                    None => Err(is),
                    Some(x) => match parse_decimals(p.skip(5)) {
                        None => Err(ic),
                        Some(rest) => Ok(single_properties(k, easing, end_time, x, rest)),
                    },
                }
            }
        },
    }
}

/// Reads a loop command: `L,start_time,loop_count`.
pub open spec fn loop_parse(p: Seq<Seq<char>>) -> Result<CommandView, ParseCommandError> {
    if p[0] != seq!['L'] || p.len() < 2 {
        Err(ParseCommandError::MissingStartTime)
    } else {
        match i32_field(p[1]) {
            None => Err(ParseCommandError::InvalidStartTime),
            Some(st) => if p.len() < 3 {
                Err(ParseCommandError::MissingLoopCount)
            } else {
                match parse_int_spec(rest_from(p, 2, ','), 0, u32::MAX as int) {
                    Err(_) => Err(ParseCommandError::InvalidLoopCount),
                    Ok(n) => Ok(CommandView {
                        start_time: st,
                        properties: CommandPropertiesView::Loop { loop_count: n as u32, commands: Seq::empty() },
                    }),
                }
            },
        }
    }
}

/// The end time and group number that follow a trigger's start time.
pub open spec fn trigger_tail(p: Seq<Seq<char>>) -> Result<(Option<i32>, Option<i32>), ParseCommandError> {
    if p.len() == 3 {
        Ok((None, None))
    } else if p.len() >= 5 && i32_field(p[3]) is Some {
        match i32_field(rest_from(p, 4, ',')) {
            Some(g) => Ok((i32_field(p[3]), Some(g))),
            None => Err(ParseCommandError::InvalidGroupNumber),
        }
    } else if p.len() >= 5 && p[3].len() == 0 {
        match i32_field(rest_from(p, 4, ',')) {
            Some(g) => Ok((None, Some(g))),
            None => Err(ParseCommandError::InvalidGroupNumber),
        }
    } else if p.len() == 4 && p[3].len() == 0 {
        Ok((None, None))
    } else {
        match i32_field(rest_from(p, 3, ',')) {
            Some(e) => Ok((Some(e), None)),
            None => Err(ParseCommandError::InvalidEndTime),
        }
    }
}

/// Reads a trigger command: `T,trigger_type,start_time[,end_time][,group_number]`.
pub open spec fn trigger_parse(p: Seq<Seq<char>>) -> Result<CommandView, ParseCommandError> {
    if p[0] != seq!['T'] || p.len() < 2 {
        Err(ParseCommandError::MissingTriggerType)
    } else {
        match trigger_type_parse(p[1]) {
            Err(_) => Err(ParseCommandError::InvalidTriggerType),
            Ok(tt) => if p.len() < 3 {
                Err(ParseCommandError::MissingStartTime)
            } else {
                match i32_field(p[2]) {
                    None => Err(ParseCommandError::InvalidStartTime),
                    Some(st) => match trigger_tail(p) {
                        Err(e) => Err(e),
                        Ok((et, g)) => Ok(CommandView {
                            start_time: st,
                            properties: CommandPropertiesView::Trigger {
                                trigger_type: tt,
                                end_time: et,
                                group_number: g,
                                commands: Seq::empty(),
                            },
                        }),
                    },
                }
            },
        }
    }
}

/// What reading a command line gives; nested commands are never read here.
#[verifier::opaque]
pub open spec fn command_parse(s: Seq<char>) -> Result<CommandView, ParseCommandError> {
    let t = s.skip(indent_len(s) as int);
    let p = split(t, ',');
    match command_kind(t) {
        None => Err(ParseCommandError::UnknownCommandType),
        Some(CommandKind::Loop) => loop_parse(p),
        Some(CommandKind::Trigger) => trigger_parse(p),
        Some(k) => if p[0] != kind_tag(k) || p.len() < 2 {
            Err(ParseCommandError::MissingEasing)
        } else {
            match head_parse(p) {
                Err(e) => Err(e),
                Ok((easing, st, et)) => match body_parse(k, p, easing, et) {
                    Err(e) => Err(e),
                    Ok(props) => Ok(CommandView { start_time: st, properties: props }),
                },
            }
        },
    }
}

/// The command lines on which reading panics: a trigger type that
/// reading gets stuck on, or a move or vector scale whose continuing pairs
/// break off at a second value.
pub open spec fn command_stuck(s: Seq<char>) -> bool {
    let t = s.skip(indent_len(s) as int);
    let p = split(t, ',');
    match command_kind(t) {
        Some(CommandKind::Trigger) => p[0] == seq!['T'] && p.len() >= 2 && trigger_type_stuck(p[1]),
        Some(CommandKind::Move) | Some(CommandKind::VectorScale) => {
            &&& p[0] == kind_tag(command_kind(t).unwrap())
            &&& p.len() >= 6
            &&& head_parse(p) is Ok
            &&& parse_decimal_spec(p[4]) is Some
            &&& parse_decimal_spec(p[5]) is Some
            &&& pairs_stuck(p.skip(6))
        },
        _ => false,
    }
}


// ---------------------------------------------------------------------------
// Reading, executable

/// The view of properties that hold no nested commands (nested commands are
/// taken as none).
pub open spec fn flat_properties_view(p: CommandProperties) -> CommandPropertiesView {
    match p {
        CommandProperties::Fade { easing, end_time, start_opacity, continuing_opacities } =>
            CommandPropertiesView::Fade { easing, end_time, start_opacity, continuing_opacities: continuing_opacities@ },
        CommandProperties::Move { easing, end_time, positions_xy } =>
            CommandPropertiesView::Move { easing, end_time, positions_xy: positions_xy@ },
        CommandProperties::MoveX { easing, end_time, start_x, continuing_x } =>
            CommandPropertiesView::MoveX { easing, end_time, start_x, continuing_x: continuing_x@ },
        CommandProperties::MoveY { easing, end_time, start_y, continuing_y } =>
            CommandPropertiesView::MoveY { easing, end_time, start_y, continuing_y: continuing_y@ },
        CommandProperties::Scale { easing, end_time, start_scale, continuing_scales } =>
            CommandPropertiesView::Scale { easing, end_time, start_scale, continuing_scales: continuing_scales@ },
        CommandProperties::VectorScale { easing, end_time, scales_xy } =>
            CommandPropertiesView::VectorScale { easing, end_time, scales_xy: scales_xy@ },
        CommandProperties::Rotate { easing, end_time, start_rotation, continuing_rotations } =>
            CommandPropertiesView::Rotate { easing, end_time, start_rotation, continuing_rotations: continuing_rotations@ },
        CommandProperties::Colour { easing, end_time, colours } =>
            CommandPropertiesView::Colour { easing, end_time, colours: colours@ },
        CommandProperties::Parameter { easing, end_time, parameter, continuing_parameters } =>
            CommandPropertiesView::Parameter { easing, end_time, parameter, continuing_parameters: continuing_parameters@ },
        CommandProperties::Loop { loop_count, .. } =>
            CommandPropertiesView::Loop { loop_count, commands: Seq::empty() },
        CommandProperties::Trigger { trigger_type, end_time, group_number, .. } =>
            CommandPropertiesView::Trigger { trigger_type, end_time, group_number, commands: Seq::empty() },
    }
}

proof fn lemma_indent_step(s: Seq<char>, i: int)
    requires
        0 <= i < s.len(),
        s[i] == ' ' || s[i] == '_',
    ensures
        indent_len(s.skip(i)) == 1 + indent_len(s.skip(i + 1)),
{
    assert(s.skip(i).drop_first() =~= s.skip(i + 1));
}

pub(crate) fn indent_len_exec(s: &[char]) -> (r: usize)
    ensures
        r == indent_len(s@),
        r <= s.len(),
{
    let mut i: usize = 0;
    assert(s@.skip(0) =~= s@);
    while i < s.len() && (s[i] == ' ' || s[i] == '_')
        invariant
            i <= s.len(),
            indent_len(s@) == i + indent_len(s@.skip(i as int)),
        decreases s.len() - i,
    {
        proof {
            lemma_indent_step(s@, i as int);
        }
        i = i + 1;
    }
    proof {
        if i < s.len() {
            assert(s@.skip(i as int)[0] == s@[i as int]);
        }
    }
    i
}

fn command_kind_exec(t: &[char]) -> (r: Option<CommandKind>)
    ensures
        r == command_kind(t@),
{
    if t.len() == 0 {
        None
    } else if t[0] == 'F' {
        Some(CommandKind::Fade)
    } else if t.len() >= 2 && t[0] == 'M' && t[1] == 'X' {
        Some(CommandKind::MoveX)
    } else if t.len() >= 2 && t[0] == 'M' && t[1] == 'Y' {
        Some(CommandKind::MoveY)
    } else if t[0] == 'S' {
        Some(CommandKind::Scale)
    } else if t[0] == 'R' {
        Some(CommandKind::Rotate)
    } else if t[0] == 'L' {
        Some(CommandKind::Loop)
    } else if t[0] == 'T' {
        Some(CommandKind::Trigger)
    } else if t[0] == 'C' {
        Some(CommandKind::Colour)
    } else if t[0] == 'P' {
        Some(CommandKind::Parameter)
    } else if t[0] == 'M' {
        Some(CommandKind::Move)
    } else if t[0] == 'V' {
        Some(CommandKind::VectorScale)
    } else {
        None
    }
}

fn tag_matches(f: &Vec<char>, k: CommandKind) -> (r: bool)
    ensures
        r == (f@ == kind_tag(k)),
{
    let r = match k {
        CommandKind::Fade => f.len() == 1 && f[0] == 'F',
        CommandKind::MoveX => f.len() == 2 && f[0] == 'M' && f[1] == 'X',
        CommandKind::MoveY => f.len() == 2 && f[0] == 'M' && f[1] == 'Y',
        CommandKind::Scale => f.len() == 1 && f[0] == 'S',
        CommandKind::Rotate => f.len() == 1 && f[0] == 'R',
        CommandKind::Loop => f.len() == 1 && f[0] == 'L',
        CommandKind::Trigger => f.len() == 1 && f[0] == 'T',
        CommandKind::Colour => f.len() == 1 && f[0] == 'C',
        CommandKind::Parameter => f.len() == 1 && f[0] == 'P',
        CommandKind::Move => f.len() == 1 && f[0] == 'M',
        CommandKind::VectorScale => f.len() == 1 && f[0] == 'V',
    };
    proof {
        if r {
            assert(f@ =~= kind_tag(k));
        } else if f@ == kind_tag(k) {
            assert(f@.len() == kind_tag(k).len());
        }
    }
    r
}

fn end_time_field_exec(f: &[char]) -> (r: Option<Option<i32>>)
    ensures
        r == end_time_field(f@),
{
    if is_blank(f) {
        Some(None)
    } else {
        match i32_field_exec(f) {
            Some(v) => Some(Some(v)),
            None => None,
        }
    }
}

proof fn lemma_decimals_none_extends(q: Seq<Seq<char>>, k: int)
    requires
        0 <= k <= q.len(),
        parse_decimals(q.take(k)) is None,
    ensures
        parse_decimals(q) is None,
    decreases q.len() - k,
{
    if k < q.len() {
        assert(q.take(k + 1).drop_last() =~= q.take(k));
        lemma_decimals_none_extends(q, k + 1);
    } else {
        assert(q.take(k) =~= q);
    }
}

/// Each field before `j` reads as a decimal where the first `j` fields do.
proof fn lemma_decimals_prefix_parts(q: Seq<Seq<char>>, j: int, m: int)
    requires
        0 <= m < j <= q.len(),
        parse_decimals(q.take(j)) is Some,
    ensures
        parse_decimal_spec(q[m]) is Some,
    decreases j,
{
    assert(q.take(j).last() == q[j - 1]);
    assert(q.take(j).drop_last() =~= q.take(j - 1));
    if m < j - 1 {
        lemma_decimals_prefix_parts(q, j - 1, m);
    }
}

/// Continuing pairs break off at a second value exactly where the first
/// field that is no decimal has an odd index.
proof fn lemma_pairs_stuck_at(q: Seq<Seq<char>>, i: int)
    requires
        0 <= i < q.len(),
        parse_decimals(q.take(i)) is Some,
        parse_decimal_spec(q[i]) is None,
    ensures
        pairs_stuck(q) <==> i % 2 == 1,
{
    if pairs_stuck(q) {
        let j = choose|j: int|
            0 <= j < q.len() && j % 2 == 1 && #[trigger] parse_decimals(q.take(j)) is Some
                && parse_decimal_spec(q[j]) is None;
        if j < i {
            lemma_decimals_prefix_parts(q, i, j);
        } else if j > i {
            lemma_decimals_prefix_parts(q, j, i);
        }
    }
}

/// Continuing pairs whose fields all read as decimals do not break off.
proof fn lemma_pairs_not_stuck(q: Seq<Seq<char>>)
    requires
        parse_decimals(q) is Some,
    ensures
        !pairs_stuck(q),
{
    if pairs_stuck(q) {
        let j = choose|j: int|
            0 <= j < q.len() && j % 2 == 1 && #[trigger] parse_decimals(q.take(j)) is Some
                && parse_decimal_spec(q[j]) is None;
        assert(q.take(q.len() as int) =~= q);
        lemma_decimals_prefix_parts(q, q.len() as int, j);
    }
}

proof fn lemma_bytes_none_extends(q: Seq<Seq<char>>, k: int)
    requires
        0 <= k <= q.len(),
        parse_bytes(q.take(k)) is None,
    ensures
        parse_bytes(q) is None,
    decreases q.len() - k,
{
    if k < q.len() {
        assert(q.take(k + 1).drop_last() =~= q.take(k));
        lemma_bytes_none_extends(q, k + 1);
    } else {
        assert(q.take(k) =~= q);
    }
}

proof fn lemma_parameters_none_extends(q: Seq<Seq<char>>, k: int)
    requires
        0 <= k <= q.len(),
        parse_parameters(q.take(k)) is None,
    ensures
        parse_parameters(q) is None,
    decreases q.len() - k,
{
    if k < q.len() {
        assert(q.take(k + 1).drop_last() =~= q.take(k));
        lemma_parameters_none_extends(q, k + 1);
    } else {
        assert(q.take(k) =~= q);
    }
}

/// Reads fields `from..` as decimals; on failure, the index (counted from
/// `from`) of the first field that is no decimal.
fn parse_decimals_exec(p: &Vec<Vec<char>>, from: usize) -> (r: Result<Vec<Decimal>, usize>)
    requires
        from <= p.len(),
    ensures
        match r {
            Ok(d) => parse_decimals(vv(p@).skip(from as int)) == Some(d@),
            Err(i) => {
                &&& i < vv(p@).skip(from as int).len()
                &&& parse_decimals(vv(p@).skip(from as int).take(i as int)) is Some
                &&& parse_decimal_spec(vv(p@).skip(from as int)[i as int]) is None
                &&& parse_decimals(vv(p@).skip(from as int)) is None
            },
        },
{
    let ghost q = vv(p@).skip(from as int);
    let mut d: Vec<Decimal> = Vec::new();
    let mut i: usize = from;
    assert(q.take(0) =~= Seq::<Seq<char>>::empty());
    while i < p.len()
        invariant
            from <= i <= p.len(),
            q == vv(p@).skip(from as int),
            parse_decimals(q.take(i - from)) == Some(d@),
        decreases p.len() - i,
    {
        let k = i - from;
        assert(q.take(k + 1).drop_last() =~= q.take(k as int));
        assert(q.take(k + 1).last() == p@[i as int]@);
        match Decimal::parse(p[i].as_slice()) {
            Some(x) => {
                d.push(x);
            },
            None => {
                proof {
                    lemma_decimals_none_extends(q, k + 1);
                }
                return Err(k);
            },
        }
        i = i + 1;
    }
    assert(q.take(p.len() - from) =~= q);
    Ok(d)
}

/// Reads fields `from..` as bytes.
fn parse_bytes_exec(p: &Vec<Vec<char>>, from: usize) -> (r: Option<Vec<u8>>)
    requires
        from <= p.len(),
    ensures
        match r {
            Some(d) => parse_bytes(vv(p@).skip(from as int)) == Some(d@),
            None => parse_bytes(vv(p@).skip(from as int)) is None,
        },
{
    let ghost q = vv(p@).skip(from as int);
    let mut d: Vec<u8> = Vec::new();
    let mut i: usize = from;
    assert(q.take(0) =~= Seq::<Seq<char>>::empty());
    while i < p.len()
        invariant
            from <= i <= p.len(),
            q == vv(p@).skip(from as int),
            parse_bytes(q.take(i - from)) == Some(d@),
        decreases p.len() - i,
    {
        let k = i - from;
        assert(q.take(k + 1).drop_last() =~= q.take(k as int));
        assert(q.take(k + 1).last() == p@[i as int]@);
        match parse_u8(p[i].as_slice()) {
            Ok(x) => {
                d.push(x);
            },
            Err(_) => {
                proof {
                    lemma_bytes_none_extends(q, k + 1);
                }
                return None;
            },
        }
        i = i + 1;
    }
    assert(q.take(p.len() - from) =~= q);
    Some(d)
}

/// Reads fields `from..` as parameters.
fn parse_parameters_exec(p: &Vec<Vec<char>>, from: usize) -> (r: Option<Vec<Parameter>>)
    requires
        from <= p.len(),
    ensures
        match r {
            Some(d) => parse_parameters(vv(p@).skip(from as int)) == Some(d@),
            None => parse_parameters(vv(p@).skip(from as int)) is None,
        },
{
    let ghost q = vv(p@).skip(from as int);
    let mut d: Vec<Parameter> = Vec::new();
    let mut i: usize = from;
    assert(q.take(0) =~= Seq::<Seq<char>>::empty());
    while i < p.len()
        invariant
            from <= i <= p.len(),
            q == vv(p@).skip(from as int),
            parse_parameters(q.take(i - from)) == Some(d@),
        decreases p.len() - i,
    {
        let k = i - from;
        assert(q.take(k + 1).drop_last() =~= q.take(k as int));
        assert(q.take(k + 1).last() == p@[i as int]@);
        match Parameter::parse_chars(p[i].as_slice()) {
            Ok(x) => {
                d.push(x);
            },
            Err(_) => {
                proof {
                    lemma_parameters_none_extends(q, k + 1);
                }
                return None;
            },
        }
        i = i + 1;
    }
    assert(q.take(p.len() - from) =~= q);
    Some(d)
}

fn pairs_exec(d: &Vec<Decimal>) -> (r: Vec<(Decimal, Option<Decimal>)>)
    ensures
        r@ == pairs_of(d@),
{
    let mut r: Vec<(Decimal, Option<Decimal>)> = Vec::new();
    let mut i: usize = 0;
    while i < d.len()
        invariant
            i <= d.len(),
            i % 2 == 0 || i == d.len(),
            r@.len() == (i + 1) / 2,
            forall|j: int| 0 <= j < r@.len() ==> #[trigger] r@[j] == pairs_of(d@)[j],
        decreases d.len() - i,
    {
        let second = if i + 1 < d.len() {
            Some(d[i + 1])
        } else {
            None
        };
        r.push((d[i], second));
        i = i + 1;
        if i < d.len() {
            i = i + 1;
        }
    }
    assert(r@ =~= pairs_of(d@));
    r
}

fn triples_exec(d: &Vec<u8>) -> (r: Vec<(u8, Option<u8>, Option<u8>)>)
    ensures
        r@ == triples_of(d@),
{
    let mut r: Vec<(u8, Option<u8>, Option<u8>)> = Vec::new();
    let mut i: usize = 0;
    while i < d.len()
        invariant
            i <= d.len(),
            i % 3 == 0 || i == d.len(),
            r@.len() == (i + 2) / 3,
            forall|j: int| 0 <= j < r@.len() ==> #[trigger] r@[j] == triples_of(d@)[j],
        decreases d.len() - i,
    {
        let g = if i + 1 < d.len() {
            Some(d[i + 1])
        } else {
            None
        };
        let b = if i + 2 < d.len() {
            Some(d[i + 2])
        } else {
            None
        };
        r.push((d[i], g, b));
        i = i + 1;
        if i < d.len() {
            i = i + 1;
            if i < d.len() {
                i = i + 1;
            }
        }
    }
    assert(r@ =~= triples_of(d@));
    r
}

fn head_parse_exec(p: &Vec<Vec<char>>) -> (r: Result<(Easing, i32, Option<i32>), ParseCommandError>)
    requires
        p.len() >= 2,
    ensures
        r == head_parse(vv(p@)),
{
    let e = match parse_usize(p[1].as_slice()) {
        Ok(e) => e,
        Err(_) => return Err(ParseCommandError::InvalidEasing),
    };
    if p.len() < 3 {
        return Err(ParseCommandError::MissingStartTime);
    }
    let st = match i32_field_exec(p[2].as_slice()) {
        Some(v) => v,
        None => return Err(ParseCommandError::InvalidStartTime),
    };
    if p.len() < 4 {
        return Err(ParseCommandError::MissingEndTime);
    }
    let et = match end_time_field_exec(p[3].as_slice()) {
        Some(v) => v,
        None => return Err(ParseCommandError::InvalidEndTime),
    };
    Ok((Easing::from_usize(e), st, et))
}


fn single_errors_exec(k: CommandKind) -> (r: (ParseCommandError, ParseCommandError, ParseCommandError))
    ensures
        r == single_errors(k),
{
    match k {
        CommandKind::Fade => (
            ParseCommandError::MissingStartOpacity,
            ParseCommandError::InvalidStartOpacity,
            ParseCommandError::InvalidContinuingOpacities,
        ),
        CommandKind::MoveX => (
            ParseCommandError::MissingMoveX,
            ParseCommandError::InvalidMoveX,
            ParseCommandError::InvalidContinuingMove,
        ),
        CommandKind::MoveY => (
            ParseCommandError::MissingMoveY,
            ParseCommandError::InvalidMoveY,
            ParseCommandError::InvalidContinuingMove,
        ),
        CommandKind::Scale => (
            ParseCommandError::MissingStartScale,
            ParseCommandError::InvalidStartScale,
            ParseCommandError::InvalidContinuingScales,
        ),
        _ => (
            ParseCommandError::MissingStartRotation,
            ParseCommandError::InvalidStartRotation,
            ParseCommandError::InvalidContinuingRotation,
        ),
    }
}

fn pair_errors_exec(k: CommandKind) -> (r: (ParseCommandError, ParseCommandError, ParseCommandError, ParseCommandError, ParseCommandError))
    ensures
        r == pair_errors(k),
{
    match k {
        CommandKind::Move => (
            ParseCommandError::MissingMoveX,
            ParseCommandError::InvalidMoveX,
            ParseCommandError::MissingMoveY,
            ParseCommandError::InvalidMoveY,
            ParseCommandError::InvalidContinuingMove,
        ),
        _ => (
            ParseCommandError::MissingScaleX,
            ParseCommandError::InvalidScaleX,
            ParseCommandError::MissingScaleY,
            ParseCommandError::InvalidScaleY,
            ParseCommandError::InvalidContinuingScales,
        ),
    }
}

fn colour_body_exec(p: &Vec<Vec<char>>, easing: Easing, end_time: Option<i32>) -> (r: Result<CommandProperties, ParseCommandError>)
    requires
        p.len() >= 4,
    ensures
        match (r, body_parse(CommandKind::Colour, vv(p@), easing, end_time)) {
            (Ok(a), Ok(b)) => flat_properties_view(a) == b,
            (Err(a), Err(b)) => a == b,
            _ => false,
        },
{
    if p.len() < 5 {
        return Err(ParseCommandError::MissingRed);
    }
    let red = match parse_u8(p[4].as_slice()) {
        Ok(v) => v,
        Err(_) => return Err(ParseCommandError::InvalidRed),
    };
    if p.len() < 6 {
        return Err(ParseCommandError::MissingGreen);
    }
    let green = match parse_u8(p[5].as_slice()) {
        Ok(v) => v,
        Err(_) => return Err(ParseCommandError::InvalidGreen),
    };
    if p.len() < 7 {
        return Err(ParseCommandError::MissingBlue);
    }
    let blue = match parse_u8(p[6].as_slice()) {
        Ok(v) => v,
        Err(_) => return Err(ParseCommandError::InvalidBlue),
    };
    match parse_bytes_exec(p, 7) {
        None => Err(ParseCommandError::InvalidContinuingColours),
        Some(rest) => {
            let continuing = triples_exec(&rest);
            Ok(CommandProperties::Colour { easing, end_time, colours: Colours { start: (red, green, blue), continuing } })
        },
    }
}

fn parameter_body_exec(p: &Vec<Vec<char>>, easing: Easing, end_time: Option<i32>) -> (r: Result<CommandProperties, ParseCommandError>)
    requires
        p.len() >= 4,
    ensures
        match (r, body_parse(CommandKind::Parameter, vv(p@), easing, end_time)) {
            (Ok(a), Ok(b)) => flat_properties_view(a) == b,
            (Err(a), Err(b)) => a == b,
            _ => false,
        },
{
    if p.len() < 5 {
        return Err(ParseCommandError::MissingParameterType);
    }
    let parameter = match Parameter::parse_chars(p[4].as_slice()) {
        Ok(v) => v,
        Err(_) => return Err(ParseCommandError::InvalidParameterType),
    };
    match parse_parameters_exec(p, 5) {
        None => Err(ParseCommandError::InvalidContinuingParameters),
        Some(rest) => Ok(CommandProperties::Parameter { easing, end_time, parameter, continuing_parameters: rest }),
    }
}

fn pair_body_exec(k: CommandKind, p: &Vec<Vec<char>>, easing: Easing, end_time: Option<i32>) -> (r: Option<Result<CommandProperties, ParseCommandError>>)
    requires
        p.len() >= 4,
        k == CommandKind::Move || k == CommandKind::VectorScale,
    ensures
        r is None <==> (p.len() >= 6 && parse_decimal_spec(vv(p@)[4]) is Some && parse_decimal_spec(vv(p@)[5]) is Some
            && pairs_stuck(vv(p@).skip(6))),
        r matches Some(x) ==> match (x, body_parse(k, vv(p@), easing, end_time)) {
            (Ok(a), Ok(b)) => flat_properties_view(a) == b,
            (Err(a), Err(b)) => a == b,
            _ => false,
        },
{
    let (mx, ix, my, iy, ic) = pair_errors_exec(k);
    if p.len() < 5 {
        return Some(Err(mx));
    }
    let x = match Decimal::parse(p[4].as_slice()) {
        Some(v) => v,
        None => return Some(Err(ix)),
    };
    if p.len() < 6 {
        return Some(Err(my));
    }
    let y = match Decimal::parse(p[5].as_slice()) {
        Some(v) => v,
        None => return Some(Err(iy)),
    };
    match parse_decimals_exec(p, 6) {
        Err(i) => {
            proof {
                lemma_pairs_stuck_at(vv(p@).skip(6), i as int);
            }
            if i % 2 == 1 {
                None
            } else {
                Some(Err(ic))
            }
        },
        Ok(rest) => {
            proof {
                lemma_pairs_not_stuck(vv(p@).skip(6));
            }
            let continuing = pairs_exec(&rest);
            let f = ContinuingFields { start: (x, y), continuing };
            if k == CommandKind::Move {
                Some(Ok(CommandProperties::Move { easing, end_time, positions_xy: f }))
            } else {
                Some(Ok(CommandProperties::VectorScale { easing, end_time, scales_xy: f }))
            }
        },
    }
}

fn single_body_exec(k: CommandKind, p: &Vec<Vec<char>>, easing: Easing, end_time: Option<i32>) -> (r: Result<CommandProperties, ParseCommandError>)
    requires
        p.len() >= 4,
        k == CommandKind::Fade || k == CommandKind::MoveX || k == CommandKind::MoveY
            || k == CommandKind::Scale || k == CommandKind::Rotate,
    ensures
        match (r, body_parse(k, vv(p@), easing, end_time)) {
            (Ok(a), Ok(b)) => flat_properties_view(a) == b,
            (Err(a), Err(b)) => a == b,
            _ => false,
        },
{
    let (ms, is, ic) = single_errors_exec(k);
    if p.len() < 5 {
        return Err(ms);
    }
    let x = match Decimal::parse(p[4].as_slice()) {
        Some(v) => v,
        None => return Err(is),
    };
    match parse_decimals_exec(p, 5) {
        Err(_) => Err(ic),
        Ok(rest) => Ok(match k {
            CommandKind::Fade => CommandProperties::Fade { easing, end_time, start_opacity: x, continuing_opacities: rest },
            CommandKind::MoveX => CommandProperties::MoveX { easing, end_time, start_x: x, continuing_x: rest },
            CommandKind::MoveY => CommandProperties::MoveY { easing, end_time, start_y: x, continuing_y: rest },
            CommandKind::Scale => CommandProperties::Scale { easing, end_time, start_scale: x, continuing_scales: rest },
            _ => CommandProperties::Rotate { easing, end_time, start_rotation: x, continuing_rotations: rest },
        }),
    }
}

fn loop_parse_exec(p: &Vec<Vec<char>>) -> (r: Result<Command, ParseCommandError>)
    requires
        p.len() >= 1,
    ensures
        match (r, loop_parse(vv(p@))) {
            (Ok(a), Ok(b)) => a@ == b,
            (Err(a), Err(b)) => a == b,
            _ => false,
        },
{
    if !tag_matches(&p[0], CommandKind::Loop) || p.len() < 2 {
        return Err(ParseCommandError::MissingStartTime);
    }
    let st = match i32_field_exec(p[1].as_slice()) {
        Some(v) => v,
        None => return Err(ParseCommandError::InvalidStartTime),
    };
    if p.len() < 3 {
        return Err(ParseCommandError::MissingLoopCount);
    }
    proof {
        lemma_comma_lit();
    }
    let rest = join_from(p, 2, ",");
    match parse_usize(rest.as_slice()) {
        Err(_) => Err(ParseCommandError::InvalidLoopCount),
        Ok(n) => {
            let c = Command { start_time: st, properties: CommandProperties::Loop { loop_count: n as u32, commands: Vec::new() } };
            assert(commands_view(Seq::<Command>::empty()) =~= Seq::<CommandView>::empty());
            Ok(c)
        },
    }
}

fn trigger_tail_exec(p: &Vec<Vec<char>>) -> (r: Result<(Option<i32>, Option<i32>), ParseCommandError>)
    requires
        p.len() >= 3,
    ensures
        r == trigger_tail(vv(p@)),
{
    proof {
        lemma_comma_lit();
    }
    if p.len() == 3 {
        return Ok((None, None));
    }
    let e3 = i32_field_exec(p[3].as_slice());
    if p.len() >= 5 && e3.is_some() {
        let rest = join_from(p, 4, ",");
        return match i32_field_exec(rest.as_slice()) {
            Some(g) => Ok((e3, Some(g))),
            None => Err(ParseCommandError::InvalidGroupNumber),
        };
    }
    if p.len() >= 5 && p[3].len() == 0 {
        let rest = join_from(p, 4, ",");
        return match i32_field_exec(rest.as_slice()) {
            Some(g) => Ok((None, Some(g))),
            None => Err(ParseCommandError::InvalidGroupNumber),
        };
    }
    if p.len() == 4 && p[3].len() == 0 {
        return Ok((None, None));
    }
    let rest = join_from(p, 3, ",");
    match i32_field_exec(rest.as_slice()) {
        Some(e) => Ok((Some(e), None)),
        None => Err(ParseCommandError::InvalidEndTime),
    }
}

fn trigger_parse_exec(p: &Vec<Vec<char>>) -> (r: Option<Result<Command, ParseCommandError>>)
    requires
        p.len() >= 1,
    ensures
        r is None <==> (vv(p@)[0] == seq!['T'] && p.len() >= 2 && trigger_type_stuck(vv(p@)[1])),
        r matches Some(x) ==> match (x, trigger_parse(vv(p@))) {
            (Ok(a), Ok(b)) => a@ == b,
            (Err(a), Err(b)) => a == b,
            _ => false,
        },
{
    if !tag_matches(&p[0], CommandKind::Trigger) || p.len() < 2 {
        return Some(Err(ParseCommandError::MissingTriggerType));
    }
    assert(vv(p@)[1] == p@[1]@);
    let tt = match TriggerType::try_parse_chars(p[1].as_slice()) {
        None => return None,
        Some(Ok(t)) => t,
        Some(Err(_)) => return Some(Err(ParseCommandError::InvalidTriggerType)),
    };
    if p.len() < 3 {
        return Some(Err(ParseCommandError::MissingStartTime));
    }
    let st = match i32_field_exec(p[2].as_slice()) {
        Some(v) => v,
        None => return Some(Err(ParseCommandError::InvalidStartTime)),
    };
    match trigger_tail_exec(p) {
        Err(e) => Some(Err(e)),
        Ok((et, g)) => {
            let c = Command {
                start_time: st,
                properties: CommandProperties::Trigger { trigger_type: tt, end_time: et, group_number: g, commands: Vec::new() },
            };
            assert(commands_view(Seq::<Command>::empty()) =~= Seq::<CommandView>::empty());
            Some(Ok(c))
        },
    }
}

impl Command {
    /// Reads a command line; nested commands are added afterwards by their
    /// indentation. The `requires` leaves out the lines on which reading panics.
    pub fn parse_chars(s: &[char]) -> (r: Result<Command, ParseCommandError>)
        requires
            !command_stuck(s@),
        ensures
            match (r, command_parse(s@)) {
                (Ok(a), Ok(b)) => a@ == b,
                (Err(a), Err(b)) => a == b,
                _ => false,
            },
    {
        match Command::try_parse_chars(s) {
            Some(x) => x,
            None => Err(ParseCommandError::UnknownCommandType),
        }
    }

    /// Reads a command line; `None` exactly on the lines on which reading
    /// panics (see `command_stuck`).
    pub fn try_parse_chars(s: &[char]) -> (r: Option<Result<Command, ParseCommandError>>)
        ensures
            r is None <==> command_stuck(s@),
            r matches Some(x) ==> match (x, command_parse(s@)) {
                (Ok(a), Ok(b)) => a@ == b,
                (Err(a), Err(b)) => a == b,
                _ => false,
            },
    {
        proof {
            reveal(command_parse);
        }
        let n = indent_len_exec(s);
        let t = slice_to_vec(s, n, s.len());
        assert(t@ =~= s@.skip(n as int));
        let p = split_chars(t.as_slice(), ',');
        match command_kind_exec(t.as_slice()) {
            None => Some(Err(ParseCommandError::UnknownCommandType)),
            Some(CommandKind::Loop) => Some(loop_parse_exec(&p)),
            Some(CommandKind::Trigger) => trigger_parse_exec(&p),
            Some(k) => {
                if !tag_matches(&p[0], k) || p.len() < 2 {
                    return Some(Err(ParseCommandError::MissingEasing));
                }
                let (easing, st, et) = match head_parse_exec(&p) {
                    Ok(h) => h,
                    Err(e) => return Some(Err(e)),
                };
                let props = match k {
                    CommandKind::Colour => colour_body_exec(&p, easing, et),
                    CommandKind::Parameter => parameter_body_exec(&p, easing, et),
                    CommandKind::Move | CommandKind::VectorScale => match pair_body_exec(k, &p, easing, et) {
                        None => return None,
                        Some(x) => x,
                    },
                    _ => single_body_exec(k, &p, easing, et),
                };
                match props {
                    Err(e) => Some(Err(e)),
                    Ok(props) => Some(Ok(Command { start_time: st, properties: props })),
                }
            },
        }
    }
}


// ---------------------------------------------------------------------------
// Writing

/// The text of an optional end time: empty where there is none.
pub open spec fn end_text(e: Option<i32>) -> Seq<char> {
    match e {
        Some(t) => int_text(t as int),
        None => Seq::empty(),
    }
}

/// The texts of decimals.
pub open spec fn decimal_texts(d: Seq<Decimal>) -> Seq<Seq<char>> {
    d.map_values(|x: Decimal| x.text())
}

/// The texts of continuing pairs, a missing second value written as nothing.
pub open spec fn pair_texts(c: Seq<(Decimal, Option<Decimal>)>) -> Seq<Seq<char>>
    decreases c.len(),
{
    if c.len() == 0 {
        Seq::empty()
    } else {
        pair_texts(c.drop_last()).push(c.last().0.text()) + match c.last().1 {
            Some(y) => seq![y.text()],
            None => Seq::empty(),
        }
    }
}

/// The texts of continuing colours, missing values written as nothing.
pub open spec fn triple_texts(c: Seq<(u8, Option<u8>, Option<u8>)>) -> Seq<Seq<char>>
    decreases c.len(),
{
    if c.len() == 0 {
        Seq::empty()
    } else {
        pair_texts_u8(triple_texts(c.drop_last()), c.last())
    }
}

/// Appends the texts of one continuing colour.
pub open spec fn pair_texts_u8(prev: Seq<Seq<char>>, t: (u8, Option<u8>, Option<u8>)) -> Seq<Seq<char>> {
    prev.push(int_text(t.0 as int)) + (match t.1 {
        Some(g) => seq![int_text(g as int)],
        None => Seq::empty(),
    }) + (match t.2 {
        Some(b) => seq![int_text(b as int)],
        None => Seq::empty(),
    })
}

/// The letters of parameters.
pub open spec fn parameter_texts(d: Seq<Parameter>) -> Seq<Seq<char>> {
    d.map_values(|x: Parameter| seq![x.letter()])
}

/// The letters, easing, start time and end time that begin a command.
pub open spec fn head_fields(tag: Seq<char>, easing: Easing, start_time: i32, end_time: Option<i32>) -> Seq<Seq<char>> {
    seq![tag, int_text(easing.number() as int), int_text(start_time as int), end_text(end_time)]
}

/// The text of a command line (without indentation and without its nested
/// commands).
pub open spec fn command_text(c: CommandView) -> Seq<char> {
    let st = c.start_time;
    join(
        match c.properties {
            CommandPropertiesView::Fade { easing, end_time, start_opacity, continuing_opacities } =>
                head_fields(seq!['F'], easing, st, end_time).push(start_opacity.text()) + decimal_texts(continuing_opacities),
            CommandPropertiesView::Move { easing, end_time, positions_xy } =>
                head_fields(seq!['M'], easing, st, end_time).push(positions_xy.start.0.text()).push(positions_xy.start.1.text())
                    + pair_texts(positions_xy.continuing),
            CommandPropertiesView::MoveX { easing, end_time, start_x, continuing_x } =>
                head_fields(seq!['M', 'X'], easing, st, end_time).push(start_x.text()) + decimal_texts(continuing_x),
            CommandPropertiesView::MoveY { easing, end_time, start_y, continuing_y } =>
                head_fields(seq!['M', 'Y'], easing, st, end_time).push(start_y.text()) + decimal_texts(continuing_y),
            CommandPropertiesView::Scale { easing, end_time, start_scale, continuing_scales } =>
                head_fields(seq!['S'], easing, st, end_time).push(start_scale.text()) + decimal_texts(continuing_scales),
            CommandPropertiesView::VectorScale { easing, end_time, scales_xy } =>
                head_fields(seq!['V'], easing, st, end_time).push(scales_xy.start.0.text()).push(scales_xy.start.1.text())
                    + pair_texts(scales_xy.continuing),
            CommandPropertiesView::Rotate { easing, end_time, start_rotation, continuing_rotations } =>
                head_fields(seq!['R'], easing, st, end_time).push(start_rotation.text()) + decimal_texts(continuing_rotations),
            CommandPropertiesView::Colour { easing, end_time, colours } =>
                head_fields(seq!['C'], easing, st, end_time).push(int_text(colours.start.0 as int)).push(
                    int_text(colours.start.1 as int),
                ).push(int_text(colours.start.2 as int)) + triple_texts(colours.continuing),
            CommandPropertiesView::Parameter { easing, end_time, parameter, continuing_parameters } =>
                head_fields(seq!['P'], easing, st, end_time).push(seq![parameter.letter()]) + parameter_texts(
                    continuing_parameters,
                ),
            CommandPropertiesView::Loop { loop_count, .. } =>
                seq![seq!['L'], int_text(st as int), int_text(loop_count as int)],
            CommandPropertiesView::Trigger { trigger_type, end_time, group_number, .. } =>
                seq![seq!['T'], trigger_type_text(trigger_type), int_text(st as int), end_text(end_time)] + match group_number {
                    Some(g) => seq![int_text(g as int)],
                    None => Seq::empty(),
                },
        },
        seq![','],
    )
}

fn chars1(c: char) -> (r: Vec<char>)
    ensures
        r@ == seq![c],
{
    let mut v: Vec<char> = Vec::new();
    v.push(c);
    assert(v@ =~= seq![c]);
    v
}

fn chars2(a: char, b: char) -> (r: Vec<char>)
    ensures
        r@ == seq![a, b],
{
    let mut v: Vec<char> = Vec::new();
    v.push(a);
    v.push(b);
    assert(v@ =~= seq![a, b]);
    v
}

fn int_part(v: i64) -> (r: Vec<char>)
    ensures
        r@ == int_text(v as int),
{
    let mut out: Vec<char> = Vec::new();
    push_int(&mut out, v);
    assert(out@ =~= int_text(v as int));
    out
}

fn decimal_part(d: Decimal) -> (r: Vec<char>)
    ensures
        r@ == d.text(),
{
    let mut out: Vec<char> = Vec::new();
    d.push_to(&mut out);
    assert(out@ =~= d.text());
    out
}

fn end_part(e: Option<i32>) -> (r: Vec<char>)
    ensures
        r@ == end_text(e),
{
    match e {
        Some(t) => int_part(t as i64),
        None => {
            let v: Vec<char> = Vec::new();
            assert(v@ =~= end_text(e));
            v
        },
    }
}

fn head_parts(tag: Vec<char>, easing: Easing, start_time: i32, end_time: Option<i32>) -> (r: Vec<Vec<char>>)
    ensures
        vv(r@) == head_fields(tag@, easing, start_time, end_time),
{
    let mut r: Vec<Vec<char>> = Vec::new();
    push_part(&mut r, tag);
    let mut e: Vec<char> = Vec::new();
    push_nat(&mut e, easing.to_usize() as u64);
    push_part(&mut r, e);
    push_part(&mut r, int_part(start_time as i64));
    push_part(&mut r, end_part(end_time));
    assert(vv(r@) =~= head_fields(vv(r@)[0], easing, start_time, end_time));
    r
}

fn push_decimal_parts(parts: &mut Vec<Vec<char>>, d: &Vec<Decimal>)
    ensures
        vv(final(parts)@) == vv(old(parts)@) + decimal_texts(d@),
{
    let ghost start = vv(parts@);
    let mut i: usize = 0;
    while i < d.len()
        invariant
            i <= d.len(),
            vv(parts@) == start + decimal_texts(d@.take(i as int)),
        decreases d.len() - i,
    {
        push_part(parts, decimal_part(d[i]));
        assert(decimal_texts(d@.take(i + 1)) =~= decimal_texts(d@.take(i as int)).push(d@[i as int].text()));
        assert(start + decimal_texts(d@.take(i + 1)) =~= (start + decimal_texts(d@.take(i as int))).push(d@[i as int].text()));
        assert(vv(parts@) =~= start + decimal_texts(d@.take(i + 1)));
        i = i + 1;
    }
    assert(d@.take(d@.len() as int) =~= d@);
}

fn push_parameter_parts(parts: &mut Vec<Vec<char>>, d: &Vec<Parameter>)
    ensures
        vv(final(parts)@) == vv(old(parts)@) + parameter_texts(d@),
{
    let ghost start = vv(parts@);
    let mut i: usize = 0;
    while i < d.len()
        invariant
            i <= d.len(),
            vv(parts@) == start + parameter_texts(d@.take(i as int)),
        decreases d.len() - i,
    {
        push_part(parts, chars1(d[i].to_char()));
        assert(parameter_texts(d@.take(i + 1)) =~= parameter_texts(d@.take(i as int)).push(seq![d@[i as int].letter()]));
        assert(start + parameter_texts(d@.take(i + 1)) =~= (start + parameter_texts(d@.take(i as int))).push(seq![d@[i as int].letter()]));
        assert(vv(parts@) =~= start + parameter_texts(d@.take(i + 1)));
        i = i + 1;
    }
    assert(d@.take(d@.len() as int) =~= d@);
}

fn push_pair_parts(parts: &mut Vec<Vec<char>>, c: &Vec<(Decimal, Option<Decimal>)>)
    ensures
        vv(final(parts)@) == vv(old(parts)@) + pair_texts(c@),
{
    let ghost start = vv(parts@);
    let mut i: usize = 0;
    assert(pair_texts(c@.take(0)) =~= Seq::<Seq<char>>::empty());
    while i < c.len()
        invariant
            i <= c.len(),
            vv(parts@) == start + pair_texts(c@.take(i as int)),
        decreases c.len() - i,
    {
        let (x, y) = c[i];
        assert(c@.take(i + 1).drop_last() =~= c@.take(i as int));
        push_part(parts, decimal_part(x));
        match y {
            Some(y) => {
                push_part(parts, decimal_part(y));
            },
            None => {},
        }
        assert(vv(parts@) =~= start + pair_texts(c@.take(i + 1)));
        i = i + 1;
    }
    assert(c@.take(c@.len() as int) =~= c@);
}

fn push_triple_parts(parts: &mut Vec<Vec<char>>, c: &Vec<(u8, Option<u8>, Option<u8>)>)
    ensures
        vv(final(parts)@) == vv(old(parts)@) + triple_texts(c@),
{
    let ghost start = vv(parts@);
    let mut i: usize = 0;
    assert(triple_texts(c@.take(0)) =~= Seq::<Seq<char>>::empty());
    while i < c.len()
        invariant
            i <= c.len(),
            vv(parts@) == start + triple_texts(c@.take(i as int)),
        decreases c.len() - i,
    {
        let (r, g, b) = c[i];
        assert(c@.take(i + 1).drop_last() =~= c@.take(i as int));
        push_part(parts, int_part(r as i64));
        match g {
            Some(g) => {
                push_part(parts, int_part(g as i64));
            },
            None => {},
        }
        match b {
            Some(b) => {
                push_part(parts, int_part(b as i64));
            },
            None => {},
        }
        assert(vv(parts@) =~= start + triple_texts(c@.take(i + 1)));
        i = i + 1;
    }
    assert(c@.take(c@.len() as int) =~= c@);
}

fn command_parts(c: &Command) -> (r: Vec<Vec<char>>)
    ensures
        join(vv(r@), seq![',']) == command_text(c@),
{
    let st = c.start_time;
    match &c.properties {
        CommandProperties::Fade { easing, end_time, start_opacity, continuing_opacities } => {
            let mut r = head_parts(chars1('F'), *easing, st, *end_time);
            push_part(&mut r, decimal_part(*start_opacity));
            push_decimal_parts(&mut r, continuing_opacities);
            r
        },
        CommandProperties::Move { easing, end_time, positions_xy } => {
            let mut r = head_parts(chars1('M'), *easing, st, *end_time);
            push_part(&mut r, decimal_part(positions_xy.start.0));
            push_part(&mut r, decimal_part(positions_xy.start.1));
            push_pair_parts(&mut r, &positions_xy.continuing);
            r
        },
        CommandProperties::MoveX { easing, end_time, start_x, continuing_x } => {
            let mut r = head_parts(chars2('M', 'X'), *easing, st, *end_time);
            push_part(&mut r, decimal_part(*start_x));
            push_decimal_parts(&mut r, continuing_x);
            r
        },
        CommandProperties::MoveY { easing, end_time, start_y, continuing_y } => {
            let mut r = head_parts(chars2('M', 'Y'), *easing, st, *end_time);
            push_part(&mut r, decimal_part(*start_y));
            push_decimal_parts(&mut r, continuing_y);
            r
        },
        CommandProperties::Scale { easing, end_time, start_scale, continuing_scales } => {
            let mut r = head_parts(chars1('S'), *easing, st, *end_time);
            push_part(&mut r, decimal_part(*start_scale));
            push_decimal_parts(&mut r, continuing_scales);
            r
        },
        CommandProperties::VectorScale { easing, end_time, scales_xy } => {
            let mut r = head_parts(chars1('V'), *easing, st, *end_time);
            push_part(&mut r, decimal_part(scales_xy.start.0));
            push_part(&mut r, decimal_part(scales_xy.start.1));
            push_pair_parts(&mut r, &scales_xy.continuing);
            r
        },
        CommandProperties::Rotate { easing, end_time, start_rotation, continuing_rotations } => {
            let mut r = head_parts(chars1('R'), *easing, st, *end_time);
            push_part(&mut r, decimal_part(*start_rotation));
            push_decimal_parts(&mut r, continuing_rotations);
            r
        },
        CommandProperties::Colour { easing, end_time, colours } => {
            let mut r = head_parts(chars1('C'), *easing, st, *end_time);
            push_part(&mut r, int_part(colours.start.0 as i64));
            push_part(&mut r, int_part(colours.start.1 as i64));
            push_part(&mut r, int_part(colours.start.2 as i64));
            push_triple_parts(&mut r, &colours.continuing);
            r
        },
        CommandProperties::Parameter { easing, end_time, parameter, continuing_parameters } => {
            let mut r = head_parts(chars1('P'), *easing, st, *end_time);
            push_part(&mut r, chars1(parameter.to_char()));
            push_parameter_parts(&mut r, continuing_parameters);
            r
        },
        CommandProperties::Loop { loop_count, .. } => {
            let mut r: Vec<Vec<char>> = Vec::new();
            push_part(&mut r, chars1('L'));
            push_part(&mut r, int_part(st as i64));
            push_part(&mut r, int_part(*loop_count as i64));
            assert(vv(r@) =~= seq![seq!['L'], int_text(st as int), int_text(*loop_count as int)]);
            r
        },
        CommandProperties::Trigger { trigger_type, end_time, group_number, .. } => {
            let mut r: Vec<Vec<char>> = Vec::new();
            push_part(&mut r, chars1('T'));
            let mut t: Vec<char> = Vec::new();
            trigger_type.push_to(&mut t);
            push_part(&mut r, t);
            push_part(&mut r, int_part(st as i64));
            push_part(&mut r, end_part(*end_time));
            match group_number {
                Some(g) => {
                    push_part(&mut r, int_part(*g as i64));
                },
                None => {},
            }
            assert(vv(r@) =~= seq![seq!['T'], trigger_type_text(*trigger_type), int_text(st as int), end_text(*end_time)] + match *group_number {
                Some(g) => seq![int_text(g as int)],
                None => Seq::<Seq<char>>::empty(),
            });
            r
        },
    }
}

/// The text of continuing colours: the first red, green and blue, then each
/// continuing colour's values, all separated by commas.
pub open spec fn colours_text(c: ColoursView) -> Seq<char> {
    join(
        seq![int_text(c.start.0 as int), int_text(c.start.1 as int), int_text(c.start.2 as int)] + triple_texts(
            c.continuing,
        ),
        seq![','],
    )
}

impl Colours {
    /// The first red, green and blue, to change in place.
    pub fn start_rgb_mut(&mut self) -> (r: &mut (u8, u8, u8))
        ensures
            *r == old(self)@.start,
            final(self)@ == (ColoursView { start: *final(r), ..old(self)@ }),
    {
        &mut self.start
    }

    /// The text of the colours, as they stand in a colour command.
    pub fn to_string(&self) -> (r: String)
        ensures
            r@ == colours_text(self@),
    {
        let mut parts: Vec<Vec<char>> = Vec::new();
        parts.push(int_part(self.start.0 as i64));
        parts.push(int_part(self.start.1 as i64));
        parts.push(int_part(self.start.2 as i64));
        assert(vv(parts@) =~= seq![
            int_text(self.start.0 as int),
            int_text(self.start.1 as int),
            int_text(self.start.2 as int),
        ]);
        push_triple_parts(&mut parts, &self.continuing);
        proof {
            lemma_comma_lit();
        }
        let t = join_chars(&parts, ",");
        crate::text::string_from_chars(&t)
    }
}

impl VersionedToString for Command {
    open spec fn text_of(v: CommandView, version: Version) -> Option<Seq<char>> {
        Some(command_text(v))
    }

    fn to_chars(&self, version: Version) -> (r: Option<Vec<char>>) {
        let parts = command_parts(self);
        proof {
            lemma_comma_lit();
        }
        Some(join_chars(&parts, ","))
    }
}


// ---------------------------------------------------------------------------
// Nested commands

/// One more level of indentation, stopping at the largest `usize`.
pub open spec fn deeper(depth: usize) -> usize {
    if depth < usize::MAX {
        (depth + 1) as usize
    } else {
        depth
    }
}

/// The lines of commands at an indentation depth: each command's line, then
/// the lines of its nested commands one level deeper.
pub open spec fn command_lines(cs: Seq<CommandView>, depth: usize) -> Seq<Seq<char>>
    decreases cs, 0nat,
{
    if cs.len() == 0 {
        Seq::empty()
    } else {
        command_lines(cs.drop_last(), depth) + command_block(cs.last(), depth)
    }
}

/// The lines of one command and its nested commands.
pub open spec fn command_block(c: CommandView, depth: usize) -> Seq<Seq<char>>
    decreases c, 1nat,
{
    seq![spaces(depth as nat) + command_text(c)] + match c.properties {
        CommandPropertiesView::Loop { commands, .. } => command_lines(commands, deeper(depth)),
        CommandPropertiesView::Trigger { commands, .. } => command_lines(commands, deeper(depth)),
        _ => Seq::empty(),
    }
}

proof fn lemma_commands_view(cs: Seq<Command>)
    ensures
        commands_view(cs).len() == cs.len(),
        forall|k: int| 0 <= k < cs.len() ==> #[trigger] commands_view(cs)[k] == cs[k]@,
    decreases cs.len(),
{
    if cs.len() > 0 {
        lemma_commands_view(cs.drop_last());
    }
}

fn spaces_chars(n: usize) -> (r: Vec<char>)
    ensures
        r@ == spaces(n as nat),
{
    let mut r: Vec<char> = Vec::new();
    let mut i: usize = 0;
    while i < n
        invariant
            i <= n,
            r@ == spaces(i as nat),
        decreases n - i,
    {
        r.push(' ');
        assert(r@ =~= spaces((i + 1) as nat));
        i = i + 1;
    }
    r
}

fn deeper_exec(depth: usize) -> (r: usize)
    ensures
        r == deeper(depth),
{
    if depth < usize::MAX {
        depth + 1
    } else {
        depth
    }
}

/// Appends the lines of commands at an indentation depth.
pub fn push_command_lines(out: &mut Vec<Vec<char>>, cs: &Vec<Command>, depth: usize)
    ensures
        vv(final(out)@) == vv(old(out)@) + command_lines(commands_view(cs@), depth),
    decreases cs@, 0nat,
{
    let ghost start = vv(out@);
    let mut i: usize = 0;
    assert(cs@.take(0) =~= Seq::<Command>::empty());
    assert(command_lines(commands_view(Seq::<Command>::empty()), depth) =~= Seq::<Seq<char>>::empty());
    while i < cs.len()
        invariant
            i <= cs.len(),
            vv(out@) == start + command_lines(commands_view(cs@.take(i as int)), depth),
        decreases cs.len() - i,
    {
        assert(cs@.take(i + 1).drop_last() =~= cs@.take(i as int));
        assert(commands_view(cs@.take(i + 1)) == commands_view(cs@.take(i as int)).push(cs@[i as int]@));
        assert(commands_view(cs@.take(i + 1)).drop_last() =~= commands_view(cs@.take(i as int)));
        push_command_block(out, &cs[i], depth);
        assert(vv(out@) =~= start + command_lines(commands_view(cs@.take(i + 1)), depth));
        i = i + 1;
    }
    assert(cs@.take(cs@.len() as int) =~= cs@);
}

/// Appends the lines of one command and its nested commands.
pub fn push_command_block(out: &mut Vec<Vec<char>>, c: &Command, depth: usize)
    ensures
        vv(final(out)@) == vv(old(out)@) + command_block(c@, depth),
    decreases *c, 1nat,
{
    let ghost start = vv(out@);
    let mut line = spaces_chars(depth);
    let parts = command_parts(c);
    proof {
        lemma_comma_lit();
    }
    let text = join_chars(&parts, ",");
    crate::text::push_chars(&mut line, text.as_slice());
    push_part(out, line);
    match &c.properties {
        CommandProperties::Loop { commands, .. } => {
            push_command_lines(out, commands, deeper_exec(depth));
        },
        CommandProperties::Trigger { commands, .. } => {
            push_command_lines(out, commands, deeper_exec(depth));
        },
        _ => {},
    }
    assert(vv(out@) =~= start + command_block(c@, depth));
}

/// Error adding a command by its indentation.
#[derive(Clone, Copy, Debug, Hash, PartialEq, Eq)]
pub enum CommandPushError {
    /// No command at the level above takes nested commands: the level that
    /// was expected, and the indentation given.
    InvalidIndentation(usize, usize),
}

/// The nested commands of a command, if it is a loop or a trigger.
pub open spec fn nested_of(c: CommandView) -> Option<Seq<CommandView>> {
    match c.properties {
        CommandPropertiesView::Loop { commands, .. } => Some(commands),
        CommandPropertiesView::Trigger { commands, .. } => Some(commands),
        _ => None,
    }
}

/// The command with its nested commands replaced.
pub open spec fn with_nested(c: CommandView, n: Seq<CommandView>) -> CommandView {
    CommandView {
        start_time: c.start_time,
        properties: match c.properties {
            CommandPropertiesView::Loop { loop_count, .. } => CommandPropertiesView::Loop { loop_count, commands: n },
            CommandPropertiesView::Trigger { trigger_type, end_time, group_number, .. } =>
                CommandPropertiesView::Trigger { trigger_type, end_time, group_number, commands: n },
            p => p,
        },
    }
}

/// Adds a command under the last command of `cs`, which sits at level `i`,
/// so that the command ends up at level `ind`.
pub open spec fn push_below_last(cs: Seq<CommandView>, cmd: CommandView, ind: nat, i: nat) -> Result<Seq<CommandView>, CommandPushError>
    decreases ind - i,
{
    if cs.len() == 0 || i >= ind {
        Err(CommandPushError::InvalidIndentation(1, ind as usize))
    } else {
        match nested_of(cs.last()) {
            None => Err(CommandPushError::InvalidIndentation(1, ind as usize)),
            Some(n) => if i + 1 == ind {
                Ok(cs.update(cs.len() - 1, with_nested(cs.last(), n.push(cmd))))
            } else if n.len() == 0 {
                Err(CommandPushError::InvalidIndentation((i - 1) as usize, ind as usize))
            } else {
                match push_below_last(n, cmd, ind, i + 1) {
                    Err(e) => Err(e),
                    Ok(n2) => Ok(cs.update(cs.len() - 1, with_nested(cs.last(), n2))),
                }
            },
        }
    }
}

/// Adds a command at an indentation: at 1 after the other commands, deeper
/// under the last loop or trigger of each level above.
pub open spec fn push_indented(cs: Seq<CommandView>, cmd: CommandView, ind: nat) -> Result<Seq<CommandView>, CommandPushError> {
    if ind == 1 {
        Ok(cs.push(cmd))
    } else if cs.len() == 0 {
        Err(CommandPushError::InvalidIndentation(1, ind as usize))
    } else {
        push_below_last(cs, cmd, ind, 1)
    }
}

proof fn lemma_commands_view_push(cs: Seq<Command>, c: Command)
    ensures
        commands_view(cs.push(c)) == commands_view(cs).push(c@),
{
    assert(cs.push(c).drop_last() =~= cs);
}

fn rebuild_ok(cs: &mut Vec<Command>, c: Command, Ghost(old_cs): Ghost<Seq<Command>>)
    requires
        old(cs)@ == old_cs.drop_last(),
        old_cs.len() > 0,
    ensures
        commands_view(final(cs)@) == commands_view(old_cs).update(old_cs.len() - 1, c@),
{
    let ghost cv = c@;
    proof {
        lemma_commands_view(old_cs);
        lemma_commands_view_push(old_cs.drop_last(), c);
        assert(old_cs.drop_last() =~= old_cs.drop_last());
        assert(commands_view(old_cs.drop_last()) == commands_view(old_cs).drop_last());
    }
    cs.push(c);
    assert(commands_view(cs@) =~= commands_view(old_cs).update(old_cs.len() - 1, cv));
}

fn push_below_last_exec(cs: &mut Vec<Command>, cmd: Command, ind: usize, i: usize) -> (r: Result<(), CommandPushError>)
    requires
        1 <= i < ind,
        old(cs).len() > 0,
    ensures
        match push_below_last(commands_view(old(cs)@), cmd@, ind as nat, i as nat) {
            Ok(n) => r is Ok && commands_view(final(cs)@) == n,
            Err(e) => r == Err::<(), CommandPushError>(e) && commands_view(final(cs)@) == commands_view(old(cs)@),
        },
    decreases ind - i,
{
    let ghost old_cs = cs@;
    let ghost cmd_v = cmd@;
    proof {
        lemma_commands_view(old_cs);
    }
    let last = cs.pop().unwrap();
    assert(cs@ =~= old_cs.drop_last());
    assert(commands_view(old_cs).last() == last@);
    let ghost last_v = last@;
    let Command { start_time, properties } = last;
    match properties {
        CommandProperties::Loop { loop_count, mut commands } => {
            let ghost old_cmds = commands@;
            if i + 1 == ind {
                let ghost cmd_g = cmd;
                commands.push(cmd);
                proof {
                    lemma_commands_view_push(old_cmds, cmd_g);
                }
                let c = Command { start_time, properties: CommandProperties::Loop { loop_count, commands } };
                assert(c@ == with_nested(last_v, commands_view(old_cmds).push(cmd_v)));
                rebuild_ok(cs, c, Ghost(old_cs));
                return Ok(());
            }
            if commands.len() == 0 {
                let c = Command { start_time, properties: CommandProperties::Loop { loop_count, commands } };
                assert(c@ == last_v);
                rebuild_ok(cs, c, Ghost(old_cs));
                assert(commands_view(cs@) =~= commands_view(old_cs));
                return Err(CommandPushError::InvalidIndentation(i - 1, ind));
            }
            let res = push_below_last_exec(&mut commands, cmd, ind, i + 1);
            let c = Command { start_time, properties: CommandProperties::Loop { loop_count, commands } };
            rebuild_ok(cs, c, Ghost(old_cs));
            proof {
                if res is Err {
                    assert(c@ == last_v);
                    assert(commands_view(cs@) =~= commands_view(old_cs));
                }
            }
            res
        },
        CommandProperties::Trigger { trigger_type, end_time, group_number, mut commands } => {
            let ghost old_cmds = commands@;
            if i + 1 == ind {
                let ghost cmd_g = cmd;
                commands.push(cmd);
                proof {
                    lemma_commands_view_push(old_cmds, cmd_g);
                }
                let c = Command { start_time, properties: CommandProperties::Trigger { trigger_type, end_time, group_number, commands } };
                assert(c@ == with_nested(last_v, commands_view(old_cmds).push(cmd_v)));
                rebuild_ok(cs, c, Ghost(old_cs));
                return Ok(());
            }
            if commands.len() == 0 {
                let c = Command { start_time, properties: CommandProperties::Trigger { trigger_type, end_time, group_number, commands } };
                assert(c@ == last_v);
                rebuild_ok(cs, c, Ghost(old_cs));
                assert(commands_view(cs@) =~= commands_view(old_cs));
                return Err(CommandPushError::InvalidIndentation(i - 1, ind));
            }
            let res = push_below_last_exec(&mut commands, cmd, ind, i + 1);
            let c = Command { start_time, properties: CommandProperties::Trigger { trigger_type, end_time, group_number, commands } };
            rebuild_ok(cs, c, Ghost(old_cs));
            proof {
                if res is Err {
                    assert(c@ == last_v);
                    assert(commands_view(cs@) =~= commands_view(old_cs));
                }
            }
            res
        },
        properties => {
            let c = Command { start_time, properties };
            assert(c@ == last_v);
            rebuild_ok(cs, c, Ghost(old_cs));
            assert(commands_view(cs@) =~= commands_view(old_cs));
            Err(CommandPushError::InvalidIndentation(1, ind))
        },
    }
}

/// Adds a command to a list of commands at an indentation of at least 1; an
/// indentation of 0 is refused where the list is empty.
pub fn try_push_cmd(cmds: &mut Vec<Command>, cmd: Command, indentation: usize) -> (r: Result<(), CommandPushError>)
    requires
        indentation >= 1 || old(cmds)@.len() == 0,
    ensures
        indentation == 0 ==> r == Err::<(), CommandPushError>(CommandPushError::InvalidIndentation(1, 0)),
        match push_indented(commands_view(old(cmds)@), cmd@, indentation as nat) {
            Ok(n) => r is Ok && commands_view(final(cmds)@) == n,
            Err(e) => r == Err::<(), CommandPushError>(e) && commands_view(final(cmds)@) == commands_view(old(cmds)@),
        },
{
    proof {
        lemma_commands_view(cmds@);
    }
    if indentation == 1 {
        let ghost c = cmd@;
        proof {
            lemma_commands_view_push(cmds@, cmd);
        }
        cmds.push(cmd);
        return Ok(());
    }
    if cmds.len() == 0 {
        return Err(CommandPushError::InvalidIndentation(1, indentation));
    }
    push_below_last_exec(cmds, cmd, indentation, 1)
}


// ---------------------------------------------------------------------------
// Continuing values

/// A second value is missing before the last pair.
#[derive(Clone, Copy, Debug, Hash, PartialEq, Eq)]
pub struct InvalidSecondFieldOption;

/// Error setting continuing pairs.
#[derive(Clone, Copy, Debug, Hash, PartialEq, Eq)]
pub enum ContinuingSetError {
    /// The index is past the pairs.
    IndexOutOfBounds,
    /// A second value may only be missing in the last pair.
    InvalidSecondFieldOption,
}

/// Which value of continuing colours is missing where it may not be.
#[derive(Clone, Copy, Debug, Hash, PartialEq, Eq)]
pub enum InvalidColourFieldOption {
    Green,
    Blue,
}

/// Error setting continuing colours.
#[derive(Clone, Copy, Debug, Hash, PartialEq, Eq)]
pub enum ContinuingRGBSetError {
    /// The index is past the colours.
    IndexOutOfBounds,
    InvalidFieldOption(InvalidColourFieldOption),
}

/// Whether only the last pair lacks its second value.
pub open spec fn pairs_complete_but_last<T>(c: Seq<(T, Option<T>)>) -> bool {
    forall|i: int| 0 <= i < c.len() - 1 ==> (#[trigger] c[i]).1 is Some
}

/// The second value that a missing one of the last pair stands for: that of
/// the pair before it, or the first pair's.
pub open spec fn previous_second<T>(start: (T, T), c: Seq<(T, Option<T>)>) -> Option<T> {
    if c.len() >= 2 {
        c[c.len() - 2].1
    } else {
        Some(start.1)
    }
}

/// The pairs after a new pair is added: a missing second value of the last
/// pair is filled in first.
pub open spec fn pushed_pairs<T>(start: (T, T), c: Seq<(T, Option<T>)>, f: (T, Option<T>)) -> Seq<(T, Option<T>)> {
    if c.len() > 0 && c.last().1 is None {
        c.update(c.len() - 1, (c.last().0, previous_second(start, c))).push(f)
    } else {
        c.push(f)
    }
}

impl<T: Copy> ContinuingFields<T> {
    /// The first pair, to change in place.
    pub fn start_values_mut(&mut self) -> (r: &mut (T, T))
        ensures
            *r == old(self)@.start,
            final(self)@ == (ContinuingFieldsView { start: *final(r), ..old(self)@ }),
    {
        &mut self.start
    }

    /// Continuing pairs, where only the last may lack its second value.
    pub fn new(start: (T, T), continuing: Vec<(T, Option<T>)>) -> (r: Result<Self, InvalidSecondFieldOption>)
        ensures
            pairs_complete_but_last(continuing@) ==> (r matches Ok(f) && f@ == (ContinuingFieldsView { start, continuing: continuing@ })),
            !pairs_complete_but_last(continuing@) ==> r == Err::<Self, InvalidSecondFieldOption>(InvalidSecondFieldOption),
    {
        let n = continuing.len();
        let mut i: usize = 0;
        while i < n
            invariant
                i <= n,
                n == continuing@.len(),
                forall|j: int| 0 <= j < i && j < n - 1 ==> (#[trigger] continuing@[j]).1 is Some,
            decreases n - i,
        {
            if continuing[i].1.is_none() && i != n - 1 {
                return Err(InvalidSecondFieldOption);
            }
            i = i + 1;
        }
        Ok(ContinuingFields { start, continuing })
    }

    /// The first pair.
    pub fn start_values(&self) -> (r: &(T, T))
        ensures
            *r == self.start,
    {
        &self.start
    }

    /// Sets the first pair.
    pub fn set_start_values(&mut self, start: (T, T))
        ensures
            final(self)@ == (ContinuingFieldsView { start, ..old(self)@ }),
    {
        self.start = start;
    }

    /// The pairs that follow the first.
    pub fn continuing_fields(&self) -> (r: &[(T, Option<T>)])
        ensures
            r@ == self.continuing@,
    {
        self.continuing.as_slice()
    }

    /// Adds a pair; a missing second value of the last pair is filled in with
    /// the one before it first.
    pub fn push_continuing_fields(&mut self, continuing_fields: (T, Option<T>))
        ensures
            final(self)@ == (ContinuingFieldsView {
                continuing: pushed_pairs(old(self).start, old(self).continuing@, continuing_fields),
                ..old(self)@
            }),
    {
        let n = self.continuing.len();
        if n > 0 && self.continuing[n - 1].1.is_none() {
            let prev = if n >= 2 {
                self.continuing[n - 2].1
            } else {
                Some(self.start.1)
            };
            let first = self.continuing[n - 1].0;
            self.continuing.set(n - 1, (first, prev));
        }
        self.continuing.push(continuing_fields);
    }

    /// Replaces the pair at an index; only the last pair may lack its second
    /// value.
    pub fn set_continuing_fields(&mut self, index: usize, fields: (T, Option<T>)) -> (r: Result<(), ContinuingSetError>)
        ensures
            index != (old(self).continuing@.len() as usize).wrapping_sub(1) && fields.1 is None ==> r
                == Err::<(), ContinuingSetError>(ContinuingSetError::InvalidSecondFieldOption) && final(self)@ == old(self)@,
            !(index != (old(self).continuing@.len() as usize).wrapping_sub(1) && fields.1 is None) ==> (if index
                < old(self).continuing@.len() {
                r is Ok && final(self)@ == (ContinuingFieldsView {
                    continuing: old(self).continuing@.update(index as int, fields),
                    ..old(self)@
                })
            } else {
                r == Err::<(), ContinuingSetError>(ContinuingSetError::IndexOutOfBounds) && final(self)@ == old(self)@
            }),
    {
        let last = self.continuing.len().wrapping_sub(1);
        if index != last && fields.1.is_none() {
            Err(ContinuingSetError::InvalidSecondFieldOption)
        } else if index < self.continuing.len() {
            self.continuing.set(index, fields);
            Ok(())
        } else {
            Err(ContinuingSetError::IndexOutOfBounds)
        }
    }
}

/// The first colour error from index `i` on.
pub open spec fn colours_error_from(c: Seq<(u8, Option<u8>, Option<u8>)>, i: int) -> Option<InvalidColourFieldOption>
    decreases c.len() - i,
{
    if i < 0 || i >= c.len() {
        None
    } else {
        let (_, g, b) = c[i];
        if i != c.len() - 1 && g is None {
            Some(InvalidColourFieldOption::Green)
        } else if i != c.len() - 1 && b is None {
            Some(InvalidColourFieldOption::Blue)
        } else if g is None && b is Some {
            Some(InvalidColourFieldOption::Blue)
        } else {
            colours_error_from(c, i + 1)
        }
    }
}

/// The previous green or blue (`k` is 1 or 2) of the last colour.
pub open spec fn previous_colour(start: (u8, u8, u8), c: Seq<(u8, Option<u8>, Option<u8>)>, k: int) -> Option<u8> {
    if c.len() >= 2 {
        if k == 1 { c[c.len() - 2].1 } else { c[c.len() - 2].2 }
    } else {
        Some(if k == 1 { start.1 } else { start.2 })
    }
}

/// The colours after a new one is added: a missing green, or else a missing
/// blue, of the last colour is filled in first.
pub open spec fn pushed_colours(start: (u8, u8, u8), c: Seq<(u8, Option<u8>, Option<u8>)>, f: (u8, Option<u8>, Option<u8>)) -> Seq<(u8, Option<u8>, Option<u8>)> {
    if c.len() > 0 && c.last().1 is None {
        c.update(c.len() - 1, (c.last().0, previous_colour(start, c, 1), c.last().2)).push(f)
    } else if c.len() > 0 && c.last().2 is None {
        c.update(c.len() - 1, (c.last().0, c.last().1, previous_colour(start, c, 2))).push(f)
    } else {
        c.push(f)
    }
}

/// The error of setting the colour at an index, before the index is checked.
pub open spec fn colour_set_error(len: nat, index: usize, f: (u8, Option<u8>, Option<u8>)) -> Option<InvalidColourFieldOption> {
    let is_last = index == (len as usize).wrapping_sub(1);
    if !is_last && f.1 is None {
        Some(InvalidColourFieldOption::Green)
    } else if (!is_last && f.2 is None) || (f.1 is None && f.2 is Some) {
        Some(InvalidColourFieldOption::Blue)
    } else {
        None
    }
}

impl Colours {
    /// Continuing colours, where only the last may lack its green or blue,
    /// and a blue needs a green.
    pub fn new(start: (u8, u8, u8), continuing: Vec<(u8, Option<u8>, Option<u8>)>) -> (r: Result<Colours, InvalidColourFieldOption>)
        ensures
            match colours_error_from(continuing@, 0) {
                None => r matches Ok(c) && c@ == (ColoursView { start, continuing: continuing@ }),
                Some(e) => r == Err::<Colours, InvalidColourFieldOption>(e),
            },
    {
        let n = continuing.len();
        let mut i: usize = 0;
        while i < n
            invariant
                i <= n,
                n == continuing@.len(),
                colours_error_from(continuing@, 0) == colours_error_from(continuing@, i as int),
            decreases n - i,
        {
            let (_, g, b) = continuing[i];
            if i != n - 1 && g.is_none() {
                return Err(InvalidColourFieldOption::Green);
            } else if i != n - 1 && b.is_none() {
                return Err(InvalidColourFieldOption::Blue);
            } else if g.is_none() && b.is_some() {
                return Err(InvalidColourFieldOption::Blue);
            }
            i = i + 1;
        }
        Ok(Colours { start, continuing })
    }

    /// The first colour.
    pub fn start_rgb(&self) -> (r: &(u8, u8, u8))
        ensures
            *r == self.start,
    {
        &self.start
    }

    /// Sets the first colour.
    pub fn set_start_rgb(&mut self, start: (u8, u8, u8))
        ensures
            final(self)@ == (ColoursView { start, ..old(self)@ }),
    {
        self.start = start;
    }

    /// The colours that follow the first.
    pub fn continuing_fields(&self) -> (r: &[(u8, Option<u8>, Option<u8>)])
        ensures
            r@ == self.continuing@,
    {
        self.continuing.as_slice()
    }

    /// Adds a colour; a missing green, or else blue, of the last colour is
    /// filled in with the one before it first.
    pub fn push_continuing_rgbs(&mut self, continuing_fields: (u8, Option<u8>, Option<u8>))
        ensures
            final(self)@ == (ColoursView {
                continuing: pushed_colours(old(self).start, old(self).continuing@, continuing_fields),
                ..old(self)@
            }),
    {
        let n = self.continuing.len();
        if n > 0 {
            let (r, g, b) = self.continuing[n - 1];
            if g.is_none() {
                let prev = if n >= 2 {
                    self.continuing[n - 2].1
                } else {
                    Some(self.start.1)
                };
                self.continuing.set(n - 1, (r, prev, b));
            } else if b.is_none() {
                let prev = if n >= 2 {
                    self.continuing[n - 2].2
                } else {
                    Some(self.start.2)
                };
                self.continuing.set(n - 1, (r, g, prev));
            }
        }
        self.continuing.push(continuing_fields);
    }

    /// Replaces the colour at an index; only the last may lack its green or
    /// blue, and a blue needs a green.
    pub fn set_continuing_rgbs(&mut self, index: usize, fields: (u8, Option<u8>, Option<u8>)) -> (r: Result<(), ContinuingRGBSetError>)
        ensures
            match colour_set_error(old(self).continuing@.len(), index, fields) {
                Some(e) => r == Err::<(), ContinuingRGBSetError>(ContinuingRGBSetError::InvalidFieldOption(e))
                    && final(self)@ == old(self)@,
                None => if index < old(self).continuing@.len() {
                    r is Ok && final(self)@ == (ColoursView {
                        continuing: old(self).continuing@.update(index as int, fields),
                        ..old(self)@
                    })
                } else {
                    r == Err::<(), ContinuingRGBSetError>(ContinuingRGBSetError::IndexOutOfBounds) && final(self)@ == old(self)@
                },
            },
    {
        let is_last = index == self.continuing.len().wrapping_sub(1);
        if !is_last && fields.1.is_none() {
            Err(ContinuingRGBSetError::InvalidFieldOption(InvalidColourFieldOption::Green))
        } else if (!is_last && fields.2.is_none()) || (fields.1.is_none() && fields.2.is_some()) {
            Err(ContinuingRGBSetError::InvalidFieldOption(InvalidColourFieldOption::Blue))
        } else if index < self.continuing.len() {
            self.continuing.set(index, fields);
            Ok(())
        } else {
            Err(ContinuingRGBSetError::IndexOutOfBounds)
        }
    }
}

} // verus!
