//! The `[Events]` section: backgrounds, videos, breaks and storyboards.
pub mod storyboard;
pub mod normal_event;
pub mod audio_sample;

use vstd::prelude::*;

use crate::events::audio_sample::{
    audio_sample_parse, audio_sample_stuck, audio_sample_text, AudioSample, AudioSampleView,
    ParseAudioSampleError,
};
use crate::events::normal_event::{
    background_parse, background_text, break_parse, break_text, colour_transformation_parse,
    colour_transformation_text, video_parse, video_text, Background, BackgroundView, Break,
    BreakView, ColourTransformation, ParseBackgroundError, ParseBreakError,
    ParseColourTransformationError, ParseVideoError, Video, VideoView,
};
use crate::events::storyboard::cmds::{
    command_parse, command_stuck, indent_len, indent_len_exec, push_indented, Command,
    CommandPushError, CommandView, ParseCommandError,
};
use crate::events::storyboard::sprites::{object_parse, object_text, Object, ObjectView, ParseObjectError};
use crate::helper::present_texts;
use crate::osb::{substitute, substitute_exec, variables_view, Variable, VariableView};
use crate::text::{
    chars_of, is_blank, join, join_chars, lines, lines_of, push_part, slice_to_vec, starts_with,
    starts_with_str, string_from_chars, trim, vv,
};
use crate::types::{opt_text, Error, Version, VersionedFromStr, VersionedToString};

verus! {

/// Error reading the `[Events]` section.
#[derive(Clone, Copy, Debug, Hash, PartialEq, Eq)]
pub enum ParseError {
    /// The line is not in a `key: value` format.
    InvalidColonSet,
    /// The key does not exist.
    InvalidKey,
    /// A storyboard command comes with no sprite, animation, background or
    /// video before it to belong to.
    StoryboardCmdWithNoSprite,
    ParseBackgroundError(ParseBackgroundError),
    ParseVideoError(ParseVideoError),
    ParseBreakError(ParseBreakError),
    ParseColourTransformationError(ParseColourTransformationError),
    CommandPushError(CommandPushError),
    ParseCommandError(ParseCommandError),
    /// A storyboard object failed to read.
    ParseStoryboardObjectError(ParseObjectError),
    ParseAudioSampleError(ParseAudioSampleError),
    /// The event does not exist in the version.
    EventNotExistOnVersion,
    /// The line is no known event.
    UnknownEventType,
}

/// An event.
#[derive(Debug, Hash, PartialEq, Eq)]
pub enum Event {
    /// A comment line (`//` and the text after it).
    Comment(String),
    Background(Background),
    Video(Video),
    Break(Break),
    ColourTransformation(ColourTransformation),
    StoryboardObject(Object),
    AudioSample(AudioSample),
}

/// The view of an event.
pub enum EventView {
    Comment(Seq<char>),
    Background(BackgroundView),
    Video(VideoView),
    Break(BreakView),
    ColourTransformation(ColourTransformation),
    StoryboardObject(ObjectView),
    AudioSample(AudioSampleView),
}

impl View for Event {
    type V = EventView;

    open spec fn view(&self) -> EventView {
        match self {
            Event::Comment(c) => EventView::Comment(c@),
            Event::Background(b) => EventView::Background(b@),
            Event::Video(v) => EventView::Video(v@),
            Event::Break(b) => EventView::Break(b@),
            Event::ColourTransformation(c) => EventView::ColourTransformation(*c),
            Event::StoryboardObject(o) => EventView::StoryboardObject(o@),
            Event::AudioSample(a) => EventView::AudioSample(a@),
        }
    }
}

/// The events of the `[Events]` section, in order.
#[derive(Debug, Hash, PartialEq, Eq)]
pub struct Events(pub Vec<Event>);

/// The views of a list of events.
pub open spec fn events_view(evs: Seq<Event>) -> Seq<EventView> {
    evs.map_values(|e: Event| e@)
}

impl View for Events {
    type V = Seq<EventView>;

    open spec fn view(&self) -> Seq<EventView> {
        events_view(self.0@)
    }
}

/// How a line that is neither a comment nor indented is read, by its start.
pub enum HeaderKind {
    Background,
    Video,
    Break,
    ColourTransformation,
    /// A storyboard object or an audio sample.
    Other,
    /// An event header followed by neither a comma nor the end of the line;
    /// reading panics.
    Stuck,
}

/// Whether the line ends, or has a comma, right after its first `n` characters.
pub open spec fn ends_or_comma_at(l: Seq<char>, n: nat) -> bool {
    l.len() == n || (l.len() > n && l[n as int] == ',')
}

/// `//`.
pub open spec fn comment_start() -> Seq<char> {
    seq!['/', '/']
}

/// How a line that is neither a comment nor indented is read.
pub open spec fn header_kind(l: Seq<char>) -> HeaderKind {
    if starts_with(l, seq!['0']) {
        if ends_or_comma_at(l, 1) { HeaderKind::Background } else { HeaderKind::Stuck }
    } else if starts_with(l, seq!['1']) {
        if ends_or_comma_at(l, 1) { HeaderKind::Video } else { HeaderKind::Stuck }
    } else if starts_with(l, seq!['V', 'i', 'd', 'e', 'o']) {
        if ends_or_comma_at(l, 5) { HeaderKind::Video } else { HeaderKind::Stuck }
    } else if starts_with(l, seq!['2']) {
        if ends_or_comma_at(l, 1) { HeaderKind::Break } else { HeaderKind::Stuck }
    } else if starts_with(l, seq!['B', 'r', 'e', 'a', 'k']) {
        if ends_or_comma_at(l, 5) { HeaderKind::Break } else { HeaderKind::Stuck }
    } else if starts_with(l, seq!['3']) {
        if ends_or_comma_at(l, 1) { HeaderKind::ColourTransformation } else { HeaderKind::Stuck }
    } else {
        HeaderKind::Other
    }
}

/// Whether an event takes storyboard commands.
pub open spec fn takes_commands(e: EventView) -> bool {
    e is Background || e is Video || e is StoryboardObject
}

/// The commands of an event that takes them.
pub open spec fn commands_of(e: EventView) -> Seq<CommandView> {
    match e {
        EventView::Background(b) => b.commands,
        EventView::Video(v) => v.commands,
        EventView::StoryboardObject(o) => o.commands,
        _ => Seq::empty(),
    }
}

/// The event with its commands replaced.
pub open spec fn with_commands(e: EventView, n: Seq<CommandView>) -> EventView {
    match e {
        EventView::Background(b) => EventView::Background(BackgroundView { commands: n, ..b }),
        EventView::Video(v) => EventView::Video(VideoView { commands: n, ..v }),
        EventView::StoryboardObject(o) => EventView::StoryboardObject(ObjectView { commands: n, ..o }),
        _ => e,
    }
}

/// The outcome of a step: the events so far, an error with its line, or
/// `Err(None)` where reading panics.
pub type EventsStep = Result<Seq<EventView>, Option<Error<ParseError>>>;

/// An error found on line `idx`.
pub open spec fn line_err(idx: int, e: ParseError) -> EventsStep {
    Err(Some(Error { line_index: idx as usize, error: e }))
}

/// Reads a storyboard command line and adds it to the last event.
pub open spec fn command_line_step(evs: Seq<EventView>, line: Seq<char>, idx: int, vars: Seq<VariableView>) -> EventsStep {
    if evs.len() == 0 || !takes_commands(evs.last()) {
        line_err(idx, ParseError::StoryboardCmdWithNoSprite)
    } else {
        let l2 = substitute(line, vars);
        if command_stuck(l2) {
            Err(None)
        } else {
            match command_parse(l2) {
                Err(e) => line_err(idx, ParseError::ParseCommandError(e)),
                Ok(c) => match push_indented(commands_of(evs.last()), c, indent_len(line)) {
                    Err(e) => line_err(idx, ParseError::CommandPushError(e)),
                    Ok(n) => Ok(evs.update(evs.len() - 1, with_commands(evs.last(), n))),
                },
            }
        }
    }
}

/// Reads a line that is a storyboard object or an audio sample.
pub open spec fn other_line_step(evs: Seq<EventView>, line: Seq<char>, idx: int) -> EventsStep {
    match object_parse(line) {
        Ok(o) => Ok(evs.push(EventView::StoryboardObject(o))),
        Err(ParseObjectError::UnknownObjectType) => if audio_sample_stuck(line) {
            Err(None)
        } else {
            match audio_sample_parse(line) {
                Ok(a) => Ok(evs.push(EventView::AudioSample(a))),
                Err(ParseAudioSampleError::WrongEvent) => line_err(idx, ParseError::UnknownEventType),
                Err(e) => line_err(idx, ParseError::ParseAudioSampleError(e)),
            }
        },
        Err(e) => line_err(idx, ParseError::ParseStoryboardObjectError(e)),
    }
}

/// Reads one line of the section, line `idx`, given the events so far.
pub open spec fn event_line_step(evs: Seq<EventView>, line: Seq<char>, idx: int, version: Version, vars: Seq<VariableView>) -> EventsStep {
    if trim(line).len() == 0 {
        Ok(evs)
    } else if starts_with(line, comment_start()) {
        Ok(evs.push(EventView::Comment(line.skip(2))))
    } else if indent_len(line) > 0 {
        command_line_step(evs, line, idx, vars)
    } else {
        match header_kind(line) {
            HeaderKind::Stuck => Err(None),
            HeaderKind::Background => match background_parse(line) {
                Ok(b) => Ok(evs.push(EventView::Background(b))),
                Err(e) => line_err(idx, ParseError::ParseBackgroundError(e)),
            },
            HeaderKind::Video => match video_parse(line, version) {
                Ok(v) => Ok(evs.push(EventView::Video(v))),
                Err(e) => line_err(idx, ParseError::ParseVideoError(e)),
            },
            HeaderKind::Break => match break_parse(line, version) {
                Ok(b) => Ok(evs.push(EventView::Break(b))),
                Err(e) => line_err(idx, ParseError::ParseBreakError(e)),
            },
            HeaderKind::ColourTransformation => match colour_transformation_parse(line, version) {
                Ok(c) => Ok(evs.push(EventView::ColourTransformation(c))),
                Err(e) => line_err(idx, ParseError::ParseColourTransformationError(e)),
            },
            HeaderKind::Other => other_line_step(evs, line, idx),
        }
    }
}

/// Reads the lines of the section in order.
pub open spec fn events_fold(ls: Seq<Seq<char>>, version: Version, vars: Seq<VariableView>) -> EventsStep
    decreases ls.len(),
{
    if ls.len() == 0 {
        Ok(Seq::empty())
    } else {
        match events_fold(ls.drop_last(), version, vars) {
            Err(e) => Err(e),
            Ok(evs) => event_line_step(evs, ls.last(), ls.len() - 1, version, vars),
        }
    }
}

/// Whether reading the section panics.
pub open spec fn events_stuck(s: Seq<char>, version: Version, vars: Seq<VariableView>) -> bool {
    events_fold(lines(s), version, vars) == Err::<Seq<EventView>, Option<Error<ParseError>>>(None)
}

/// What reading the section gives, where reading returns.
pub open spec fn events_parse(s: Seq<char>, version: Version, vars: Seq<VariableView>) -> Result<Seq<EventView>, Error<ParseError>> {
    match events_fold(lines(s), version, vars) {
        Ok(evs) => Ok(evs),
        Err(Some(e)) => Err(e),
        Err(None) => Ok(Seq::empty()),
    }
}

proof fn lemma_fold_err_extends(ls: Seq<Seq<char>>, k: int, version: Version, vars: Seq<VariableView>)
    requires
        0 <= k <= ls.len(),
        events_fold(ls.take(k), version, vars) is Err,
    ensures
        events_fold(ls, version, vars) == events_fold(ls.take(k), version, vars),
    decreases ls.len() - k,
{
    if k < ls.len() {
        assert(ls.take(k + 1).drop_last() =~= ls.take(k));
        lemma_fold_err_extends(ls, k + 1, version, vars);
    } else {
        assert(ls.take(k) =~= ls);
    }
}

/// The text of an event; `None` where it is not written in the version.
pub open spec fn event_text(e: EventView, version: Version) -> Option<Seq<char>> {
    match e {
        EventView::Comment(c) => Some(comment_start() + c),
        EventView::Background(b) => Some(background_text(b)),
        EventView::Video(v) => Some(video_text(v, version)),
        EventView::Break(b) => Some(break_text(b, version)),
        EventView::ColourTransformation(c) => colour_transformation_text(c, version),
        EventView::StoryboardObject(o) => Some(object_text(o)),
        EventView::AudioSample(a) => Some(audio_sample_text(a)),
    }
}

/// The text of the section: the texts of the events that are written, one
/// per line.
pub open spec fn events_text(evs: Seq<EventView>, version: Version) -> Seq<char> {
    join(present_texts(evs.map_values(|e: EventView| event_text(e, version))), seq!['\n'])
}


proof fn lemma_event_words()
    ensures
        "0"@ == seq!['0'],
        "1"@ == seq!['1'],
        "2"@ == seq!['2'],
        "3"@ == seq!['3'],
        "Video"@ == seq!['V', 'i', 'd', 'e', 'o'],
        "Break"@ == seq!['B', 'r', 'e', 'a', 'k'],
        "//"@ == comment_start(),
{
    reveal_strlit("0");
    reveal_strlit("1");
    reveal_strlit("2");
    reveal_strlit("3");
    reveal_strlit("Video");
    reveal_strlit("Break");
    reveal_strlit("//");
    assert("0"@ =~= seq!['0']);
    assert("1"@ =~= seq!['1']);
    assert("2"@ =~= seq!['2']);
    assert("3"@ =~= seq!['3']);
    assert("Video"@ =~= seq!['V', 'i', 'd', 'e', 'o']);
    assert("Break"@ =~= seq!['B', 'r', 'e', 'a', 'k']);
    assert("//"@ =~= comment_start());
}

fn ends_or_comma_at_exec(l: &[char], n: usize) -> (r: bool)
    ensures
        r == ends_or_comma_at(l@, n as nat),
{
    l.len() == n || (l.len() > n && l[n] == ',')
}

fn header_kind_exec(l: &[char]) -> (r: HeaderKind)
    ensures
        r == header_kind(l@),
{
    proof {
        lemma_event_words();
    }
    if starts_with_str(l, "0") {
        if ends_or_comma_at_exec(l, 1) { HeaderKind::Background } else { HeaderKind::Stuck }
    } else if starts_with_str(l, "1") {
        if ends_or_comma_at_exec(l, 1) { HeaderKind::Video } else { HeaderKind::Stuck }
    } else if starts_with_str(l, "Video") {
        if ends_or_comma_at_exec(l, 5) { HeaderKind::Video } else { HeaderKind::Stuck }
    } else if starts_with_str(l, "2") {
        if ends_or_comma_at_exec(l, 1) { HeaderKind::Break } else { HeaderKind::Stuck }
    } else if starts_with_str(l, "Break") {
        if ends_or_comma_at_exec(l, 5) { HeaderKind::Break } else { HeaderKind::Stuck }
    } else if starts_with_str(l, "3") {
        if ends_or_comma_at_exec(l, 1) { HeaderKind::ColourTransformation } else { HeaderKind::Stuck }
    } else {
        HeaderKind::Other
    }
}

fn push_event(events: &mut Vec<Event>, e: Event)
    ensures
        events_view(final(events)@) == events_view(old(events)@).push(e@),
{
    let ghost before = events@;
    let ghost ev = e@;
    events.push(e);
    assert(events_view(events@) =~= events_view(before).push(ev));
}

fn command_line_step_exec(events: &mut Vec<Event>, line: &[char], idx: usize, vars: &[Variable]) -> (r: Result<(), Option<Error<ParseError>>>)
    requires
        indent_len(line@) > 0,
    ensures
        match command_line_step(events_view(old(events)@), line@, idx as int, variables_view(vars@)) {
            Ok(n) => r is Ok && events_view(final(events)@) == n,
            Err(x) => r == Err::<(), Option<Error<ParseError>>>(x),
        },
{
    let ghost old_evs = events@;
    if events.len() == 0 {
        return Err(Some(Error::new(ParseError::StoryboardCmdWithNoSprite, idx)));
    }
    let takes = match &events[events.len() - 1] {
        Event::Background(_) => true,
        Event::Video(_) => true,
        Event::StoryboardObject(_) => true,
        _ => false,
    };
    assert(events_view(old_evs).last() == old_evs.last()@);
    if !takes {
        return Err(Some(Error::new(ParseError::StoryboardCmdWithNoSprite, idx)));
    }
    let l2 = substitute_exec(line, vars);
    let cmd = match Command::try_parse_chars(l2.as_slice()) {
        None => return Err(None),
        Some(Ok(c)) => c,
        Some(Err(e)) => return Err(Some(Error::new(ParseError::ParseCommandError(e), idx))),
    };
    let ind = indent_len_exec(line);
    let ev = events.pop().unwrap();
    assert(events@ =~= old_evs.drop_last());
    let ghost evv = ev@;
    match ev {
        Event::Background(mut b) => {
            match b.try_push_cmd(cmd, ind) {
                Ok(()) => {
                    push_event(events, Event::Background(b));
                    assert(events_view(old_evs.drop_last()) =~= events_view(old_evs).drop_last());
                    assert(events_view(events@) =~= events_view(old_evs).update(old_evs.len() - 1, events_view(events@).last()));
                    Ok(())
                },
                Err(e) => Err(Some(Error::new(ParseError::CommandPushError(e), idx))),
            }
        },
        Event::Video(mut v) => {
            match v.try_push_cmd(cmd, ind) {
                Ok(()) => {
                    push_event(events, Event::Video(v));
                    assert(events_view(old_evs.drop_last()) =~= events_view(old_evs).drop_last());
                    assert(events_view(events@) =~= events_view(old_evs).update(old_evs.len() - 1, events_view(events@).last()));
                    Ok(())
                },
                Err(e) => Err(Some(Error::new(ParseError::CommandPushError(e), idx))),
            }
        },
        Event::StoryboardObject(mut o) => {
            match o.try_push_cmd(cmd, ind) {
                Ok(()) => {
                    push_event(events, Event::StoryboardObject(o));
                    assert(events_view(old_evs.drop_last()) =~= events_view(old_evs).drop_last());
                    assert(events_view(events@) =~= events_view(old_evs).update(old_evs.len() - 1, events_view(events@).last()));
                    Ok(())
                },
                Err(e) => Err(Some(Error::new(ParseError::CommandPushError(e), idx))),
            }
        },
        other => {
            assert(false);
            Err(Some(Error::new(ParseError::StoryboardCmdWithNoSprite, idx)))
        },
    }
}

fn other_line_step_exec(events: &mut Vec<Event>, line: &[char], idx: usize) -> (r: Result<(), Option<Error<ParseError>>>)
    ensures
        match other_line_step(events_view(old(events)@), line@, idx as int) {
            Ok(n) => r is Ok && events_view(final(events)@) == n,
            Err(x) => r == Err::<(), Option<Error<ParseError>>>(x),
        },
{
    match Object::parse_chars(line) {
        Ok(o) => {
            push_event(events, Event::StoryboardObject(o));
            Ok(())
        },
        Err(ParseObjectError::UnknownObjectType) => match AudioSample::try_parse_chars(line) {
            None => Err(None),
            Some(Ok(a)) => {
                push_event(events, Event::AudioSample(a));
                Ok(())
            },
            Some(Err(ParseAudioSampleError::WrongEvent)) => Err(Some(Error::new(ParseError::UnknownEventType, idx))),
            Some(Err(e)) => Err(Some(Error::new(ParseError::ParseAudioSampleError(e), idx))),
        },
        Err(e) => Err(Some(Error::new(ParseError::ParseStoryboardObjectError(e), idx))),
    }
}

fn event_line_step_exec(events: &mut Vec<Event>, line: &[char], idx: usize, version: Version, vars: &[Variable]) -> (r: Result<(), Option<Error<ParseError>>>)
    ensures
        match event_line_step(events_view(old(events)@), line@, idx as int, version, variables_view(vars@)) {
            Ok(n) => r is Ok && events_view(final(events)@) == n,
            Err(x) => r == Err::<(), Option<Error<ParseError>>>(x),
        },
{
    proof {
        lemma_event_words();
    }
    if is_blank(line) {
        return Ok(());
    }
    if starts_with_str(line, "//") {
        let c = slice_to_vec(line, 2, line.len());
        assert(c@ =~= line@.skip(2));
        push_event(events, Event::Comment(string_from_chars(&c)));
        return Ok(());
    }
    if indent_len_exec(line) > 0 {
        return command_line_step_exec(events, line, idx, vars);
    }
    match header_kind_exec(line) {
        HeaderKind::Stuck => Err(None),
        HeaderKind::Background => match Background::from_chars(line, version) {
            Ok(Some(b)) => {
                push_event(events, Event::Background(b));
                Ok(())
            },
            Ok(None) => {
                assert(false);
                Ok(())
            },
            Err(e) => Err(Some(Error::new(ParseError::ParseBackgroundError(e), idx))),
        },
        HeaderKind::Video => match Video::from_chars(line, version) {
            Ok(Some(v)) => {
                push_event(events, Event::Video(v));
                Ok(())
            },
            Ok(None) => {
                assert(false);
                Ok(())
            },
            Err(e) => Err(Some(Error::new(ParseError::ParseVideoError(e), idx))),
        },
        HeaderKind::Break => match Break::from_chars(line, version) {
            Ok(Some(b)) => {
                push_event(events, Event::Break(b));
                Ok(())
            },
            Ok(None) => {
                assert(false);
                Ok(())
            },
            Err(e) => Err(Some(Error::new(ParseError::ParseBreakError(e), idx))),
        },
        HeaderKind::ColourTransformation => match ColourTransformation::from_chars(line, version) {
            Ok(Some(c)) => {
                push_event(events, Event::ColourTransformation(c));
                Ok(())
            },
            Ok(None) => {
                assert(false);
                Ok(())
            },
            Err(e) => Err(Some(Error::new(ParseError::ParseColourTransformationError(e), idx))),
        },
        HeaderKind::Other => other_line_step_exec(events, line, idx),
    }
}

impl Events {
    /// Reads the section with the variables of a storyboard file put into its
    /// command lines. The `requires` leaves out the inputs on which reading
    /// panics.
    pub fn from_str_variables(s: &str, version: Version, variables: &[Variable]) -> (r: Result<Option<Events>, Error<ParseError>>)
        requires
            !events_stuck(s@, version, variables_view(variables@)),
        ensures
            match events_parse(s@, version, variables_view(variables@)) {
                Ok(evs) => r matches Ok(Some(e)) && e@ == evs,
                Err(e) => r == Err::<Option<Events>, Error<ParseError>>(e),
            },
    {
        let c = chars_of(s);
        Events::from_str_variables_chars(c.as_slice(), version, variables)
    }

    /// Reads the section from characters, with the variables of a storyboard
    /// file put into its command lines.
    pub fn from_str_variables_chars(s: &[char], version: Version, variables: &[Variable]) -> (r: Result<Option<Events>, Error<ParseError>>)
        requires
            !events_stuck(s@, version, variables_view(variables@)),
        ensures
            match events_parse(s@, version, variables_view(variables@)) {
                Ok(evs) => r matches Ok(Some(e)) && e@ == evs,
                Err(e) => r == Err::<Option<Events>, Error<ParseError>>(e),
            },
    {
        match Events::try_from_str_variables_chars(s, version, variables) {
            Some(x) => x,
            None => Ok(None),
        }
    }

    /// Reads the section from characters, with the variables of a storyboard
    /// file put into its command lines; `None` exactly on the inputs on which
    /// reading panics (see `events_stuck`).
    pub fn try_from_str_variables_chars(s: &[char], version: Version, variables: &[Variable]) -> (r: Option<Result<Option<Events>, Error<ParseError>>>)
        ensures
            r is None <==> events_stuck(s@, version, variables_view(variables@)),
            r matches Some(x) ==> match events_parse(s@, version, variables_view(variables@)) {
                Ok(evs) => x matches Ok(Some(e)) && e@ == evs,
                Err(e) => x == Err::<Option<Events>, Error<ParseError>>(e),
            },
    {
        let ls = lines_of(s);
        let mut events: Vec<Event> = Vec::new();
        let mut i: usize = 0;
        let ghost vs = variables_view(variables@);
        assert(vv(ls@).take(0) =~= Seq::<Seq<char>>::empty());
        assert(events_view(events@) =~= Seq::<EventView>::empty());
        while i < ls.len()
            invariant
                i <= ls.len(),
                vv(ls@) == lines(s@),
                vs == variables_view(variables@),
                events_fold(vv(ls@).take(i as int), version, vs) == Ok::<
                    Seq<EventView>,
                    Option<Error<ParseError>>,
                >(events_view(events@)),
            decreases ls.len() - i,
        {
            assert(vv(ls@).take(i + 1).drop_last() =~= vv(ls@).take(i as int));
            assert(vv(ls@).take(i + 1).last() == ls@[i as int]@);
            proof {
                if event_line_step(events_view(events@), ls@[i as int]@, i as int, version, vs) is Err {
                    lemma_fold_err_extends(vv(ls@), i + 1, version, vs);
                }
            }
            match event_line_step_exec(&mut events, ls[i].as_slice(), i, version, variables) {
                Ok(()) => {},
                Err(Some(e)) => {
                    return Some(Err(e));
                },
                Err(None) => {
                    return None;
                },
            }
            i = i + 1;
        }
        assert(vv(ls@).take(ls@.len() as int) =~= vv(ls@));
        Some(Ok(Some(Events(events))))
    }

    /// Reads the section with the variables of a storyboard file put into
    /// its command lines; `None` exactly on the inputs on which reading panics (see `events_stuck`).
    pub fn try_from_str_variables(s: &str, version: Version, variables: &[Variable]) -> (r: Option<Result<Option<Events>, Error<ParseError>>>)
        ensures
            r is None <==> events_stuck(s@, version, variables_view(variables@)),
            r matches Some(x) ==> match events_parse(s@, version, variables_view(variables@)) {
                Ok(evs) => x matches Ok(Some(e)) && e@ == evs,
                Err(e) => x == Err::<Option<Events>, Error<ParseError>>(e),
            },
    {
        let c = chars_of(s);
        Events::try_from_str_variables_chars(c.as_slice(), version, variables)
    }

    /// Reads the section; `None` exactly on the inputs on which reading panics (see `events_stuck`).
    pub fn try_from_str(s: &str, version: Version) -> (r: Option<Result<Option<Events>, Error<ParseError>>>)
        ensures
            r is None <==> events_stuck(s@, version, Seq::empty()),
            r matches Some(x) ==> match events_parse(s@, version, Seq::empty()) {
                Ok(evs) => x matches Ok(Some(e)) && e@ == evs,
                Err(e) => x == Err::<Option<Events>, Error<ParseError>>(e),
            },
    {
        let c = chars_of(s);
        let vars: Vec<Variable> = Vec::new();
        assert(variables_view(vars@) =~= Seq::<VariableView>::empty());
        Events::try_from_str_variables_chars(c.as_slice(), version, vars.as_slice())
    }

    /// Reads the section; the `requires` leaves out the inputs on which
    /// reading panics.
    pub fn from_str(s: &str, version: Version) -> (r: Result<Option<Events>, Error<ParseError>>)
        requires
            !events_stuck(s@, version, Seq::empty()),
        ensures
            match events_parse(s@, version, Seq::empty()) {
                Ok(evs) => r matches Ok(Some(e)) && e@ == evs,
                Err(e) => r == Err::<Option<Events>, Error<ParseError>>(e),
            },
    {
        let vars: Vec<Variable> = Vec::new();
        assert(variables_view(vars@) =~= Seq::<VariableView>::empty());
        Events::from_str_variables(s, version, vars.as_slice())
    }
}


impl Event {
    /// The text of the event as characters; `None` where it is not written in
    /// the version.
    pub fn event_chars(&self, version: Version) -> (r: Option<Vec<char>>)
        ensures
            match r {
                Some(c) => event_text(self@, version) == Some(c@),
                None => event_text(self@, version) is None,
            },
    {
        match self {
            Event::Comment(c) => {
                let mut out: Vec<char> = Vec::new();
                out.push('/');
                out.push('/');
                crate::text::push_str(&mut out, c.as_str());
                assert(out@ =~= comment_start() + c@);
                Some(out)
            },
            Event::Background(b) => b.to_chars(version),
            Event::Video(v) => v.to_chars(version),
            Event::Break(b) => b.to_chars(version),
            Event::ColourTransformation(c) => c.to_chars(version),
            Event::StoryboardObject(o) => o.to_chars(version),
            Event::AudioSample(a) => a.to_chars(version),
        }
    }

    /// The text of the event; variables are put into command lines when they
    /// are read, so the text holds their values.
    pub fn to_string_variables(&self, version: Version, variables: &[Variable]) -> (r: Option<String>)
        ensures
            opt_text(r) == event_text(self@, version),
    {
        match self.event_chars(version) {
            Some(c) => Some(string_from_chars(&c)),
            None => None,
        }
    }
}

impl VersionedToString for Event {
    open spec fn text_of(v: EventView, version: Version) -> Option<Seq<char>> {
        event_text(v, version)
    }

    fn to_chars(&self, version: Version) -> (r: Option<Vec<char>>) {
        self.event_chars(version)
    }
}

impl Events {
    /// The text of the section as characters.
    pub fn events_chars(&self, version: Version) -> (r: Vec<char>)
        ensures
            r@ == events_text(self@, version),
    {
        let mut kept: Vec<Vec<char>> = Vec::new();
        let mut i: usize = 0;
        let ghost ts = self@.map_values(|e: EventView| event_text(e, version));
        assert(ts.take(0) =~= Seq::<Option<Seq<char>>>::empty());
        while i < self.0.len()
            invariant
                i <= self.0.len(),
                ts == self@.map_values(|e: EventView| event_text(e, version)),
                ts.len() == self.0@.len(),
                vv(kept@) == present_texts(ts.take(i as int)),
            decreases self.0.len() - i,
        {
            assert(ts.take(i + 1).drop_last() =~= ts.take(i as int));
            assert(ts.take(i + 1).last() == event_text(self.0@[i as int]@, version));
            match self.0[i].event_chars(version) {
                Some(c) => {
                    push_part(&mut kept, c);
                },
                None => {},
            }
            i = i + 1;
        }
        assert(ts.take(ts.len() as int) =~= ts);
        proof {
            reveal_strlit("\n");
            assert("\n"@ =~= seq!['\n']);
        }
        join_chars(&kept, "\n")
    }

    /// The text of the section; variables are put into command lines when
    /// they are read, so the text holds their values.
    pub fn to_string_variables(&self, version: Version, variables: &[Variable]) -> (r: Option<String>)
        ensures
            r matches Some(t) && t@ == events_text(self@, version),
    {
        Some(string_from_chars(&self.events_chars(version)))
    }

    /// An empty section.
    pub fn default(version: Version) -> (r: Option<Events>)
        ensures
            r matches Some(e) && e@ == Seq::<EventView>::empty(),
    {
        let e = Events(Vec::new());
        assert(e@ =~= Seq::<EventView>::empty());
        Some(e)
    }
}

impl VersionedToString for Events {
    open spec fn text_of(v: Seq<EventView>, version: Version) -> Option<Seq<char>> {
        Some(events_text(v, version))
    }

    fn to_chars(&self, version: Version) -> (r: Option<Vec<char>>) {
        Some(self.events_chars(version))
    }
}

} // verus!
