use osu_file_parser::decimal::Decimal;
use osu_file_parser::events::audio_sample::AudioSample;
use osu_file_parser::events::normal_event::Break;
use osu_file_parser::events::storyboard::cmds::{
    Colours as CommandColours, Command, CommandProperties, ContinuingFields,
};
use osu_file_parser::events::storyboard::sprites::Object;
use osu_file_parser::events::storyboard::types::{
    Addition, Easing, Parameter, ParseTriggerTypeError, SampleSet, TriggerType,
};
use osu_file_parser::events::{Event, Events};
use osu_file_parser::osb::Osb;
use osu_file_parser::hitobjects::HitObject;
use osu_file_parser::osu_file::OsuFile;
use osu_file_parser::{VersionedFromStr, VersionedToString};

fn chars(s: &str) -> Vec<char> {
    s.chars().collect()
}

fn read_back(c: &Command) -> Command {
    let text = c.to_string(14).unwrap();
    Command::parse_chars(&chars(&text)).unwrap()
}

#[test]
fn move_command_with_open_last_pair_reads_back() {
    let f = ContinuingFields::new(
        (Decimal::new(320, 0), Decimal::new(240, 0)),
        vec![(Decimal::new(400, 0), Some(Decimal::new(300, 0))), (Decimal::new(15, 1), None)],
    )
    .unwrap();
    let c = Command {
        start_time: 100,
        properties: CommandProperties::Move { easing: Easing::QuadIn, end_time: Some(200), positions_xy: f },
    };
    assert_eq!(c.to_string(14).unwrap(), "M,3,100,200,320,240,400,300,1.5");
    assert_eq!(read_back(&c), c);
}

#[test]
fn colour_command_with_open_last_triple_reads_back() {
    let colours = CommandColours::new((255, 128, 0), vec![(1, Some(2), Some(3)), (4, Some(5), None)]).unwrap();
    let c = Command {
        start_time: -50,
        properties: CommandProperties::Colour { easing: Easing::Linear, end_time: None, colours },
    };
    assert_eq!(c.to_string(14).unwrap(), "C,0,-50,,255,128,0,1,2,3,4,5");
    assert_eq!(read_back(&c), c);
}

#[test]
fn parameter_and_fade_commands_read_back() {
    let p = Command {
        start_time: 0,
        properties: CommandProperties::Parameter {
            easing: Easing::Other(99),
            end_time: Some(10),
            parameter: Parameter::ImageFlipVertical,
            continuing_parameters: vec![Parameter::UseAdditiveColourBlending],
        },
    };
    assert_eq!(p.to_string(14).unwrap(), "P,99,0,10,V,A");
    assert_eq!(read_back(&p), p);
    let f = Command {
        start_time: 7,
        properties: CommandProperties::Fade {
            easing: Easing::BounceInOut,
            end_time: None,
            start_opacity: Decimal::new(25, 2),
            continuing_opacities: vec![Decimal::new(1, 0), Decimal::new(0, 0)],
        },
    };
    assert_eq!(f.to_string(14).unwrap(), "F,34,7,,0.25,1,0");
    assert_eq!(read_back(&f), f);
}

#[test]
fn trigger_without_end_time_keeps_its_group() {
    let c = Command {
        start_time: 0,
        properties: CommandProperties::Trigger {
            trigger_type: TriggerType::Passing,
            end_time: None,
            group_number: Some(2),
            commands: vec![],
        },
    };
    assert_eq!(c.to_string(14).unwrap(), "T,Passing,0,,2");
    assert_eq!(read_back(&c), c);
    let c = Command {
        start_time: 5,
        properties: CommandProperties::Trigger {
            trigger_type: TriggerType::Failing,
            end_time: Some(9),
            group_number: None,
            commands: vec![],
        },
    };
    assert_eq!(c.to_string(14).unwrap(), "T,Failing,5,9");
    assert_eq!(read_back(&c), c);
}

#[test]
fn events_with_object_commands_read_back() {
    let mut o = Object::from_str("Sprite,Foreground,Centre,\"sb/star.png\",320,240", 14)
        .unwrap()
        .unwrap();
    o.try_push_cmd(Command::parse_chars(&chars("F,0,0,500,0,1")).unwrap(), 1).unwrap();
    o.try_push_cmd(Command::parse_chars(&chars("S,1,0,500,0.5,1")).unwrap(), 1).unwrap();
    let events = Events(vec![
        Event::Comment("Storyboard Layer 3 (Foreground)".to_string()),
        Event::StoryboardObject(o),
        Event::Break(Break::from_str("2,1000,2000", 14).unwrap().unwrap()),
        Event::AudioSample(AudioSample::from_str("Sample,100,0,\"hit.wav\",80", 14).unwrap().unwrap()),
    ]);
    let text = events.to_string(14).unwrap();
    assert_eq!(
        text,
        "//Storyboard Layer 3 (Foreground)\nSprite,Foreground,Centre,\"sb/star.png\",320,240\n F,0,0,500,0,1\n S,1,0,500,0.5,1\n2,1000,2000\nSample,100,0,\"hit.wav\",80"
    );
    assert_eq!(Events::from_str(&text, 14).unwrap().unwrap(), events);
}

#[test]
fn file_with_storyboard_events_reads_back() {
    let text = "osu file format v14\n\n[General]\nAudioFilename: a.mp3\n\n[Events]\n//Storyboard Layer 0 (Background)\nSprite,Background,TopLeft,\"bg.png\",0,0\n M,0,0,1000,0,0,10,10\n L,0,2\n  R,0,0,1000,0,3.14\n\n[HitObjects]\n256,192,1000,1,0,0:0:0:0:\n";
    let f = OsuFile::from_str(text).unwrap();
    let written = f.to_string();
    let again = OsuFile::from_str(&written).unwrap();
    assert_eq!(again, f);
}

#[test]
fn storyboard_file_with_nested_commands_reads_back() {
    let text = "[Variables]\n$x=100\n\n[Events]\nSprite,Foreground,Centre,\"a.png\",0,0\n L,0,2\n  F,0,0,100,0,1\n T,Passing,0,1000\n  S,0,0,10,1\n\n";
    let o = Osb::from_str(text, 14).unwrap().unwrap();
    assert_eq!(o.spacing.variables, 1);
    assert_eq!(o.spacing.events, 2);
    let written = o.to_string(14).unwrap();
    assert_eq!(written, text);
    assert_eq!(Osb::from_str(&written, 14).unwrap().unwrap(), o);
}

#[test]
fn storyboard_file_without_variables_reads_back() {
    let text = "[Events]\nSample,0,1,\"drum.wav\",60";
    let o = Osb::from_str(text, 14).unwrap().unwrap();
    assert!(o.variables.is_none());
    assert_eq!(o.spacing.events, 0);
    let written = o.to_string(14).unwrap();
    assert_eq!(written, text);
    assert_eq!(Osb::from_str(&written, 14).unwrap().unwrap(), o);
}

#[test]
fn hitsound_trigger_types_read_back() {
    let t = TriggerType::HitSound {
        sample_set: Some(SampleSet::Soft),
        additions_sample_set: Some(SampleSet::Drum),
        addition: Some(Addition::Whistle),
        custom_sample_set: Some(3),
    };
    assert_eq!(t.to_string(14).unwrap(), "HitSoundSoftDrumWhistle3");
    assert_eq!(TriggerType::from_str("HitSoundSoftDrumWhistle3", 14).unwrap().unwrap(), t);
    let t = TriggerType::HitSound {
        sample_set: None,
        additions_sample_set: None,
        addition: Some(Addition::Clap),
        custom_sample_set: None,
    };
    assert_eq!(TriggerType::from_str(&t.to_string(14).unwrap(), 14).unwrap().unwrap(), t);
}

#[test]
fn additions_sample_set_alone_reads_as_sample_set() {
    let t = TriggerType::HitSound {
        sample_set: None,
        additions_sample_set: Some(SampleSet::Drum),
        addition: None,
        custom_sample_set: None,
    };
    let read = TriggerType::from_str(&t.to_string(14).unwrap(), 14).unwrap().unwrap();
    assert_eq!(
        read,
        TriggerType::HitSound {
            sample_set: Some(SampleSet::Drum),
            additions_sample_set: None,
            addition: None,
            custom_sample_set: None,
        }
    );
}

fn hitobject_reads_back(line: &str, version: usize) {
    let h = HitObject::from_str(line, version).unwrap().unwrap();
    let written = h.to_string(version).unwrap();
    assert_eq!(written, line);
    assert_eq!(HitObject::from_str(&written, version).unwrap().unwrap(), h);
}

#[test]
fn older_version_hitobjects_read_back() {
    hitobject_reads_back("256,192,1000,1,0,1:2:3", 11);
    hitobject_reads_back("256,192,1000,8,0,3000,2:0:0", 10);
    hitobject_reads_back("256,192,1000,5,2", 8);
    hitobject_reads_back("64,192,1000,128,0,1500:", 7);
    hitobject_reads_back("100,100,1000,2,0,B|200:200,1,140", 9);
}

#[test]
fn pushed_pairs_stay_complete_but_the_last() {
    let mut f = ContinuingFields::new((1, 2), vec![(3, Some(4)), (5, None)]).unwrap();
    f.push_continuing_fields((6, None));
    assert_eq!(f.continuing_fields(), &[(3, Some(4)), (5, Some(4)), (6, None)]);
    assert!(ContinuingFields::new(*f.start_values(), f.continuing_fields().to_vec()).is_ok());
}

#[test]
fn pushed_colour_after_a_missing_green_keeps_its_missing_blue() {
    let mut c = CommandColours::new((1, 2, 3), vec![(4, Some(5), Some(6)), (7, None, None)]).unwrap();
    c.push_continuing_rgbs((8, Some(8), Some(8)));
    assert_eq!(c.continuing_fields()[1], (7, Some(5), None));
    assert!(CommandColours::new(*c.start_rgb(), c.continuing_fields().to_vec()).is_err());
}

#[test]
fn non_ascii_capitals_start_hitsound_fields() {
    assert_eq!(
        TriggerType::from_str("HitSoundSoftSoftWhistle1\u{c4}", 14),
        Err(ParseTriggerTypeError::TooManyHitSoundFields)
    );
    assert_eq!(
        TriggerType::from_str("HitSoundSoftSoftWhistle1\u{e4}", 14),
        Err(ParseTriggerTypeError::UnknownHitSoundType)
    );
}
