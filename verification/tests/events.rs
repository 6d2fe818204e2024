use osu_file_parser::decimal::Decimal;
use osu_file_parser::events::audio_sample::{
    AudioSample, Layer as SampleLayer, ParseAudioSampleError, Volume as SampleVolume,
    VolumeSetError as SampleVolumeSetError,
};
use osu_file_parser::events::normal_event::{
    Background, Break, ColourTransformation, LayerLegacy, OriginTypeLegacy, ParseBreakError,
    Video,
};
use osu_file_parser::events::storyboard::cmds::{
    Colours as CommandColours, Command, CommandProperties, CommandPushError, ContinuingFields,
    ContinuingRGBSetError, ContinuingSetError, InvalidColourFieldOption, InvalidSecondFieldOption,
    ParseCommandError,
};
use osu_file_parser::events::storyboard::sprites::{
    frame_names, frame_names_of, FilePath, Layer, LoopType, Object, ObjectType, Origin, OriginType,
    ParseObjectError,
};
use osu_file_parser::events::storyboard::types::{Easing, Parameter, TriggerType};
use osu_file_parser::events::{Event, Events, ParseError};
use osu_file_parser::osb::{Osb, Variable};
use osu_file_parser::{Position, VersionedFromStr, VersionedToString};

fn chars(s: &str) -> Vec<char> {
    s.chars().collect()
}

fn command(s: &str) -> Result<Command, ParseCommandError> {
    Command::parse_chars(&chars(s))
}

#[test]
fn background_round_trip() {
    let b = Background::from_str("0,0,\"bg.jpg\",0,0", 14).unwrap().unwrap();
    assert_eq!(b.start_time, 0);
    assert_eq!(b.file_name, FilePath("\"bg.jpg\"".to_string()));
    assert_eq!(b.position, Some(Position { x: 0, y: 0 }));
    assert_eq!(b.to_string(14).unwrap(), "0,0,\"bg.jpg\",0,0");
}

#[test]
fn background_without_position() {
    let b = Background::from_str("0,0,bg.jpg", 14).unwrap().unwrap();
    assert_eq!(b.position, None);
    assert_eq!(b.to_string(14).unwrap(), "0,0,bg.jpg");
}

#[test]
fn video_round_trip() {
    let v = Video::from_str("Video,500,\"video.avi\"", 14).unwrap().unwrap();
    assert_eq!(v.start_time, 500);
    assert_eq!(v.to_string(14).unwrap(), "Video,500,\"video.avi\"");
    let v = Video::from_str("1,500,\"video.avi\",10,20", 14).unwrap().unwrap();
    assert_eq!(v.to_string(14).unwrap(), "1,500,\"video.avi\",10,20");
}

#[test]
fn video_new_writes_short_header() {
    let v = Video::new(10, FilePath("a.avi".to_string()), None);
    assert_eq!(v.to_string(14).unwrap(), "1,10,a.avi");
}

#[test]
fn break_round_trip() {
    let b = Break::from_str("2,100,200", 14).unwrap().unwrap();
    assert_eq!((b.start_time, b.end_time), (100, 200));
    assert_eq!(b.to_string(14).unwrap(), "2,100,200");
    let b = Break::from_str("Break,100,200", 14).unwrap().unwrap();
    assert_eq!(b.to_string(14).unwrap(), "Break,100,200");
}

#[test]
fn break_errors() {
    assert_eq!(Break::from_str("2,100", 14), Err(ParseBreakError::MissingEndTime));
    assert_eq!(Break::from_str("2,x,200", 14), Err(ParseBreakError::InvalidStartTime));
}

#[test]
fn colour_transformation_only_before_version_14() {
    let c = ColourTransformation::from_str("3,100,255,0,128", 13).unwrap().unwrap();
    assert_eq!((c.red, c.green, c.blue), (255, 0, 128));
    assert_eq!(c.to_string(13).unwrap(), "3,100,255,0,128");
    assert_eq!(c.to_string(14), None);
}

#[test]
fn legacy_enums() {
    assert_eq!(LayerLegacy::from_repr(2).unwrap().to_usize(), 2);
    assert!(LayerLegacy::from_repr(9).is_err());
    assert_eq!(OriginTypeLegacy::from_repr(0).unwrap().to_usize(), 0);
    assert!(OriginTypeLegacy::from_repr(99).is_err());
}

#[test]
fn audio_sample_round_trip() {
    let a = AudioSample::from_str("Sample,100,0,\"hit.wav\",80", 14)
        .unwrap()
        .unwrap();
    assert_eq!(a.to_string(14).unwrap(), "Sample,100,0,\"hit.wav\",80");
}

#[test]
fn audio_sample_without_volume_writes_full_volume() {
    let a = AudioSample::from_str("Sample,100,1,hit.wav", 14).unwrap().unwrap();
    assert_eq!(a.to_string(14).unwrap(), "Sample,100,1,hit.wav,100");
}

#[test]
fn audio_sample_errors() {
    assert_eq!(
        AudioSample::from_str("Foo,100,1,hit.wav", 14),
        Err(ParseAudioSampleError::WrongEvent)
    );
    assert_eq!(
        AudioSample::from_str("Sample,100,7,hit.wav", 14),
        Err(ParseAudioSampleError::InvalidLayer)
    );
    assert_eq!(
        AudioSample::from_str("Sample,100,1", 14),
        Err(ParseAudioSampleError::MissingFilepath)
    );
}

#[test]
fn audio_sample_volume_and_layer() {
    assert_eq!(SampleVolume::new(101), Err(SampleVolumeSetError::VolumeTooHigh));
    let mut v = SampleVolume::new(30).unwrap();
    assert_eq!(v.get(), 30);
    assert_eq!(v.set(200), Err(SampleVolumeSetError::VolumeTooHigh));
    assert_eq!(v.get(), 30);
    assert_eq!(SampleLayer::from_repr(3).unwrap().to_usize(), 3);
    assert_eq!(SampleLayer::from_repr(4), None);
}

#[test]
fn fade_command_round_trip() {
    let c = command("F,0,1000,2000,0,1").unwrap();
    assert_eq!(c.start_time, 1000);
    match &c.properties {
        CommandProperties::Fade { easing, end_time, start_opacity, continuing_opacities } => {
            assert_eq!(*easing, Easing::Linear);
            assert_eq!(*end_time, Some(2000));
            assert_eq!(*start_opacity, Decimal::new(0, 0));
            assert_eq!(continuing_opacities.len(), 1);
        }
        _ => panic!("not a fade"),
    }
    assert_eq!(c.to_string(14).unwrap(), "F,0,1000,2000,0,1");
}

#[test]
fn command_with_empty_end_time() {
    let c = command("S,1,500,,0.5").unwrap();
    assert_eq!(c.to_string(14).unwrap(), "S,1,500,,0.5");
}

#[test]
fn other_commands_round_trip() {
    for line in [
        "M,0,0,100,320,240,400,300",
        "MX,0,0,100,320,400",
        "MY,2,0,100,240",
        "V,0,0,100,1,1,2,2",
        "R,0,0,100,0,3.14",
        "C,0,0,100,255,255,255,0,0,0",
        "P,0,0,100,H",
        "L,1000,4",
        "T,HitSoundClap,0,1000",
        "T,Passing,0,1000,2",
    ] {
        assert_eq!(command(line).unwrap().to_string(14).unwrap(), line);
    }
}

#[test]
fn command_errors() {
    assert_eq!(command("X,0,0,0"), Err(ParseCommandError::UnknownCommandType));
    assert_eq!(command("F"), Err(ParseCommandError::MissingEasing));
    assert_eq!(command("F,x,0,0,1"), Err(ParseCommandError::InvalidEasing));
    assert_eq!(command("F,0"), Err(ParseCommandError::MissingStartTime));
    assert_eq!(command("F,0,1"), Err(ParseCommandError::MissingEndTime));
    assert_eq!(command("F,0,1,2"), Err(ParseCommandError::MissingStartOpacity));
    assert_eq!(command("L"), Err(ParseCommandError::MissingStartTime));
    assert_eq!(command("L,0"), Err(ParseCommandError::MissingLoopCount));
    assert_eq!(command("C,0,0,1,255"), Err(ParseCommandError::MissingGreen));
    assert_eq!(command("P,0,0,1,Z"), Err(ParseCommandError::InvalidParameterType));
}

#[test]
fn easing_numbers() {
    assert_eq!(Easing::from_usize(0), Easing::Linear);
    assert_eq!(Easing::from_usize(34).to_usize(), 34);
    assert_eq!(Easing::from_usize(99), Easing::Other(99));
    assert_eq!(Easing::from_usize(99).to_usize(), 99);
}

#[test]
fn parameter_letters() {
    assert_eq!(Parameter::from_str("H", 14).unwrap().unwrap().to_char(), 'H');
    assert_eq!(Parameter::from_str("V", 14).unwrap().unwrap().to_char(), 'V');
    assert_eq!(Parameter::from_str("A", 14).unwrap().unwrap().to_char(), 'A');
    assert!(Parameter::from_str("Q", 14).is_err());
}

#[test]
fn trigger_types() {
    let t = TriggerType::from_str("HitSoundSoftWhistle", 14).unwrap().unwrap();
    assert_eq!(t.to_string(14).unwrap(), "HitSoundSoftWhistle");
    let t = TriggerType::from_str("Failing", 14).unwrap().unwrap();
    assert_eq!(t, TriggerType::Failing);
    assert!(TriggerType::from_str("Nope", 14).is_err());
}

#[test]
fn sprite_object_round_trip() {
    let o = Object::from_str("Sprite,Background,Centre,\"sb/bg.png\",320,240", 14)
        .unwrap()
        .unwrap();
    assert_eq!(o.layer, Layer::Background);
    assert_eq!(o.position, Position { x: 320, y: 240 });
    assert!(matches!(o.object_type, ObjectType::Sprite(_)));
    assert_eq!(
        o.to_string(14).unwrap(),
        "Sprite,Background,Centre,\"sb/bg.png\",320,240"
    );
}

#[test]
fn animation_object_round_trip() {
    let line = "Animation,Foreground,TopLeft,\"sb/a.png\",0,0,4,100,LoopOnce";
    let o = Object::from_str(line, 14).unwrap().unwrap();
    assert_eq!(o.to_string(14).unwrap(), line);
}

#[test]
fn object_errors() {
    assert_eq!(
        Object::from_str("Thing,Background", 14),
        Err(ParseObjectError::UnknownObjectType)
    );
    assert_eq!(
        Object::from_str("Sprite,Nowhere,Centre,a.png,0,0", 14),
        Err(ParseObjectError::InvalidLayer)
    );
    assert_eq!(
        Object::from_str("Sprite,Background,Centre,a.png,0", 14),
        Err(ParseObjectError::MissingPositionY)
    );
}

#[test]
fn object_commands_nest_by_indentation() {
    let mut o = Object::from_str("Sprite,Background,Centre,a.png,0,0", 14)
        .unwrap()
        .unwrap();
    o.try_push_cmd(command("L,0,4").unwrap(), 1).unwrap();
    o.try_push_cmd(command("F,0,0,100,0,1").unwrap(), 2).unwrap();
    o.try_push_cmd(command("R,0,0,100,0,1").unwrap(), 1).unwrap();
    assert_eq!(
        o.try_push_cmd(command("F,0,0,100,0,1").unwrap(), 3),
        Err(CommandPushError::InvalidIndentation(1, 3))
    );
    assert_eq!(
        o.to_string(14).unwrap(),
        "Sprite,Background,Centre,a.png,0,0\n L,0,4\n  F,0,0,100,0,1\n R,0,0,100,0,1"
    );
}

#[test]
fn origin_and_layer_names() {
    let o = Origin::from_str("BottomRight", 14).unwrap().unwrap();
    assert_eq!(o.to_string(14).unwrap(), "BottomRight");
    let o = Origin::from_type(OriginType::Centre);
    assert_eq!(o.to_string(14).unwrap(), "1");
    assert_eq!(Layer::from_str("Pass", 14).unwrap().unwrap(), Layer::Pass);
    assert_eq!(LoopType::default(), LoopType::LoopForever);
}

#[test]
fn animation_frame_names() {
    let names = frame_names("sb/a", ".png", 3);
    assert_eq!(names, vec!["sb/a0.png", "sb/a1.png", "sb/a2.png"]);
}

#[test]
fn animation_frame_names_from_file_name() {
    assert_eq!(frame_names_of("star.png", Some("png"), 2), vec!["star0.png", "star1.png"]);
    assert_eq!(frame_names_of("star", None, 2), vec!["star0", "star1"]);
    assert_eq!(frame_names_of("star.jpg", Some("png"), 1), vec!["star.jpg0.png"]);
}

#[test]
fn continuing_fields_rules() {
    assert_eq!(
        ContinuingFields::new((1, 2), vec![(3, None), (4, Some(5))]),
        Err(InvalidSecondFieldOption)
    );
    let mut f = ContinuingFields::new((1, 2), vec![(3, Some(4)), (5, None)]).unwrap();
    assert_eq!(*f.start_values(), (1, 2));
    assert_eq!(f.set_continuing_fields(0, (6, None)), Err(ContinuingSetError::InvalidSecondFieldOption));
    assert_eq!(f.set_continuing_fields(1, (7, None)), Ok(()));
    assert_eq!(f.continuing_fields(), &[(3, Some(4)), (7, None)]);
    assert_eq!(
        f.set_continuing_fields(5, (7, Some(1))),
        Err(ContinuingSetError::IndexOutOfBounds)
    );
    f.push_continuing_fields((8, Some(9)));
    assert_eq!(f.continuing_fields().len(), 3);
}

#[test]
fn command_colours_rules() {
    assert_eq!(
        CommandColours::new((1, 2, 3), vec![(4, None, Some(6))]),
        Err(InvalidColourFieldOption::Blue)
    );
    let mut c = CommandColours::new((1, 2, 3), vec![(4, Some(5), Some(6)), (7, None, None)]).unwrap();
    assert_eq!(*c.start_rgb(), (1, 2, 3));
    assert_eq!(
        c.set_continuing_rgbs(9, (1, Some(1), Some(1))),
        Err(ContinuingRGBSetError::IndexOutOfBounds)
    );
    assert_eq!(c.set_continuing_rgbs(1, (8, Some(8), None)), Ok(()));
    assert_eq!(c.continuing_fields()[1], (8, Some(8), None));
}

#[test]
fn events_section_round_trip() {
    let text = "//Background and Video events\n0,0,\"bg.jpg\",0,0\nVideo,500,\"video.avi\"\n//Break Periods\n2,100,200\n//Storyboard Layer 0 (Background)\nSprite,Background,Centre,\"sb/bg.png\",320,240\n F,0,1000,2000,0,1\n L,0,4\n  MX,0,0,100,320,400\n//Storyboard Sound Samples\nSample,100,0,\"hit.wav\",80";
    let evs = Events::from_str(text, 14).unwrap().unwrap();
    assert_eq!(evs.0.len(), 9);
    assert!(matches!(evs.0[0], Event::Comment(_)));
    assert!(matches!(evs.0[6], Event::StoryboardObject(_)));
    assert_eq!(evs.to_string(14).unwrap(), text);
}

#[test]
fn events_errors() {
    let e = Events::from_str(" F,0,0,100,0,1", 14).unwrap_err();
    assert_eq!(*e.error(), ParseError::StoryboardCmdWithNoSprite);
    assert_eq!(e.line_index(), 0);
    let e = Events::from_str("//c\nFoo,1,2", 14).unwrap_err();
    assert_eq!(*e.error(), ParseError::UnknownEventType);
    assert_eq!(e.line_index(), 1);
}

#[test]
fn events_with_variables() {
    let vars = vec![Variable { name: "c".to_string(), value: "0,0,100".to_string() }];
    let evs = Events::from_str_variables("Sprite,Foreground,Centre,a.png,1,2\n F,$c,0,1", 14, &vars)
        .unwrap()
        .unwrap();
    assert_eq!(evs.to_string(14).unwrap(), "Sprite,Foreground,Centre,a.png,1,2\n F,0,0,100,0,1");
}

#[test]
fn variables_are_not_used_in_event_lines() {
    let vars = vec![Variable { name: "s".to_string(), value: "Sprite".to_string() }];
    let e = Events::from_str_variables("$s,Foreground,Centre,a.png,1,2", 14, &vars).unwrap_err();
    assert_eq!(*e.error(), ParseError::UnknownEventType);
}

#[test]
fn variable_lines() {
    let v = Variable::parse_chars(&chars("$x=Value")).unwrap();
    assert_eq!(v.name, "x");
    assert_eq!(v.value, "Value");
    assert_eq!(v.to_string(14).unwrap(), "$x=Value");
}

#[test]
fn osb_file_round_trip() {
    let text = "[Variables]\n$c=0,0,100\n\n[Events]\nSprite,Foreground,Centre,\"x.png\",0,0\n F,$c,0,1\n";
    let o = Osb::from_str(text, 14).unwrap().unwrap();
    assert_eq!(o.variables.as_ref().unwrap().len(), 1);
    assert_eq!(
        o.to_string(14).unwrap(),
        "[Variables]\n$c=0,0,100\n\n[Events]\nSprite,Foreground,Centre,\"x.png\",0,0\n F,0,0,100,0,1\n"
    );
}

#[test]
fn osb_only_from_version_14() {
    assert_eq!(Osb::from_str("[Events]\n", 13), Ok(None));
}
