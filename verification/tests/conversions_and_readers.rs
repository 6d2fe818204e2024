use std::collections::hash_map::DefaultHasher;
use std::hash::{Hash, Hasher};
use osu_file_parser::events::audio_sample::AudioSample;
use osu_file_parser::events::storyboard::types::TriggerType;
use osu_file_parser::events::Events;
use osu_file_parser::osb::{Osb, Variable};
use osu_file_parser::osu_file::OsuFile;
use osu_file_parser::decimal::Decimal;
use osu_file_parser::events::storyboard::cmds::{Colours, Command, CommandPushError, ContinuingFields};
use osu_file_parser::events::storyboard::sprites::{
    extension_of_name,
    Animation, FilePath, FilePathNotRelative, LoopType, Object, Sprite,
};
use osu_file_parser::hitobjects::types::CurveType;
use osu_file_parser::hitobjects::{HitObject, HitObjectParams};
use osu_file_parser::timingpoints::{Effects, SampleIndex, SampleSet, TimingPoint, Volume};
use osu_file_parser::{VersionedFromStr, VersionedToString};

fn value(d: Decimal) -> rust_decimal::Decimal {
    rust_decimal::Decimal::from_i128_with_scale(d.mantissa(), d.scale())
}

fn chars(s: &str) -> Vec<char> {
    s.chars().collect()
}

#[test]
fn effects_omitted_barline_is_bit_three() {
    let e = Effects::from_u8(8);
    assert!(e.no_first_barline_in_taiko_mania);
    assert!(!e.kiai_time_enabled);
    assert_eq!(e.to_u8(), 8);
}

#[test]
fn timing_point_with_omitted_barline_round_trip() {
    let text = "10000,333.33,4,0,0,100,1,8";
    let t = TimingPoint::from_str(text, 14).unwrap().unwrap();
    assert!(t.effects().no_first_barline_in_taiko_mania);
    assert_eq!(t.to_string(14).unwrap(), text);
}

#[test]
fn version_4_mania_hold_round_trip() {
    let line = "51,192,350,128,2,849:";
    let h = HitObject::from_str(line, 4).unwrap().unwrap();
    assert_eq!(h.time, 374);
    assert_eq!(h.obj_params, HitObjectParams::OsuManiaHold { end_time: 873 });
    assert!(h.to_string(4).unwrap().starts_with("51,192,350,128,2,849:"));
}

#[test]
fn version_3_slider_writes_its_position_first() {
    let line = "31,85,3049,2,0,B|31:85|129:55,1,172.51";
    let h = HitObject::from_str(line, 3).unwrap().unwrap();
    match &h.obj_params {
        HitObjectParams::Slider(p) => assert_eq!(p.curve_points.len(), 1),
        _ => panic!("not a slider"),
    }
    assert_eq!(h.to_string(3).unwrap(), line);
}

#[test]
fn beat_length_to_bpm() {
    let bpm = TimingPoint::beat_duration_ms_to_bpm(Decimal::new(500, 0)).unwrap();
    assert_eq!(value(bpm), rust_decimal::Decimal::from(120));
    assert_eq!(TimingPoint::beat_duration_ms_to_bpm(Decimal::new(0, 0)), None);
}

#[test]
fn bpm_to_beat_length() {
    let ms = TimingPoint::bpm_to_beat_duration_ms(Decimal::new(120, 0)).unwrap();
    assert_eq!(value(ms), rust_decimal::Decimal::from(500));
    assert_eq!(TimingPoint::bpm_to_beat_duration_ms(Decimal::new(0, 0)), None);
}

#[test]
fn calc_bpm_of_uninherited_points() {
    let t = TimingPoint::from_str("0,250,4,1,0,100,1,0", 14).unwrap().unwrap();
    assert_eq!(value(t.calc_bpm().unwrap()), rust_decimal::Decimal::from(240));
    assert_eq!(t.slider_velocity_multiplier(), None);
}

#[test]
fn slider_velocity_of_inherited_points() {
    let t = TimingPoint::from_str("0,-50,4,1,0,100,0,0", 14).unwrap().unwrap();
    assert_eq!(value(t.slider_velocity_multiplier().unwrap()), rust_decimal::Decimal::from(2));
    assert_eq!(t.calc_bpm(), None);
}

#[test]
fn new_inherited_sets_beat_length() {
    let t = TimingPoint::new_inherited(
        100,
        Decimal::new(2, 0),
        4,
        SampleSet::Normal,
        SampleIndex::OsuDefaultHitsounds,
        Volume::new(100).unwrap(),
        Effects::from_u8(0),
    )
    .unwrap();
    assert_eq!(value(t.beat_length()), rust_decimal::Decimal::from(-50));
    assert!(!t.uninherited());
    assert!(TimingPoint::new_inherited(
        100,
        Decimal::new(0, 0),
        4,
        SampleSet::Normal,
        SampleIndex::OsuDefaultHitsounds,
        Volume::new(100).unwrap(),
        Effects::from_u8(0),
    )
    .is_none());
}

#[test]
fn curve_type_full_names() {
    assert_eq!(CurveType::from_str("Bezier", 14), Ok(Some(CurveType::Bezier)));
    assert_eq!(CurveType::from_str("Centripetal", 14), Ok(Some(CurveType::Centripetal)));
    assert_eq!(CurveType::from_str("Linear", 14), Ok(Some(CurveType::Linear)));
    assert_eq!(CurveType::from_str("PerfectCircle", 14), Ok(Some(CurveType::PerfectCircle)));
    assert_eq!(CurveType::from_str("P", 14), Ok(Some(CurveType::PerfectCircle)));
    assert!(CurveType::from_str("Circle", 14).is_err());
}

#[test]
fn sprite_new_takes_relative_paths() {
    let sp = Sprite::new("sb/bg.png").unwrap();
    assert_eq!(sp.filepath, FilePath("sb/bg.png".to_string()));
    assert_eq!(Sprite::new("/abs/bg.png"), Err(FilePathNotRelative));
}

#[test]
fn frame_file_names_of_bare_name() {
    let a = Animation {
        frame_count: 3,
        frame_delay: Decimal::new(100, 0),
        loop_type: LoopType::LoopForever,
        filepath: FilePath("a.png".to_string()),
    };
    assert_eq!(
        a.frame_file_names().unwrap(),
        vec!["a0.png".to_string(), "a1.png".to_string(), "a2.png".to_string()]
    );
    let b = Animation { filepath: FilePath("sb/frame".to_string()), ..a };
    assert_eq!(b.frame_file_names().unwrap(), vec!["frame0", "frame1", "frame2"]);
}

#[test]
fn zero_indentation_is_refused_without_commands() {
    let mut o = Object::from_str("Sprite,Background,Centre,a.png,0,0", 14)
        .unwrap()
        .unwrap();
    let cmd = Command::parse_chars(&chars("F,0,0,100,0,1")).unwrap();
    assert_eq!(o.try_push_cmd(cmd, 0), Err(CommandPushError::InvalidIndentation(1, 0)));
}

#[test]
fn readers_tell_the_lines_they_would_wait_on() {
    assert!(Command::try_parse_chars(&chars("M,0,0,100,1,2,3,a")).is_none());
    assert!(matches!(Command::try_parse_chars(&chars("M,0,0,100,1,2,a")), Some(Err(_))));
    assert!(matches!(Command::try_parse_chars(&chars("M,0,0,100,1,2,3,4")), Some(Ok(_))));
    assert!(matches!(TriggerType::try_from_str("Passing"), Some(Ok(TriggerType::Passing))));
    assert!(AudioSample::try_parse_chars(&chars("Sam")).is_none());
    assert!(AudioSample::try_from_str("Sampl").is_none());
    assert!(matches!(AudioSample::try_from_str("Sample,0,0,\"a.wav\",50"), Some(Ok(_))));
    assert!(Events::try_from_str_variables("Sam", 14, &[]).is_none());
    assert!(matches!(AudioSample::try_parse_chars(&chars("Sample,0,0,\"a.wav\"")), Some(Ok(_))));
    assert!(Variable::try_parse_chars(&chars("")).is_none());
    assert!(Variable::try_parse_chars(&chars("$abc")).is_none());
    assert!(matches!(Variable::try_parse_chars(&chars("$a=1")), Some(Ok(_))));
    assert!(Events::try_from_str("0x,0,\"bg.jpg\"", 14).is_none());
    assert!(matches!(Events::try_from_str("0,0,\"bg.jpg\",0,0", 14), Some(Ok(Some(_)))));
    assert!(Osb::try_from_str("[Variables]\n$abc\n", 14).is_none());
    assert!(matches!(Osb::try_from_str("[Variables]\n$a=1\n", 14), Some(Ok(Some(_)))));
    assert!(OsuFile::try_from_str("osu file format v14\n\n[Events]\nSam\n").is_none());
    assert!(matches!(OsuFile::try_from_str("osu file format v14\n"), Some(Ok(_))));
    let mut f = OsuFile::try_from_str("osu file format v14\n").unwrap().unwrap();
    assert!(f.try_append_osb("[Variables]\n$abc\n").is_none());
    assert!(matches!(f.try_append_osb("[Variables]\n$a=1\n"), Some(Ok(()))));
}

#[test]
fn trimming_twice_is_trimming_once() {
    let text = "osu file format v14\n\n[General]\nMode : 0\nAudioFilename:  a.mp3  \n\n[Events]\n//x\n0,0,\"bg.jpg\",0,0\nKey: v\n";
    let once = osu_file_parser::osu_str_trimmer(text);
    assert_eq!(osu_file_parser::osu_str_trimmer(&once), once);
}

#[test]
fn pipe_list_round_trip() {
    let v: Vec<i32> = vec![1, -2, 30];
    let t = osu_file_parser::helper::pipe_vec_to_string(&v, 14);
    assert_eq!(t, "1|-2|30");
    let back: Vec<i32> = osu_file_parser::helper::str_to_pipe_vec(&t, 14).unwrap();
    assert_eq!(back, v);
}

#[test]
fn general_values_come_back_with_their_spacing_set() {
    let mut g = osu_file_parser::general::General::new();
    g.audio_filename = Some("a.mp3".to_string());
    g.preview_time = Some(100);
    let text = g.to_string(14).unwrap();
    assert_eq!(text, "AudioFilename: a.mp3\nPreviewTime: 100");
    let back = osu_file_parser::general::General::from_str(&text, 14).unwrap().unwrap();
    assert_eq!(back.audio_filename, g.audio_filename);
    assert_eq!(back.preview_time, g.preview_time);
    assert_eq!(back.spacing.audio_filename, Some(1));
    assert_eq!(back.spacing.preview_time, Some(1));
}

#[test]
fn decimal_text_places_the_point_by_the_scale() {
    assert_eq!(Decimal::new(5, 3).to_string(14).unwrap(), "0.005");
    assert_eq!(Decimal::new(-5, 3).to_string(14).unwrap(), "-0.005");
    assert_eq!(Decimal::new(0, 2).to_string(14).unwrap(), "0.00");
    assert_eq!(Decimal::new(0, 0).to_string(14).unwrap(), "0");
    assert_eq!(Decimal::new(1234, 0).to_string(14).unwrap(), "1234");
    assert_eq!(Decimal::new(-1234, 2).to_string(14).unwrap(), "-12.34");
}

#[test]
fn decimals_compare_by_value() {
    let a = Decimal::new(10, 1);
    let b = Decimal::new(100, 2);
    assert_eq!(a, b);
    assert_ne!(a, Decimal::new(11, 1));
    assert_ne!(Decimal::new(-1, 0), Decimal::new(1, 0));
    assert_eq!(Decimal::new(0, 3), Decimal::new(0, 0));
    let h = |d: Decimal| {
        let mut s = DefaultHasher::new();
        d.hash(&mut s);
        s.finish()
    };
    assert_eq!(h(a), h(b));
    assert_eq!(a.to_string(14).unwrap(), "1.0");
    assert_eq!(b.to_string(14).unwrap(), "1.00");
}

#[test]
fn pipe_list_error_holds_the_item() {
    let r: Result<Vec<i32>, _> = osu_file_parser::helper::str_to_pipe_vec("1|x2|3", 14);
    let e = r.unwrap_err();
    assert_eq!(e.index, 1);
    assert_eq!(e.value, "x2");
}

#[test]
fn frame_names_keep_the_extension_of_the_file_name() {
    let a = Animation {
        frame_count: 2,
        frame_delay: Decimal::new(100, 0),
        loop_type: LoopType::LoopForever,
        filepath: FilePath("sb/star.png".to_string()),
    };
    assert_eq!(a.frame_file_names().unwrap(), vec!["star0.png", "star1.png"]);
    let b = Animation { filepath: FilePath("sb/a.b/.hidden".to_string()), ..a };
    assert_eq!(b.frame_file_names().unwrap(), vec![".hidden0", ".hidden1"]);
}

#[test]
fn extension_of_a_file_name() {
    assert_eq!(extension_of_name("star.png"), Some("png".to_string()));
    assert_eq!(extension_of_name("a.tar.gz"), Some("gz".to_string()));
    assert_eq!(extension_of_name(".hidden"), None);
    assert_eq!(extension_of_name("noext"), None);
    assert_eq!(extension_of_name("dot."), Some("".to_string()));
}

#[test]
fn audio_sample_volume_defaults_to_100() {
    let v = osu_file_parser::events::audio_sample::Volume::default();
    assert_eq!(v.get(), 100);
}

#[test]
fn colours_text_and_start_in_place() {
    let mut c = Colours { start: (1, 2, 3), continuing: vec![(4, Some(5), Some(6)), (7, None, None)] };
    assert_eq!(c.to_string(), "1,2,3,4,5,6,7");
    *c.start_rgb_mut() = (9, 8, 7);
    assert_eq!(c.to_string(), "9,8,7,4,5,6,7");
    let mut f = ContinuingFields { start: (1i32, 2i32), continuing: vec![] };
    f.start_values_mut().0 = 5;
    assert_eq!(f.start, (5, 2));
}

#[test]
fn timing_point_fields_in_place() {
    let mut t = TimingPoint::from_str("0,500,4,1,0,100,1,0", 14).unwrap().unwrap();
    t.effects_mut().kiai_time_enabled = true;
    *t.sample_index_mut() = SampleIndex::Index(2);
    assert_eq!(t.to_string(14).unwrap(), "0,500,4,1,2,100,1,1");
}
