use osu_file_parser::colours::{ColourParseError, Colour, Colours, Rgb};
use osu_file_parser::decimal::Decimal;
use osu_file_parser::difficulty::Difficulty;
use osu_file_parser::editor::Editor;
use osu_file_parser::general::types::{Countdown, Mode, SampleSet as GeneralSampleSet};
use osu_file_parser::general::{General, ParseError as GeneralParseError};
use osu_file_parser::metadata::Metadata;
use osu_file_parser::timingpoints::{
    Effects, SampleIndex, SampleSet, TimingPoint, TimingPointField, TimingPointParseError,
    TimingPoints, Volume, VolumeError,
};
use osu_file_parser::{VersionedFromStr, VersionedToString};

#[test]
fn general_round_trip() {
    let text = "AudioFilename: audio.mp3\nAudioLeadIn: 0\nPreviewTime: 12345\nCountdown: 0\nSampleSet: Soft\nStackLeniency: 0.7\nMode: 0\nLetterboxInBreaks: 0\nWidescreenStoryboard: 1";
    let g = General::from_str(text, 14).unwrap().unwrap();
    assert_eq!(g.audio_filename.as_deref(), Some("audio.mp3"));
    assert_eq!(g.preview_time, Some(12345));
    assert_eq!(g.countdown, Some(Countdown::NoCountdown));
    assert_eq!(g.sample_set, Some(GeneralSampleSet::Soft));
    assert_eq!(g.mode, Some(Mode::Osu));
    assert_eq!(g.widescreen_storyboard, Some(true));
    assert_eq!(g.to_string(14).unwrap(), text);
}

#[test]
fn general_keeps_spacing() {
    let text = "AudioFilename:audio.mp3\nAudioLeadIn:  10";
    let g = General::from_str(text, 14).unwrap().unwrap();
    assert_eq!(g.to_string(14).unwrap(), text);
}

#[test]
fn general_errors() {
    let e = General::from_str("Foo: 1", 14).unwrap_err();
    assert_eq!(e.line_index(), 0);
    assert_eq!(*e.error(), GeneralParseError::InvalidKey);
    let e = General::from_str("AudioLeadIn: 1\n\nAudioLeadIn: 2", 14).unwrap_err();
    assert_eq!(e.line_index(), 2);
    assert_eq!(*e.error(), GeneralParseError::DuplicateField);
    let e = General::from_str("no colon here", 14).unwrap_err();
    assert_eq!(*e.error(), GeneralParseError::InvalidColonSet);
    let e = General::from_str("AudioLeadIn: x", 14).unwrap_err();
    assert!(matches!(e.error(), GeneralParseError::ParseIntError(_)));
}

#[test]
fn general_new_is_empty() {
    let g = General::new();
    assert_eq!(g.audio_filename, None);
    assert_eq!(g.to_string(14).unwrap(), "");
}

#[test]
fn editor_round_trip() {
    let text = "Bookmarks: 100,200\nDistanceSpacing: 1.2\nBeatDivisor: 4\nGridSize: 4\nTimelineZoom: 2";
    let e = Editor::from_str(text, 14).unwrap().unwrap();
    assert_eq!(e.bookmarks.as_ref().unwrap().0, vec![100, 200]);
    assert_eq!(e.grid_size, Some(4));
    assert_eq!(e.to_string(14).unwrap(), text);
}

#[test]
fn metadata_round_trip() {
    let text = "Title:Song\nTitleUnicode:Song\nArtist:Someone\nCreator:me\nVersion:Hard\nTags:a b c\nBeatmapID:123\nBeatmapSetID:-1";
    let m = Metadata::from_str(text, 14).unwrap().unwrap();
    assert_eq!(m.title.as_deref(), Some("Song"));
    assert_eq!(m.tags.as_ref().unwrap().0.len(), 3);
    assert_eq!(m.beatmap_set_id, Some(-1));
    assert_eq!(m.to_string(14).unwrap(), text);
}

#[test]
fn difficulty_round_trip() {
    let text = "HPDrainRate:5\nCircleSize:4\nOverallDifficulty:8\nApproachRate:9\nSliderMultiplier:1.4\nSliderTickRate:1";
    let d = Difficulty::from_str(text, 14).unwrap().unwrap();
    assert_eq!(d.slider_multiplier, Some(Decimal::new(14, 1)));
    assert_eq!(d.to_string(14).unwrap(), text);
}

#[test]
fn colours_round_trip() {
    let text = "Combo1 : 255,128,0\nCombo2 : 0,0,255\nSliderTrackOverride : 1,2,3\nSliderBorder : 10,20,30";
    let c = Colours::from_str(text, 14).unwrap().unwrap();
    assert_eq!(
        c.0[0],
        Colour::Combo(1, Rgb { red: 255, green: 128, blue: 0 })
    );
    assert_eq!(c.0[3], Colour::SliderBorder(Rgb { red: 10, green: 20, blue: 30 }));
    assert_eq!(c.to_string(14).unwrap(), text);
}

#[test]
fn colour_accepts_loose_spacing() {
    let c = Colour::from_str("Combo3:1,2,3", 14).unwrap().unwrap();
    assert_eq!(c, Colour::Combo(3, Rgb { red: 1, green: 2, blue: 3 }));
    assert_eq!(c.to_string(14).unwrap(), "Combo3 : 1,2,3");
}

#[test]
fn colour_errors() {
    assert_eq!(
        Colour::from_str("Foo : 1,2,3", 14),
        Err(ColourParseError::UnknownColourType)
    );
    assert_eq!(
        Colour::from_str("Combo : 1,2,3", 14),
        Err(ColourParseError::InvalidComboCount)
    );
    assert_eq!(
        Colour::from_str("Combo1 1,2,3", 14),
        Err(ColourParseError::InvalidColonSeparator)
    );
    let e = Colours::from_str("Combo1 : 1,2,3\nBad", 14).unwrap_err();
    assert_eq!(e.line_index(), 1);
}

#[test]
fn timing_point_round_trip() {
    let text = "10000,333.33,4,0,0,100,1,1";
    let t = TimingPoint::from_str(text, 14).unwrap().unwrap();
    assert_eq!(t.time(), 10000);
    assert_eq!(t.meter(), 4);
    assert!(t.uninherited());
    assert!(t.effects().kiai_time_enabled);
    assert_eq!(t.to_string(14).unwrap(), text);
}

#[test]
fn timing_point_inherited() {
    let text = "12000,-25,4,3,2,60,0,0";
    let t = TimingPoint::from_str(text, 14).unwrap().unwrap();
    assert_eq!(t.sample_set(), SampleSet::Drum);
    assert_eq!(t.sample_index(), SampleIndex::Index(2));
    assert_eq!(t.volume().volume(), 60);
    assert!(!t.uninherited());
    assert_eq!(t.to_string(14).unwrap(), text);
}

#[test]
fn timing_point_errors() {
    assert_eq!(
        TimingPoint::from_str("10000", 14),
        Err(TimingPointParseError::MissingField(TimingPointField::BeatLength))
    );
    assert_eq!(
        TimingPoint::from_str("10000,x", 14),
        Err(TimingPointParseError::FieldParseError(TimingPointField::BeatLength))
    );
    assert_eq!(
        TimingPoint::from_str("10000,1,4,9,0,100,1,0", 14),
        Err(TimingPointParseError::FieldParseError(TimingPointField::SampleSet))
    );
    assert_eq!(
        TimingPoint::from_str("10000,1,4,0,0,101,1,0", 14),
        Err(TimingPointParseError::FieldParseError(TimingPointField::Volume))
    );
    assert_eq!(
        TimingPoint::from_str("10000,1,4,0,0,100,1", 14),
        Err(TimingPointParseError::MissingField(TimingPointField::Effects))
    );
}

#[test]
fn timing_point_volume_bounds() {
    assert_eq!(Volume::new(101), Err(VolumeError::VolumeTooHigh(101)));
    let mut v = Volume::new(50).unwrap();
    assert_eq!(v.set_volume(200), Err(VolumeError::VolumeTooHigh(200)));
    assert_eq!(v.volume(), 50);
}

#[test]
fn effects_numbers() {
    let e = Effects::from_u8(9);
    assert!(e.kiai_time_enabled);
    assert!(e.no_first_barline_in_taiko_mania);
    assert_eq!(e.to_u8(), 9);
    assert_eq!(Effects::from_u8(1).to_u8(), 1);
}

#[test]
fn timing_points_section() {
    let text = "10000,333.33,4,0,0,100,1,1\n12000,-25,4,3,2,60,0,0";
    let ts = TimingPoints::from_str(text, 14).unwrap().unwrap();
    assert_eq!(ts.0.len(), 2);
    assert_eq!(ts.to_string(14).unwrap(), text);
}

#[test]
fn timing_point_new_writes_fields() {
    let t = TimingPoint::new_uninherited(
        0,
        Decimal::new(500, 0),
        4,
        SampleSet::Normal,
        SampleIndex::OsuDefaultHitsounds,
        Volume::new(100).unwrap(),
        Effects::from_u8(0),
    );
    assert_eq!(t.to_string(14).unwrap(), "0,500,4,1,0,100,1,0");
}

#[test]
fn decimal_text() {
    let d = Decimal::new(-1234, 3);
    assert_eq!(d.to_string(14).unwrap(), "-1.234");
    assert_eq!(Decimal::from_str("0.50", 14).unwrap().unwrap().to_string(14).unwrap(), "0.50");
}
