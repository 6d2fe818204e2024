use osu_file_parser::hitobjects::error::{
    ComboSkipCountTooHigh, ParseHitObjectError, VolumeSetError,
};
use osu_file_parser::hitobjects::types::{ComboSkipCount, HitSample, HitSound, Volume};
use osu_file_parser::hitobjects::{HitObject, HitObjectParams, HitObjects};
use osu_file_parser::{Position, VersionedFromStr, VersionedToString};

fn round_trip(line: &str, version: usize) {
    let h = HitObject::from_str(line, version).unwrap().unwrap();
    assert_eq!(h.to_string(version).unwrap(), line);
}

#[test]
fn hitcircle_reads_its_fields() {
    let h = HitObject::from_str("221,350,9780,1,0,0:0:0:0:", 14)
        .unwrap()
        .unwrap();
    assert_eq!(h.position, Position { x: 221, y: 350 });
    assert_eq!(h.time, 9780);
    assert_eq!(h.obj_params, HitObjectParams::HitCircle);
    assert!(!h.new_combo);
    assert_eq!(h.combo_skip_count.get(), 0);
    assert_eq!(h.hitsound.mask(), 0);
    assert!(h.hitsample.is_some());
}

#[test]
fn hitcircle_round_trip() {
    round_trip("221,350,9780,1,0,0:0:0:0:", 14);
}

#[test]
fn hitcircle_with_new_combo_and_skip() {
    let h = HitObject::from_str("100,100,500,37,2,0:0:0:0:", 14)
        .unwrap()
        .unwrap();
    assert!(h.new_combo);
    assert_eq!(h.combo_skip_count.get(), 2);
    assert!(h.hitsound.whistle());
    assert_eq!(h.to_string(14).unwrap(), "100,100,500,37,2,0:0:0:0:");
}

#[test]
fn hitcircle_without_hitsample() {
    let h = HitObject::from_str("10,20,30,1,0", 14).unwrap().unwrap();
    assert!(h.hitsample.is_none());
    assert_eq!(h.to_string(14).unwrap(), "10,20,30,1,0");
}

#[test]
fn slider_round_trip() {
    round_trip(
        "31,85,3049,2,0,B|129:55|123:136|228:86,1,172.51,2|0,3:2|0:2,0:2:0:0:",
        14,
    );
}

#[test]
fn slider_reads_curve() {
    let h = HitObject::from_str("31,85,3049,2,0,B|129:55|123:136|228:86,1,172.51", 14)
        .unwrap()
        .unwrap();
    match h.obj_params {
        HitObjectParams::Slider(p) => {
            assert_eq!(p.curve_points.len(), 3);
            assert_eq!(p.slides, 1);
            assert_eq!(p.length.mantissa(), 17251);
            assert_eq!(p.length.scale(), 2);
        }
        _ => panic!("not a slider"),
    }
}

#[test]
fn spinner_round_trip() {
    round_trip("256,192,33598,12,0,431279,0:0:0:0:", 14);
}

#[test]
fn spinner_reads_end_time() {
    let h = HitObject::from_str("256,192,33598,12,0,431279,0:0:0:0:", 14)
        .unwrap()
        .unwrap();
    assert_eq!(h.obj_params, HitObjectParams::Spinner { end_time: 431279 });
    assert!(h.new_combo);
}

#[test]
fn mania_hold_round_trip() {
    round_trip("51,192,350,128,2,849:0:0:0:0:", 14);
}

#[test]
fn mania_hold_reads_end_time() {
    let h = HitObject::from_str("51,192,350,128,2,849:0:0:0:0:", 14)
        .unwrap()
        .unwrap();
    assert_eq!(h.obj_params, HitObjectParams::OsuManiaHold { end_time: 849 });
}

#[test]
fn old_versions_shift_time() {
    let h = HitObject::from_str("221,350,9780,1,0", 4).unwrap().unwrap();
    assert_eq!(h.time, 9804);
    assert_eq!(h.to_string(4).unwrap(), "221,350,9780,1,0");
}

#[test]
fn version_3_hitcircles_end_with_a_comma() {
    let h = HitObject::from_str("221,350,9780,1,0", 3).unwrap().unwrap();
    assert_eq!(h.to_string(3).unwrap(), "221,350,9780,1,0,");
}

#[test]
fn missing_fields_are_reported() {
    assert_eq!(
        HitObject::from_str("221", 14),
        Err(ParseHitObjectError::MissingY)
    );
    assert_eq!(
        HitObject::from_str("", 14),
        Err(ParseHitObjectError::InvalidX)
    );
    assert_eq!(
        HitObject::from_str("221,350", 14),
        Err(ParseHitObjectError::MissingTime)
    );
    assert_eq!(
        HitObject::from_str("221,350,9780", 14),
        Err(ParseHitObjectError::MissingObjType)
    );
    assert_eq!(
        HitObject::from_str("221,350,9780,1", 14),
        Err(ParseHitObjectError::MissingHitSound)
    );
}

#[test]
fn invalid_fields_are_reported() {
    assert_eq!(
        HitObject::from_str("a,350,9780,1,0", 14),
        Err(ParseHitObjectError::InvalidX)
    );
    assert_eq!(
        HitObject::from_str("1,b,9780,1,0", 14),
        Err(ParseHitObjectError::InvalidY)
    );
    assert_eq!(
        HitObject::from_str("1,2,c,1,0", 14),
        Err(ParseHitObjectError::InvalidTime)
    );
    assert_eq!(
        HitObject::from_str("1,2,3,x,0", 14),
        Err(ParseHitObjectError::InvalidObjType)
    );
    assert_eq!(
        HitObject::from_str("1,2,3,1,z", 14),
        Err(ParseHitObjectError::InvalidHitSound)
    );
    assert_eq!(
        HitObject::from_str("1,2,3,0,0", 14),
        Err(ParseHitObjectError::UnknownObjType)
    );
    assert_eq!(
        HitObject::from_str("1,2,3,8,0", 14),
        Err(ParseHitObjectError::MissingEndTime)
    );
    assert_eq!(
        HitObject::from_str("1,2,3,2,0", 14),
        Err(ParseHitObjectError::MissingCurveType)
    );
}

#[test]
fn hitsound_flags() {
    let h = HitSound::from_u8(15);
    assert!(h.normal() && h.whistle() && h.finish() && h.clap());
    assert_eq!(h.mask(), 15);
    let mut h = HitSound::new(false, true, false, true);
    assert_eq!(h.mask(), 10);
    h.set_clap(false);
    assert_eq!(h.mask(), 2);
    assert_eq!(h.to_string(14).unwrap(), "2");
}

#[test]
fn hitsound_round_trip() {
    for n in 0u8..16 {
        let h = HitSound::from_u8(n);
        let s = h.to_string(14).unwrap();
        assert_eq!(HitSound::from_str(&s, 14).unwrap().unwrap(), h);
    }
}

#[test]
fn combo_skip_count_bounds() {
    assert_eq!(ComboSkipCount::new(7).unwrap().get(), 7);
    assert_eq!(ComboSkipCount::new(8), Err(ComboSkipCountTooHigh(8)));
    let mut c = ComboSkipCount::new(3).unwrap();
    assert_eq!(c.set(9), Err(ComboSkipCountTooHigh(9)));
    assert_eq!(c.get(), 3);
    assert_eq!(c.set(5), Ok(()));
    assert_eq!(c.get(), 5);
}

#[test]
fn hitsample_volume_bounds() {
    assert_eq!(Volume::new(Some(0)), Err(VolumeSetError::VolumeTooLow));
    assert_eq!(Volume::new(Some(101)), Err(VolumeSetError::VolumeTooHigh));
    let mut v = Volume::new(None).unwrap();
    assert!(v.use_timing_point_volume());
    assert_eq!(v.set_volume(70), Ok(()));
    assert_eq!(v.volume(), Some(70));
    assert_eq!(v.set_volume(0), Err(VolumeSetError::VolumeTooLow));
    assert_eq!(v.volume(), Some(70));
    v.set_use_timing_point_volume();
    assert_eq!(v.volume(), None);
}

#[test]
fn hitsample_round_trip() {
    let s = HitSample::from_str("1:2:3:40:hit.wav", 14).unwrap().unwrap();
    assert_eq!(s.index(), Some(3));
    assert_eq!(s.volume().volume(), Some(40));
    assert_eq!(s.filename(), "hit.wav");
    assert_eq!(s.to_string(14).unwrap(), "1:2:3:40:hit.wav");
}

#[test]
fn hitsample_default_is_zeroes() {
    let s = HitSample::new_default();
    assert!(s.use_timing_point_index());
    assert_eq!(s.to_string(14).unwrap(), "0:0:0:0:");
}

#[test]
fn hitobjects_section_round_trip() {
    let text = "221,350,9780,1,0,0:0:0:0:\n256,192,33598,12,0,431279,0:0:0:0:";
    let hs = HitObjects::from_str(text, 14).unwrap().unwrap();
    assert_eq!(hs.0.len(), 2);
    assert_eq!(hs.to_string(14).unwrap(), text);
}

#[test]
fn hitobjects_section_error_line() {
    let text = "221,350,9780,1,0,0:0:0:0:\n1,2,3,0,0";
    let e = HitObjects::from_str(text, 14).unwrap_err();
    assert_eq!(e.line_index(), 1);
}

#[test]
fn hitobject_defaults() {
    let h = HitObject::hitcircle_default();
    assert_eq!(h.obj_params, HitObjectParams::HitCircle);
    let s = HitObject::spinner_default();
    assert_eq!(s.obj_params, HitObjectParams::Spinner { end_time: 0 });
    let m = HitObject::osu_mania_hold_default();
    assert_eq!(m.obj_params, HitObjectParams::OsuManiaHold { end_time: 0 });
}
