use osu_file_parser::osu_file::{OsuFile, ParseError};
use osu_file_parser::{osu_str_eq, osu_str_trimmer, LATEST_VERSION, MIN_VERSION};

const SMALL: &str = "osu file format v14\n\n[General]\nAudioFilename: a.mp3\nAudioLeadIn: 0\n\n[Metadata]\nTitle:Song\nCreator:me\n\n[Difficulty]\nHPDrainRate:5\n\n[Events]\n//Background and Video events\n0,0,\"bg.jpg\",0,0\n\n[TimingPoints]\n10000,333.33,4,0,0,100,1,1\n\n[Colours]\nCombo1 : 255,128,0\n\n[HitObjects]\n221,350,9780,1,0,0:0:0:0:\n";

#[test]
fn small_file_round_trip() {
    let f = OsuFile::from_str(SMALL).unwrap();
    assert_eq!(f.version, 14);
    assert!(f.general.is_some());
    assert!(f.editor.is_none());
    assert_eq!(f.hitobjects.as_ref().unwrap().0.len(), 1);
    assert!(osu_str_eq(&f.to_string(), SMALL));
}

#[test]
fn small_file_exact_text() {
    let f = OsuFile::from_str(SMALL).unwrap();
    assert_eq!(f.to_string(), SMALL.trim_end());
}

#[test]
fn empty_file_of_version() {
    let f = OsuFile::from_str("osu file format v9\n").unwrap();
    assert_eq!(f.version, 9);
    assert!(f.general.is_none());
    assert_eq!(f.to_string(), "osu file format v9\n\n");
}

#[test]
fn default_file() {
    let f = OsuFile::new(14);
    assert_eq!(f.version, 14);
    assert!(f.hitobjects.is_none());
    let d = OsuFile::default(14);
    assert!(d.general.is_none());
}

#[test]
fn version_line_errors() {
    let e = OsuFile::from_str("osu file format v99\n").unwrap_err();
    assert_eq!(*e.error(), ParseError::InvalidFileVersion);
    assert_eq!(e.line_index(), 0);
    let e = OsuFile::from_str("hello\n").unwrap_err();
    assert_eq!(*e.error(), ParseError::FileVersionDefinedWrong);
    let e = OsuFile::from_str("osu file format vx\n").unwrap_err();
    assert_eq!(*e.error(), ParseError::InvalidFileVersion);
}

#[test]
fn section_errors() {
    let e = OsuFile::from_str("osu file format v14\n\n[Nope]\nA: b\n").unwrap_err();
    assert_eq!(*e.error(), ParseError::UnknownSection);
    assert_eq!(e.line_index(), 2);
    let e = OsuFile::from_str("osu file format v14\n[General]\nAudioLeadIn: 1\n[General]\n")
        .unwrap_err();
    assert_eq!(*e.error(), ParseError::DuplicateSections);
    assert_eq!(e.line_index(), 3);
    let e = OsuFile::from_str("osu file format v14\nstray\n[General]\n").unwrap_err();
    assert_eq!(*e.error(), ParseError::UnexpectedLine);
}

#[test]
fn section_content_errors_carry_file_lines() {
    let e = OsuFile::from_str("osu file format v14\n\n[General]\nAudioLeadIn: x\n").unwrap_err();
    assert!(matches!(e.error(), ParseError::ParseGeneralError { .. }));
    assert_eq!(e.line_index(), 3);
    let e = OsuFile::from_str("osu file format v14\n\n[HitObjects]\n1,2,3,1,0\n1,2\n").unwrap_err();
    assert!(matches!(e.error(), ParseError::ParseHitObjectsError { .. }));
    assert_eq!(e.line_index(), 4);
}

#[test]
fn comments_before_sections_are_allowed() {
    let f = OsuFile::from_str("osu file format v14\n// a comment\n\n[General]\nAudioLeadIn: 1\n")
        .unwrap();
    assert_eq!(f.general.unwrap().audio_lead_in, Some(1));
}

#[test]
fn append_osb_and_write_it() {
    let mut f = OsuFile::from_str(SMALL).unwrap();
    let osb = "[Events]\n//Storyboard Layer 0 (Background)\nSprite,Background,Centre,\"a.png\",320,240\n F,0,0,100,0,1\n";
    f.append_osb(osb).unwrap();
    assert!(f.osb.is_some());
    assert!(osu_str_eq(&f.osb_to_string().unwrap(), osb));
}

#[test]
fn no_osb_before_version_14() {
    let mut f = OsuFile::from_str("osu file format v12\n").unwrap();
    f.append_osb("[Events]\n").unwrap();
    assert!(f.osb.is_none());
    assert_eq!(f.osb_to_string(), None);
}

#[test]
fn trimmer_drops_blank_lines_and_whitespace() {
    assert_eq!(osu_str_trimmer("[General]\nx: 1\n\n  y : 2 \n"), "[General]\nx:1\ny:2");
    assert!(osu_str_eq("[General]\nx: 1\n\ny: 2", "[General]\nx:1\ny:2\n"));
    assert!(!osu_str_eq("[General]\nx: 1", "[General]\nx: 2"));
}

#[test]
fn trimmer_keeps_only_the_version_line_before_sections() {
    assert_eq!(
        osu_str_trimmer("osu file format v14\nstray\n[General]"),
        "osu file format v14\n[General]"
    );
}

#[test]
fn trimmer_sorts_section_lines() {
    assert!(osu_str_eq("[General]\nb: 2\na: 1", "[General]\na: 1\nb: 2"));
}

#[test]
fn version_bounds() {
    assert_eq!(MIN_VERSION, 3);
    assert_eq!(LATEST_VERSION, 14);
}
