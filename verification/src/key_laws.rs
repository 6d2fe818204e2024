//! Which field each key of the `key: value` sections sets: the key names of
//! the [General], [Editor], [Metadata] and [Difficulty] sections, and how a
//! line of them is refused. With the round-trip laws, these fix the key each
//! field is written under as well.
use vstd::prelude::*;

use crate::decimal::Decimal;
use crate::general::types::{Countdown, Mode, OverlayPosition, SampleSet as GeneralSampleSet};
use crate::section::{colon_line, AudioHash, Bookmarks, Tags};
use crate::text::trim;
use crate::types::{Error, Integer, Version, VersionedFromStr};
use crate::{difficulty, editor, general, metadata};
use crate::difficulty::ParseError as DifficultyError;
use crate::editor::ParseError as EditorError;
use crate::general::ParseError as GeneralError;
use crate::metadata::ParseError as MetadataError;

verus! {

/// A `key: value` line of the [General] section sets the field its key names,
/// read from the value: `AudioFilename`, `AudioLeadIn`, `AudioHash`,
/// `PreviewTime`, `Countdown`, `SampleSet`, `StackLeniency`, `Mode`,
/// `LetterboxInBreaks`, `StoryFireInFront`, `UseSkinSprites`,
/// `AlwaysShowPlayfield`, `OverlayPosition`, `SkinPreference`,
/// `EpilepsyWarning`, `CountdownOffset`, `SpecialStyle`,
/// `WidescreenStoryboard`, `SamplesMatchPlaybackRate`.
pub proof fn law_general_keys(l: Seq<char>, version: Version)
    ensures
        trim(l).len() != 0 ==> (general::lines_parse(seq![l], version) matches Ok((v, _)) ==> (colon_line(l) matches Some((key, _, value)) && {
            &&& (key == "AudioFilename"@ ==> v.audio_filename == <String as VersionedFromStr>::parse_text(value, version)->Ok_0)
            &&& (key == "AudioLeadIn"@ ==> v.audio_lead_in == <Integer as VersionedFromStr>::parse_text(value, version)->Ok_0)
            &&& (key == "AudioHash"@ ==> v.audio_hash == <AudioHash as VersionedFromStr>::parse_text(value, version)->Ok_0)
            &&& (key == "PreviewTime"@ ==> v.preview_time == <Integer as VersionedFromStr>::parse_text(value, version)->Ok_0)
            &&& (key == "Countdown"@ ==> v.countdown == <Countdown as VersionedFromStr>::parse_text(value, version)->Ok_0)
            &&& (key == "SampleSet"@ ==> v.sample_set == <GeneralSampleSet as VersionedFromStr>::parse_text(value, version)->Ok_0)
            &&& (key == "StackLeniency"@ ==> v.stack_leniency == <Decimal as VersionedFromStr>::parse_text(value, version)->Ok_0)
            &&& (key == "Mode"@ ==> v.mode == <Mode as VersionedFromStr>::parse_text(value, version)->Ok_0)
            &&& (key == "LetterboxInBreaks"@ ==> v.letterbox_in_breaks == <bool as VersionedFromStr>::parse_text(value, version)->Ok_0)
            &&& (key == "StoryFireInFront"@ ==> v.story_fire_in_front == <bool as VersionedFromStr>::parse_text(value, version)->Ok_0)
            &&& (key == "UseSkinSprites"@ ==> v.use_skin_sprites == <bool as VersionedFromStr>::parse_text(value, version)->Ok_0)
            &&& (key == "AlwaysShowPlayfield"@ ==> v.always_show_playfield == <bool as VersionedFromStr>::parse_text(value, version)->Ok_0)
            &&& (key == "OverlayPosition"@ ==> v.overlay_position == <OverlayPosition as VersionedFromStr>::parse_text(value, version)->Ok_0)
            &&& (key == "SkinPreference"@ ==> v.skin_preference == <String as VersionedFromStr>::parse_text(value, version)->Ok_0)
            &&& (key == "EpilepsyWarning"@ ==> v.epilepsy_warning == <bool as VersionedFromStr>::parse_text(value, version)->Ok_0)
            &&& (key == "CountdownOffset"@ ==> v.countdown_offset == <Integer as VersionedFromStr>::parse_text(value, version)->Ok_0)
            &&& (key == "SpecialStyle"@ ==> v.special_style == <bool as VersionedFromStr>::parse_text(value, version)->Ok_0)
            &&& (key == "WidescreenStoryboard"@ ==> v.widescreen_storyboard == <bool as VersionedFromStr>::parse_text(value, version)->Ok_0)
            &&& (key == "SamplesMatchPlaybackRate"@ ==> v.samples_match_playback_rate == <bool as VersionedFromStr>::parse_text(value, version)->Ok_0)
        })),
{
    reveal_strlit("AudioFilename");
    assert("AudioFilename"@.len() == 13 && "AudioFilename"@[0] == 'A');
    reveal_strlit("AudioLeadIn");
    assert("AudioLeadIn"@.len() == 11 && "AudioLeadIn"@[0] == 'A');
    reveal_strlit("AudioHash");
    assert("AudioHash"@.len() == 9 && "AudioHash"@[0] == 'A');
    reveal_strlit("PreviewTime");
    assert("PreviewTime"@.len() == 11 && "PreviewTime"@[0] == 'P');
    reveal_strlit("Countdown");
    assert("Countdown"@.len() == 9 && "Countdown"@[0] == 'C');
    reveal_strlit("SampleSet");
    assert("SampleSet"@.len() == 9 && "SampleSet"@[0] == 'S');
    reveal_strlit("StackLeniency");
    assert("StackLeniency"@.len() == 13 && "StackLeniency"@[0] == 'S');
    reveal_strlit("Mode");
    assert("Mode"@.len() == 4 && "Mode"@[0] == 'M');
    reveal_strlit("LetterboxInBreaks");
    assert("LetterboxInBreaks"@.len() == 17 && "LetterboxInBreaks"@[0] == 'L');
    reveal_strlit("StoryFireInFront");
    assert("StoryFireInFront"@.len() == 16 && "StoryFireInFront"@[0] == 'S');
    reveal_strlit("UseSkinSprites");
    assert("UseSkinSprites"@.len() == 14 && "UseSkinSprites"@[0] == 'U');
    reveal_strlit("AlwaysShowPlayfield");
    assert("AlwaysShowPlayfield"@.len() == 19 && "AlwaysShowPlayfield"@[0] == 'A');
    reveal_strlit("OverlayPosition");
    assert("OverlayPosition"@.len() == 15 && "OverlayPosition"@[0] == 'O');
    reveal_strlit("SkinPreference");
    assert("SkinPreference"@.len() == 14 && "SkinPreference"@[0] == 'S');
    reveal_strlit("EpilepsyWarning");
    assert("EpilepsyWarning"@.len() == 15 && "EpilepsyWarning"@[0] == 'E');
    reveal_strlit("CountdownOffset");
    assert("CountdownOffset"@.len() == 15 && "CountdownOffset"@[0] == 'C');
    reveal_strlit("SpecialStyle");
    assert("SpecialStyle"@.len() == 12 && "SpecialStyle"@[0] == 'S');
    reveal_strlit("WidescreenStoryboard");
    assert("WidescreenStoryboard"@.len() == 20 && "WidescreenStoryboard"@[0] == 'W');
    reveal_strlit("SamplesMatchPlaybackRate");
    assert("SamplesMatchPlaybackRate"@.len() == 24 && "SamplesMatchPlaybackRate"@[0] == 'S');
}

/// A `key: value` line of the [Editor] section sets the field its key names,
/// read from the value: `Bookmarks`, `DistanceSpacing`, `BeatDivisor`,
/// `GridSize`, `TimelineZoom`.
pub proof fn law_editor_keys(l: Seq<char>, version: Version)
    ensures
        trim(l).len() != 0 ==> (editor::lines_parse(seq![l], version) matches Ok((v, _)) ==> (colon_line(l) matches Some((key, _, value)) && {
            &&& (key == "Bookmarks"@ ==> v.bookmarks == <Bookmarks as VersionedFromStr>::parse_text(value, version)->Ok_0)
            &&& (key == "DistanceSpacing"@ ==> v.distance_spacing == <Decimal as VersionedFromStr>::parse_text(value, version)->Ok_0)
            &&& (key == "BeatDivisor"@ ==> v.beat_divisor == <Decimal as VersionedFromStr>::parse_text(value, version)->Ok_0)
            &&& (key == "GridSize"@ ==> v.grid_size == <Integer as VersionedFromStr>::parse_text(value, version)->Ok_0)
            &&& (key == "TimelineZoom"@ ==> v.timeline_zoom == <Decimal as VersionedFromStr>::parse_text(value, version)->Ok_0)
        })),
{
    reveal_strlit("Bookmarks");
    assert("Bookmarks"@.len() == 9 && "Bookmarks"@[0] == 'B');
    reveal_strlit("DistanceSpacing");
    assert("DistanceSpacing"@.len() == 15 && "DistanceSpacing"@[0] == 'D');
    reveal_strlit("BeatDivisor");
    assert("BeatDivisor"@.len() == 11 && "BeatDivisor"@[0] == 'B');
    reveal_strlit("GridSize");
    assert("GridSize"@.len() == 8 && "GridSize"@[0] == 'G');
    reveal_strlit("TimelineZoom");
    assert("TimelineZoom"@.len() == 12 && "TimelineZoom"@[0] == 'T');
}

/// A `key: value` line of the [Metadata] section sets the field its key names,
/// read from the value: `Title`, `TitleUnicode`, `Artist`, `ArtistUnicode`,
/// `Creator`, `Version`, `Source`, `Tags`, `BeatmapID`, `BeatmapSetID`.
pub proof fn law_metadata_keys(l: Seq<char>, version: Version)
    ensures
        trim(l).len() != 0 ==> (metadata::lines_parse(seq![l], version) matches Ok((v, _)) ==> (colon_line(l) matches Some((key, _, value)) && {
            &&& (key == "Title"@ ==> v.title == <String as VersionedFromStr>::parse_text(value, version)->Ok_0)
            &&& (key == "TitleUnicode"@ ==> v.title_unicode == <String as VersionedFromStr>::parse_text(value, version)->Ok_0)
            &&& (key == "Artist"@ ==> v.artist == <String as VersionedFromStr>::parse_text(value, version)->Ok_0)
            &&& (key == "ArtistUnicode"@ ==> v.artist_unicode == <String as VersionedFromStr>::parse_text(value, version)->Ok_0)
            &&& (key == "Creator"@ ==> v.creator == <String as VersionedFromStr>::parse_text(value, version)->Ok_0)
            &&& (key == "Version"@ ==> v.version == <String as VersionedFromStr>::parse_text(value, version)->Ok_0)
            &&& (key == "Source"@ ==> v.source == <String as VersionedFromStr>::parse_text(value, version)->Ok_0)
            &&& (key == "Tags"@ ==> v.tags == <Tags as VersionedFromStr>::parse_text(value, version)->Ok_0)
            &&& (key == "BeatmapID"@ ==> v.beatmap_id == <Integer as VersionedFromStr>::parse_text(value, version)->Ok_0)
            &&& (key == "BeatmapSetID"@ ==> v.beatmap_set_id == <Integer as VersionedFromStr>::parse_text(value, version)->Ok_0)
        })),
{
    reveal_strlit("Title");
    assert("Title"@.len() == 5 && "Title"@[0] == 'T');
    reveal_strlit("TitleUnicode");
    assert("TitleUnicode"@.len() == 12 && "TitleUnicode"@[0] == 'T');
    reveal_strlit("Artist");
    assert("Artist"@.len() == 6 && "Artist"@[0] == 'A');
    reveal_strlit("ArtistUnicode");
    assert("ArtistUnicode"@.len() == 13 && "ArtistUnicode"@[0] == 'A');
    reveal_strlit("Creator");
    assert("Creator"@.len() == 7 && "Creator"@[0] == 'C');
    reveal_strlit("Version");
    assert("Version"@.len() == 7 && "Version"@[0] == 'V');
    reveal_strlit("Source");
    assert("Source"@.len() == 6 && "Source"@[0] == 'S');
    reveal_strlit("Tags");
    assert("Tags"@.len() == 4 && "Tags"@[0] == 'T');
    reveal_strlit("BeatmapID");
    assert("BeatmapID"@.len() == 9 && "BeatmapID"@[0] == 'B');
    reveal_strlit("BeatmapSetID");
    assert("BeatmapSetID"@.len() == 12 && "BeatmapSetID"@[0] == 'B');
}

/// A `key: value` line of the [Difficulty] section sets the field its key
/// names, read from the value: `HPDrainRate`, `CircleSize`,
/// `OverallDifficulty`, `ApproachRate`, `SliderMultiplier`, `SliderTickRate`.
pub proof fn law_difficulty_keys(l: Seq<char>, version: Version)
    ensures
        trim(l).len() != 0 ==> (difficulty::lines_parse(seq![l], version) matches Ok((v, _)) ==> (colon_line(l) matches Some((key, _, value)) && {
            &&& (key == "HPDrainRate"@ ==> v.hp_drain_rate == <Decimal as VersionedFromStr>::parse_text(value, version)->Ok_0)
            &&& (key == "CircleSize"@ ==> v.circle_size == <Decimal as VersionedFromStr>::parse_text(value, version)->Ok_0)
            &&& (key == "OverallDifficulty"@ ==> v.overall_difficulty == <Decimal as VersionedFromStr>::parse_text(value, version)->Ok_0)
            &&& (key == "ApproachRate"@ ==> v.approach_rate == <Decimal as VersionedFromStr>::parse_text(value, version)->Ok_0)
            &&& (key == "SliderMultiplier"@ ==> v.slider_multiplier == <Decimal as VersionedFromStr>::parse_text(value, version)->Ok_0)
            &&& (key == "SliderTickRate"@ ==> v.slider_tickrate == <Decimal as VersionedFromStr>::parse_text(value, version)->Ok_0)
        })),
{
    reveal_strlit("HPDrainRate");
    assert("HPDrainRate"@.len() == 11 && "HPDrainRate"@[0] == 'H');
    reveal_strlit("CircleSize");
    assert("CircleSize"@.len() == 10 && "CircleSize"@[0] == 'C');
    reveal_strlit("OverallDifficulty");
    assert("OverallDifficulty"@.len() == 17 && "OverallDifficulty"@[0] == 'O');
    reveal_strlit("ApproachRate");
    assert("ApproachRate"@.len() == 12 && "ApproachRate"@[0] == 'A');
    reveal_strlit("SliderMultiplier");
    assert("SliderMultiplier"@.len() == 16 && "SliderMultiplier"@[0] == 'S');
    reveal_strlit("SliderTickRate");
    assert("SliderTickRate"@.len() == 14 && "SliderTickRate"@[0] == 'S');
}

/// In the [General] section a line that is not `key: value` is refused as
/// such, a key that is none of the section's is refused as unknown, and a
/// key given a second time is refused as a duplicate, each at its line.
pub proof fn law_general_line_errors(l1: Seq<char>, l2: Seq<char>, version: Version)
    ensures
        trim(l1).len() != 0 && colon_line(l1) is None ==> (general::lines_parse(seq![l1], version) matches Err(e)
            && e == Error { line_index: 0, error: GeneralError::InvalidColonSet }),
        trim(l1).len() != 0 ==> (colon_line(l1) matches Some((key, _, _)) ==> (general::key_index(key) is None <==> (general::lines_parse(
            seq![l1],
            version,
        ) matches Err(e) && e == Error { line_index: 0, error: GeneralError::InvalidKey }))),
        colon_line(l1) matches Some((k1, _, _)) ==> (colon_line(l2) matches Some((k2, _, _)) ==> (k1 == k2 && trim(l1).len()
            != 0 && trim(l2).len() != 0 && general::lines_parse(seq![l1], version) is Ok ==> (general::lines_parse(seq![l1, l2], version) matches Err(e)
            && e == Error { line_index: 1, error: GeneralError::DuplicateField }))),
{
    assert(seq![l1].drop_last() =~= Seq::<Seq<char>>::empty());
    assert(seq![l1, l2].drop_last() =~= seq![l1]);
    assert(seq![l1].last() == l1);
    assert(seq![l1, l2].last() == l2);
    assert(general::lines_parse(Seq::<Seq<char>>::empty(), version) is Ok);
    if let Some((k1, _, _)) = colon_line(l1) {
        if let Ok((_, seen)) = general::lines_parse(seq![l1], version) {
            if trim(l1).len() != 0 {
                let k = general::key_index(k1)->Some_0;
                assert(seen == Seq::<usize>::empty().push(k as usize));
                assert(seen[0] == k as usize);
            }
        }
    }
}

/// In the [Editor] section a line that is not `key: value` is refused as
/// such, a key that is none of the section's is refused as unknown, and a
/// key given a second time is refused as a duplicate, each at its line.
pub proof fn law_editor_line_errors(l1: Seq<char>, l2: Seq<char>, version: Version)
    ensures
        trim(l1).len() != 0 && colon_line(l1) is None ==> (editor::lines_parse(seq![l1], version) matches Err(e)
            && e == Error { line_index: 0, error: EditorError::InvalidColonSet }),
        trim(l1).len() != 0 ==> (colon_line(l1) matches Some((key, _, _)) ==> (editor::key_index(key) is None <==> (editor::lines_parse(
            seq![l1],
            version,
        ) matches Err(e) && e == Error { line_index: 0, error: EditorError::InvalidKey }))),
        colon_line(l1) matches Some((k1, _, _)) ==> (colon_line(l2) matches Some((k2, _, _)) ==> (k1 == k2 && trim(l1).len()
            != 0 && trim(l2).len() != 0 && editor::lines_parse(seq![l1], version) is Ok ==> (editor::lines_parse(seq![l1, l2], version) matches Err(e)
            && e == Error { line_index: 1, error: EditorError::DuplicateField }))),
{
    assert(seq![l1].drop_last() =~= Seq::<Seq<char>>::empty());
    assert(seq![l1, l2].drop_last() =~= seq![l1]);
    assert(seq![l1].last() == l1);
    assert(seq![l1, l2].last() == l2);
    assert(editor::lines_parse(Seq::<Seq<char>>::empty(), version) is Ok);
    if let Some((k1, _, _)) = colon_line(l1) {
        if let Ok((_, seen)) = editor::lines_parse(seq![l1], version) {
            if trim(l1).len() != 0 {
                let k = editor::key_index(k1)->Some_0;
                assert(seen == Seq::<usize>::empty().push(k as usize));
                assert(seen[0] == k as usize);
            }
        }
    }
}

/// In the [Metadata] section a line that is not `key: value` is refused as
/// such, a key that is none of the section's is refused as unknown, and a
/// key given a second time is refused as a duplicate, each at its line.
pub proof fn law_metadata_line_errors(l1: Seq<char>, l2: Seq<char>, version: Version)
    ensures
        trim(l1).len() != 0 && colon_line(l1) is None ==> (metadata::lines_parse(seq![l1], version) matches Err(e)
            && e == Error { line_index: 0, error: MetadataError::InvalidColonSet }),
        trim(l1).len() != 0 ==> (colon_line(l1) matches Some((key, _, _)) ==> (metadata::key_index(key) is None <==> (metadata::lines_parse(
            seq![l1],
            version,
        ) matches Err(e) && e == Error { line_index: 0, error: MetadataError::InvalidKey }))),
        colon_line(l1) matches Some((k1, _, _)) ==> (colon_line(l2) matches Some((k2, _, _)) ==> (k1 == k2 && trim(l1).len()
            != 0 && trim(l2).len() != 0 && metadata::lines_parse(seq![l1], version) is Ok ==> (metadata::lines_parse(seq![l1, l2], version) matches Err(e)
            && e == Error { line_index: 1, error: MetadataError::DuplicateField }))),
{
    assert(seq![l1].drop_last() =~= Seq::<Seq<char>>::empty());
    assert(seq![l1, l2].drop_last() =~= seq![l1]);
    assert(seq![l1].last() == l1);
    assert(seq![l1, l2].last() == l2);
    assert(metadata::lines_parse(Seq::<Seq<char>>::empty(), version) is Ok);
    if let Some((k1, _, _)) = colon_line(l1) {
        if let Ok((_, seen)) = metadata::lines_parse(seq![l1], version) {
            if trim(l1).len() != 0 {
                let k = metadata::key_index(k1)->Some_0;
                assert(seen == Seq::<usize>::empty().push(k as usize));
                assert(seen[0] == k as usize);
            }
        }
    }
}

/// In the [Difficulty] section a line that is not `key: value` is refused as
/// such, a key that is none of the section's is refused as unknown, and a
/// key given a second time is refused as a duplicate, each at its line.
pub proof fn law_difficulty_line_errors(l1: Seq<char>, l2: Seq<char>, version: Version)
    ensures
        trim(l1).len() != 0 && colon_line(l1) is None ==> (difficulty::lines_parse(seq![l1], version) matches Err(e)
            && e == Error { line_index: 0, error: DifficultyError::InvalidColonSet }),
        trim(l1).len() != 0 ==> (colon_line(l1) matches Some((key, _, _)) ==> (difficulty::key_index(key) is None <==> (difficulty::lines_parse(
            seq![l1],
            version,
        ) matches Err(e) && e == Error { line_index: 0, error: DifficultyError::InvalidKey }))),
        colon_line(l1) matches Some((k1, _, _)) ==> (colon_line(l2) matches Some((k2, _, _)) ==> (k1 == k2 && trim(l1).len()
            != 0 && trim(l2).len() != 0 && difficulty::lines_parse(seq![l1], version) is Ok ==> (difficulty::lines_parse(seq![l1, l2], version) matches Err(e)
            && e == Error { line_index: 1, error: DifficultyError::DuplicateField }))),
{
    assert(seq![l1].drop_last() =~= Seq::<Seq<char>>::empty());
    assert(seq![l1, l2].drop_last() =~= seq![l1]);
    assert(seq![l1].last() == l1);
    assert(seq![l1, l2].last() == l2);
    assert(difficulty::lines_parse(Seq::<Seq<char>>::empty(), version) is Ok);
    if let Some((k1, _, _)) = colon_line(l1) {
        if let Ok((_, seen)) = difficulty::lines_parse(seq![l1], version) {
            if trim(l1).len() != 0 {
                let k = difficulty::key_index(k1)->Some_0;
                assert(seen == Seq::<usize>::empty().push(k as usize));
                assert(seen[0] == k as usize);
            }
        }
    }
}

} // verus!
