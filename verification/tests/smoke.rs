use osu_file_parser::events::normal_event::Break;
use osu_file_parser::VersionedToString;

#[test]
fn break_new_writes_short_header() {
    let b = Break::new(100, 200);
    assert_eq!(b.to_string(14).unwrap(), "2,100,200");
}
