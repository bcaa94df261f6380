use media_tags::media::{DiskReport, Media, SaveStep, Timestamp};
use media_tags::xmp::{read_date, read_tags, write_tags, DATE_TIME_ORIGINAL, DUBLIN_CORE, EXIF, SUBJECT};
use media_tags::{Tag, TagError};
use std::path::PathBuf;
use std::time::{Duration, SystemTime};
use xmp_toolkit::{xmp_ns, XmpDate, XmpDateTime, XmpMeta, XmpTime, XmpTimeZone, XmpValue};

fn tag(text: &str) -> Tag {
    Tag::new(text.to_string())
}

fn tags(texts: &[&str]) -> Vec<Tag> {
    texts.iter().map(|text| tag(text)).collect()
}

fn at(seconds: u64) -> SystemTime {
    SystemTime::UNIX_EPOCH + Duration::from_secs(seconds)
}

fn block(texts: &[&str]) -> XmpMeta {
    let mut xmp = XmpMeta::new().unwrap();
    for text in texts {
        xmp.append_array_item(
            xmp_ns::DC,
            &XmpValue::new("dc:subject".to_string()).set_is_array(true),
            &XmpValue::new(text.to_string()),
        )
        .unwrap();
    }
    xmp
}

fn media(texts: &[&str]) -> Media {
    let report = DiskReport { xmp: Some(block(texts)), modified: at(100) };
    Media::new(PathBuf::from("/pictures/a.jpg"), Some(report)).unwrap()
}

fn untaggable() -> Media {
    let report = DiskReport { xmp: None, modified: at(100) };
    Media::new(PathBuf::from("/pictures/a.txt"), Some(report)).unwrap()
}

fn held(media: &Media) -> Vec<String> {
    media.tags().unwrap().iter().map(|tag| tag.to_string()).collect()
}

#[test]
fn names_of_the_schemas_are_the_toolkits() {
    assert_eq!(DUBLIN_CORE, xmp_ns::DC);
    assert_eq!(EXIF, xmp_ns::EXIF);
    assert_eq!(SUBJECT, "dc:subject");
    assert_eq!(DATE_TIME_ORIGINAL, "DateTimeOriginal");
}

#[test]
fn load_reports_a_missing_path_as_file_missing() {
    let failed = Media::load(PathBuf::from("/nowhere"), None);
    assert_eq!(failed.err(), Some(TagError::FileMissing));
}

#[test]
fn load_gives_the_entity_of_what_was_found() {
    let report = DiskReport { xmp: Some(block(&["a", "b"])), modified: at(7) };
    let loaded = Media::load(PathBuf::from("/pictures/b.jpg"), Some(report)).unwrap();
    assert_eq!(loaded.path(), &PathBuf::from("/pictures/b.jpg"));
    assert_eq!(held(&loaded), vec!["a", "b"]);
    assert_eq!(loaded.date(), None);
    assert_eq!(loaded.was_updated_on_disk(Some(at(7))), Ok(false));
    let plain = Media::load(PathBuf::from("c.txt"), Some(DiskReport { xmp: None, modified: at(7) }));
    assert!(!plain.unwrap().supports_tags());
}

#[test]
fn new_gives_nothing_for_a_missing_path() {
    assert!(Media::new(PathBuf::from("/nowhere"), None).is_none());
}

#[test]
fn new_loads_path_tags_and_watermark() {
    let loaded = media(&["tree", "nature:tree/person:john"]);
    assert_eq!(loaded.path(), &PathBuf::from("/pictures/a.jpg"));
    assert_eq!(held(&loaded), vec!["tree", "nature:tree/person:john"]);
    assert!(loaded.supports_tags());
    assert_eq!(loaded.date(), None);
    assert_eq!(loaded.was_updated_on_disk(Some(at(100))).unwrap(), false);
}

#[test]
fn a_block_without_tags_still_supports_tagging() {
    let loaded = media(&[]);
    assert!(loaded.supports_tags());
    assert_eq!(held(&loaded), Vec::<String>::new());
}

#[test]
fn a_file_without_block_does_not_support_tagging() {
    let mut plain = untaggable();
    assert!(!plain.supports_tags());
    assert!(plain.tags().is_none());
    assert_eq!(plain.date(), None);
    assert!(!plain.has_tag(tag("tree")));
    assert_eq!(plain.add_tag(tag("tree")), Err(TagError::TagsNotSupported));
    assert_eq!(plain.remove_tag(tag("tree")), Err(TagError::TagsNotSupported));
    assert!(plain.tags().is_none());
    let mut xmp = block(&["old"]);
    assert_eq!(plain.save(&mut xmp), Err(TagError::TagsNotSupported));
    assert_eq!(read_tags(&xmp), tags(&["old"]));
}

#[test]
fn date_is_read_with_its_offset() {
    let mut xmp = block(&[]);
    let written = XmpDateTime {
        date: Some(XmpDate { year: 2022, month: 11, day: 5 }),
        time: Some(XmpTime {
            hour: 14,
            minute: 40,
            second: 35,
            nanosecond: 7,
            time_zone: Some(XmpTimeZone { hour: -8, minute: 0 }),
        }),
    };
    xmp.set_property_date(xmp_ns::EXIF, "DateTimeOriginal", &XmpValue::new(written)).unwrap();
    let wanted = Timestamp { seconds: 1667688035, nanos: 7, offset: -8 * 3600 };
    assert_eq!(read_date(&xmp), Some(wanted));
    let report = DiskReport { xmp: Some(xmp), modified: at(1) };
    let loaded = Media::new(PathBuf::from("a.jpg"), Some(report)).unwrap();
    assert_eq!(loaded.date(), Some(wanted));
}

#[test]
fn date_without_time_zone_is_absent() {
    let mut xmp = block(&[]);
    let written = XmpDateTime {
        date: Some(XmpDate { year: 2022, month: 11, day: 5 }),
        time: None,
    };
    xmp.set_property_date(xmp_ns::EXIF, "DateTimeOriginal", &XmpValue::new(written)).unwrap();
    assert_eq!(read_date(&xmp), None);
    assert_eq!(read_date(&block(&["a"])), None);
}

#[test]
fn add_tag_appends() {
    let mut loaded = media(&["a"]);
    assert_eq!(loaded.add_tag(tag("b")), Ok(()));
    assert_eq!(held(&loaded), vec!["a", "b"]);
    assert!(loaded.has_tag(tag("b")));
}

#[test]
fn add_tag_drops_an_adjacent_duplicate() {
    let mut loaded = media(&["a"]);
    loaded.add_tag(tag("a")).unwrap();
    assert_eq!(held(&loaded), vec!["a"]);
}

#[test]
fn add_tag_drops_every_adjacent_duplicate_of_the_list() {
    let mut loaded = media(&["a", "a", "b", "b", "a"]);
    loaded.add_tag(tag("c")).unwrap();
    assert_eq!(held(&loaded), vec!["a", "b", "a", "c"]);
}

#[test]
fn adding_a_tag_again_after_another_keeps_both_copies() {
    let mut loaded = media(&[]);
    loaded.add_tag(tag("a")).unwrap();
    loaded.add_tag(tag("b")).unwrap();
    loaded.add_tag(tag("a")).unwrap();
    assert_eq!(held(&loaded), vec!["a", "b", "a"]);
}

#[test]
fn add_then_remove_leaves_the_tags_as_they_were() {
    let mut loaded = media(&["x", "y", "z"]);
    loaded.add_tag(tag("new")).unwrap();
    assert_eq!(loaded.remove_tag(tag("new")), Ok(()));
    assert_eq!(held(&loaded), vec!["x", "y", "z"]);
}

#[test]
fn add_then_remove_keeps_the_dedup_of_earlier_repeats() {
    let mut loaded = media(&["a", "a"]);
    loaded.add_tag(tag("b")).unwrap();
    loaded.remove_tag(tag("b")).unwrap();
    assert_eq!(held(&loaded), vec!["a"]);
}

#[test]
fn remove_tag_takes_the_first_occurrence_only() {
    let mut loaded = media(&["a", "b", "a", "c"]);
    assert_eq!(loaded.remove_tag(tag("a")), Ok(()));
    assert_eq!(held(&loaded), vec!["b", "a", "c"]);
}

#[test]
fn remove_tag_fails_for_a_tag_that_is_not_held() {
    let mut loaded = media(&["nature:tree"]);
    assert_eq!(loaded.remove_tag(tag("tree")), Err(TagError::TagMissing));
    assert_eq!(held(&loaded), vec!["nature:tree"]);
}

#[test]
fn has_tag_goes_by_the_whole_string() {
    let loaded = media(&["nature:tree", "b"]);
    assert!(loaded.has_tag(tag("nature:tree")));
    assert!(loaded.has_tag(tag("b")));
    assert!(!loaded.has_tag(tag("tree")));
    assert!(!loaded.has_tag(tag("")));
}

#[test]
fn update_replaces_tags_date_and_watermark_together() {
    let mut loaded = media(&["a"]);
    let report = DiskReport { xmp: Some(block(&["b", "c"])), modified: at(200) };
    assert_eq!(loaded.update(Some(report)), Ok(()));
    assert_eq!(held(&loaded), vec!["b", "c"]);
    assert_eq!(loaded.was_updated_on_disk(Some(at(200))), Ok(false));
    assert_eq!(loaded.was_updated_on_disk(Some(at(100))), Ok(true));
    assert_eq!(loaded.path(), &PathBuf::from("/pictures/a.jpg"));
}

#[test]
fn update_to_a_file_without_block_drops_tag_support() {
    let mut loaded = media(&["a"]);
    let report = DiskReport { xmp: None, modified: at(200) };
    assert_eq!(loaded.update(Some(report)), Ok(()));
    assert!(!loaded.supports_tags());
}

#[test]
fn update_fails_and_changes_nothing_when_the_file_is_gone() {
    let mut loaded = media(&["a"]);
    assert_eq!(loaded.update(None), Err(TagError::FileMissing));
    assert_eq!(held(&loaded), vec!["a"]);
    assert_eq!(loaded.was_updated_on_disk(Some(at(100))), Ok(false));
}

#[test]
fn staleness_is_a_difference_of_modification_times() {
    let loaded = media(&["a"]);
    assert_eq!(loaded.was_updated_on_disk(Some(at(100))), Ok(false));
    assert_eq!(loaded.was_updated_on_disk(Some(at(101))), Ok(true));
    assert_eq!(loaded.was_updated_on_disk(Some(at(99))), Ok(true));
    assert_eq!(loaded.was_updated_on_disk(None), Err(TagError::FileMissing));
}

#[test]
fn save_rewrites_the_tags_of_a_block_in_order() {
    let mut loaded = media(&["a"]);
    loaded.add_tag(tag("nature:tree/person:john")).unwrap();
    loaded.add_tag(tag("b")).unwrap();
    let mut xmp = block(&["stale", "older"]);
    assert_eq!(loaded.save(&mut xmp), Ok(()));
    assert_eq!(read_tags(&xmp), tags(&["a", "nature:tree/person:john", "b"]));
}

#[test]
fn save_into_a_block_without_tags_creates_them() {
    let loaded = media(&["a", "b"]);
    let mut xmp = XmpMeta::new().unwrap();
    assert_eq!(loaded.save(&mut xmp), Ok(()));
    assert_eq!(read_tags(&xmp), tags(&["a", "b"]));
    assert!(xmp.contains_property(xmp_ns::DC, "dc:subject"));
}

#[test]
fn save_of_no_tags_clears_the_block() {
    let loaded = media(&[]);
    let mut xmp = block(&["stale"]);
    assert_eq!(loaded.save(&mut xmp), Ok(()));
    assert_eq!(read_tags(&xmp), Vec::<Tag>::new());
}

#[test]
fn write_tags_stores_control_characters_as_spaces() {
    let mut xmp = XmpMeta::new().unwrap();
    let written = tags(&["a\u{1}b", "tab\tstays", "del\u{7f}", "", "line\nbreak\r"]);
    assert_eq!(write_tags(&mut xmp, &written), Ok(()));
    assert_eq!(read_tags(&xmp), tags(&["a b", "tab\tstays", "del ", "", "line\nbreak\r"]));
}

#[test]
fn write_tags_reports_a_refused_item_as_a_save_error() {
    let mut xmp = XmpMeta::new().unwrap();
    assert_eq!(write_tags(&mut xmp, &tags(&["a", "nul\0inside"])), Err(TagError::OtherSaveError));
    let mut other = XmpMeta::new().unwrap();
    assert_eq!(write_tags(&mut other, &tags(&["\u{ffff}"])), Err(TagError::OtherSaveError));
}

#[test]
fn save_fails_where_the_toolkit_refuses_a_tag_and_succeeds_without_it() {
    let mut loaded = media(&["a"]);
    loaded.add_tag(tag("nul\0inside")).unwrap();
    let mut xmp = block(&["stale"]);
    assert_eq!(loaded.save(&mut xmp), Err(TagError::OtherSaveError));
    loaded.remove_tag(tag("nul\0inside")).unwrap();
    let mut fresh = block(&["stale"]);
    assert_eq!(loaded.save(&mut fresh), Ok(()));
    assert_eq!(read_tags(&fresh), tags(&["a"]));
}

#[test]
fn save_steps_map_to_their_errors() {
    assert_eq!(SaveStep::Container.error(), TagError::UwUpsie);
    assert_eq!(SaveStep::Open.error(), TagError::CouldNotReadFile);
    assert_eq!(SaveStep::ReadXmp.error(), TagError::CouldNotReadXMP);
    assert_eq!(SaveStep::Write.error(), TagError::OtherSaveError);
}

#[test]
fn matches_filter_runs_a_program_on_the_tags() {
    let loaded = media(&["nature:tree/person:john", "b"]);
    let program = media_tags::filter::parse("tree AND (b OR c)".to_string()).unwrap();
    assert!(loaded.matches_filter(&program));
    assert_eq!(loaded.try_matches_filter(&program), Some(true));
    assert!(!untaggable().matches_filter(&program));
    let broken = media_tags::filter::parse("a b".to_string()).unwrap();
    assert_eq!(loaded.try_matches_filter(&broken), None);
}
