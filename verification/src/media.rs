//! A media file as the library holds it in memory: its path, the date and
//! the tags read from its embedded metadata, and the modification time that
//! the file had when they were read.

use std::path::PathBuf;
use std::time::SystemTime;
use vstd::prelude::*;
use xmp_toolkit::XmpMeta;
use crate::error::TagError;
use crate::evaluate::{evaluate, runnable, try_evaluate, verdict};
use crate::filter::Token;
use crate::tag::Tag;
use crate::tag_list::{dedup_tags, find_tag, with_tag, without_tag};
use crate::xmp::{
    filled, read_date, read_tags, stored_date, stored_form, stored_tags, write_tags,
};

verus! {

/// `std::path::PathBuf`, carried through without looking inside.
#[verifier::external_type_specification]
#[verifier::external_body]
pub struct ExPathBuf(PathBuf);

/// `std::time::SystemTime`, carried through without looking inside.
#[verifier::external_type_specification]
#[verifier::external_body]
pub struct ExSystemTime(SystemTime);

/// A date and time with the offset from UTC that it was written with.
#[derive(Debug, Clone, Copy, PartialEq, Eq, Structural)]
pub struct Timestamp {
    /// Seconds since 1970-01-01 00:00:00 UTC.
    pub seconds: i64,
    /// Nanoseconds within the second.
    pub nanos: u32,
    /// Seconds that local time is ahead of UTC.
    pub offset: i32,
}

/// A file on disk, with the tags and the date found in it.
///
/// `tags` is `None` for a file that cannot hold tags, which is not the same
/// as a file that holds none.
#[derive(Debug)]
pub struct Media {
    pub(crate) path: PathBuf,
    pub(crate) date: Option<Timestamp>,
    pub(crate) tags: Option<Vec<Tag>>,
    pub(crate) modified: SystemTime,
}

/// What was found on disk at a path that exists: the metadata block of the
/// file, if one could be read from it, and the time of its last change.
pub struct DiskReport {
    pub xmp: Option<XmpMeta>,
    pub modified: SystemTime,
}

/// The step of saving at which the metadata store failed.
#[derive(Debug, Clone, Copy, PartialEq, Eq, Structural)]
pub enum SaveStep {
    /// The container for the file's metadata could not be made.
    Container,
    /// The file could not be opened for update.
    Open,
    /// The file holds no metadata block that can be read.
    ReadXmp,
    /// The metadata block could not be written back.
    Write,
}

/// The mathematical value of a `Media`: each tag is the sequence of its
/// characters.
pub struct MediaView {
    pub path: PathBuf,
    pub date: Option<Timestamp>,
    pub tags: Option<Seq<Seq<char>>>,
    pub modified: SystemTime,
}

impl View for Media {
    type V = MediaView;

    closed spec fn view(&self) -> MediaView {
        MediaView {
            path: self.path,
            date: self.date,
            tags: self.tags.deep_view(),
            modified: self.modified,
        }
    }
}

impl DeepView for Media {
    type V = MediaView;

    open spec fn deep_view(&self) -> MediaView {
        self@
    }
}

/// What a `Media` holds once it is loaded from a report: the tags and the
/// date of the block and the time of the report. Without a block the file
/// cannot hold tags and has no date.
pub open spec fn loaded(path: PathBuf, report: DiskReport) -> MediaView {
    MediaView {
        path,
        date: match report.xmp {
            Some(xmp) => stored_date(xmp),
            None => None,
        },
        tags: match report.xmp {
            Some(xmp) => Some(stored_tags(xmp)),
            None => None,
        },
        modified: report.modified,
    }
}

/// The error that a failed step of saving is reported as.
pub open spec fn save_error(step: SaveStep) -> TagError {
    match step {
        SaveStep::Container => TagError::UwUpsie,
        SaveStep::Open => TagError::CouldNotReadFile,
        SaveStep::ReadXmp => TagError::CouldNotReadXMP,
        SaveStep::Write => TagError::OtherSaveError,
    }
}

/// Calls `==` of `std::time::SystemTime`. Trusted: two times compare equal
/// exactly when they are the same time.
#[verifier::external_body]
fn same_time(left: &SystemTime, right: &SystemTime) -> (same: bool)
    ensures
        same == (*left == *right),
{
    left == right
}

impl Media {
    /// The path of the file.
    pub fn path(&self) -> (path: &PathBuf)
        ensures
            *path == self@.path,
    {
        &self.path
    }

    /// The date found in the file's metadata, if any.
    pub fn date(&self) -> (date: Option<Timestamp>)
        ensures
            date == self@.date,
    {
        self.date
    }

    /// The tags in order, or `None` if the file cannot hold tags.
    pub fn tags(&self) -> (tags: Option<&Vec<Tag>>)
        ensures
            tags.deep_view() == self@.tags,
    {
        match &self.tags {
            Some(tags) => Some(tags),
            None => None,
        }
    }

    /// Whether the file can hold tags.
    pub fn supports_tags(&self) -> (supported: bool)
        ensures
            supported == self@.tags is Some,
    {
        self.tags.is_some()
    }

    /// Adds a tag at the end, then drops every tag that repeats the one just
    /// before it. Fails with `TagsNotSupported`, changing nothing, if the
    /// file cannot hold tags.
    pub fn add_tag(&mut self, new_tag: Tag) -> (result: Result<(), TagError>)
        ensures
            match old(self)@.tags {
                Some(tags) => result == Ok::<(), TagError>(()) && final(self)@ == (MediaView {
                    tags: Some(with_tag(tags, new_tag@)),
                    ..old(self)@
                }),
                None => result == Err::<(), TagError>(TagError::TagsNotSupported) && final(self)@
                    == old(self)@,
            },
    {
        match self.tags.take() {
            Some(mut tags) => {
                let ghost before = tags.deep_view();
                tags.push(new_tag);
                proof {
                    assert(tags.deep_view() =~= before.push(new_tag@));
                }
                self.tags = Some(dedup_tags(tags));
                Ok(())
            },
            None => Err(TagError::TagsNotSupported),
        }
    }

    /// Removes the first occurrence of a tag. Fails, changing nothing, with
    /// `TagsNotSupported` if the file cannot hold tags and with `TagMissing`
    /// if it does not hold this one.
    pub fn remove_tag(&mut self, tag_to_remove: Tag) -> (result: Result<(), TagError>)
        ensures
            match old(self)@.tags {
                Some(tags) => if tags.contains(tag_to_remove@) {
                    result == Ok::<(), TagError>(()) && final(self)@ == (MediaView {
                        tags: Some(without_tag(tags, tag_to_remove@)),
                        ..old(self)@
                    })
                } else {
                    result == Err::<(), TagError>(TagError::TagMissing) && final(self)@ == old(
                        self,
                    )@
                },
                None => result == Err::<(), TagError>(TagError::TagsNotSupported) && final(self)@
                    == old(self)@,
            },
    {
        match &mut self.tags {
            Some(tags) => {
                let ghost before = tags.deep_view();
                match find_tag(tags, &tag_to_remove) {
                    Some(index) => {
                        tags.remove(index);
                        proof {
                            assert(tags.deep_view() =~= before.remove(index as int));
                        }
                        Ok(())
                    },
                    None => Err(TagError::TagMissing),
                }
            },
            None => Err(TagError::TagsNotSupported),
        }
    }

    /// Whether the file holds exactly this tag, namespaces included.
    pub fn has_tag(&self, tag_to_search: Tag) -> (found: bool)
        ensures
            found == match self@.tags {
                Some(tags) => tags.contains(tag_to_search@),
                None => false,
            },
    {
        match &self.tags {
            Some(tags) => find_tag(tags, &tag_to_search).is_some(),
            None => false,
        }
    }
}

impl SaveStep {
    /// The error that a failure at this step is reported as.
    pub fn error(self) -> (error: TagError)
        ensures
            error == save_error(self),
    {
        match self {
            SaveStep::Container => TagError::UwUpsie,
            SaveStep::Open => TagError::CouldNotReadFile,
            SaveStep::ReadXmp => TagError::CouldNotReadXMP,
            SaveStep::Write => TagError::OtherSaveError,
        }
    }
}

impl Media {
    /// Loads the entity of a path from what was found on disk there.
    /// `None` for the report stands for a path that is missing or
    /// inaccessible: loading fails with `FileMissing`.
    pub fn load(path: PathBuf, report: Option<DiskReport>) -> (result: Result<Media, TagError>)
        ensures
            match report {
                Some(found) => result is Ok && result.unwrap()@ == loaded(path, found),
                None => result == Err::<Media, TagError>(TagError::FileMissing),
            },
    {
        match report {
            Some(found) => {
                let modified = found.modified;
                match found.xmp {
                    Some(xmp) => {
                        let tags = read_tags(&xmp);
                        let date = read_date(&xmp);
                        Ok(Media { path, date, tags: Some(tags), modified })
                    },
                    None => Ok(Media { path, date: None, tags: None, modified }),
                }
            },
            None => Err(TagError::FileMissing),
        }
    }

    /// Creates the entity of a path from what was found on disk there, or
    /// gives `None` where loading fails.
    pub fn new(path: PathBuf, report: Option<DiskReport>) -> (media: Option<Media>)
        ensures
            match report {
                Some(found) => media is Some && media.unwrap()@ == loaded(path, found),
                None => media is None,
            },
    {
        match Media::load(path, report) {
            Ok(media) => Some(media),
            Err(_) => None,
        }
    }

    /// Brings date, tags and modification time up to what was found on
    /// disk, all three at once. `None` for the report stands for a path that
    /// has vanished: this fails with `FileMissing` and changes nothing.
    pub fn update(&mut self, report: Option<DiskReport>) -> (result: Result<(), TagError>)
        ensures
            match report {
                Some(found) => result == Ok::<(), TagError>(()) && final(self)@ == loaded(
                    old(self)@.path,
                    found,
                ),
                None => result == Err::<(), TagError>(TagError::FileMissing) && final(self)@
                    == old(self)@,
            },
    {
        match report {
            Some(found) => {
                match found.xmp {
                    Some(xmp) => {
                        self.tags = Some(read_tags(&xmp));
                        self.date = read_date(&xmp);
                    },
                    None => {
                        self.tags = None;
                        self.date = None;
                    },
                }
                self.modified = found.modified;
                Ok(())
            },
            None => Err(TagError::FileMissing),
        }
    }

    /// Whether the file has changed on disk since it was loaded: whether
    /// its modification time now differs from the one kept at the last
    /// load. `None` for the time stands for a path that has vanished and
    /// fails with `FileMissing`. Nothing is refreshed.
    pub fn was_updated_on_disk(&self, live: Option<SystemTime>) -> (result: Result<bool, TagError>)
        ensures
            result == match live {
                Some(modified) => Ok::<bool, TagError>(modified != self@.modified),
                None => Err::<bool, TagError>(TagError::FileMissing),
            },
    {
        match live {
            Some(modified) => Ok(!same_time(&self.modified, &modified)),
            None => Err(TagError::FileMissing),
        }
    }

    /// Writes the tags into a metadata block, in place of those it holds.
    /// Fails with `TagsNotSupported`, leaving the block alone, if the file
    /// cannot hold tags. Else this succeeds exactly where the toolkit accepts
    /// every step of clearing and filling the block, and then the block
    /// holds exactly the tags of this entity, in their order, each in the
    /// form in which the toolkit stores it; where the toolkit refuses a step
    /// the error is `OtherSaveError`.
    pub fn save(&self, xmp: &mut XmpMeta) -> (result: Result<(), TagError>)
        ensures
            match self@.tags {
                Some(tags) => {
                    &&& result is Ok <==> filled(*old(xmp), tags) is Some
                    &&& result is Ok ==> *final(xmp) == filled(*old(xmp), tags).unwrap()
                    &&& result is Ok ==> stored_tags(*final(xmp)) == stored_form(tags)
                    &&& result is Err ==> result == Err::<(), TagError>(TagError::OtherSaveError)
                },
                None => result == Err::<(), TagError>(TagError::TagsNotSupported) && *final(xmp)
                    == *old(xmp),
            },
    {
        match &self.tags {
            Some(tags) => write_tags(xmp, tags),
            None => Err(TagError::TagsNotSupported),
        }
    }

    /// Whether the file passes a filter: the verdict of the program on the
    /// file's tags. The program must be runnable on them;
    /// `try_matches_filter` tests that first.
    pub fn matches_filter(&self, fltr: &Vec<Token>) -> (passes: bool)
        requires
            runnable(fltr.deep_view(), self@.tags),
        ensures
            passes == verdict(fltr.deep_view(), self@.tags),
    {
        evaluate(fltr, self.tags())
    }

    /// Whether the file passes a filter, or `None` where the program cannot
    /// be run on the file's tags.
    pub fn try_matches_filter(&self, fltr: &Vec<Token>) -> (passes: Option<bool>)
        ensures
            passes == if runnable(fltr.deep_view(), self@.tags) {
                Some(verdict(fltr.deep_view(), self@.tags))
            } else {
                None
            },
    {
        try_evaluate(fltr, self.tags())
    }
}

} // verus!
