//! The embedded metadata of a file, as the XMP toolkit holds it in memory.
//!
//! The toolkit is the `xmp_toolkit` crate. The library reads the tags and
//! the date out of a metadata block and writes the tags back into one; it
//! never opens a file itself. What the toolkit's calls do is taken on
//! trust from its source and stated over names for what a block holds.

use vstd::prelude::*;
use xmp_toolkit::{XmpError, XmpMeta, XmpValue};
use crate::error::TagError;
use crate::media::Timestamp;
use crate::tag::Tag;

verus! {

/// `xmp_toolkit::XmpMeta`, a metadata block. Opaque: what it holds, and
/// what the toolkit does to it, is spoken of through the names below.
#[verifier::external_type_specification]
#[verifier::external_body]
pub struct ExXmpMeta(XmpMeta);

/// `xmp_toolkit::XmpError`, the toolkit's error. Opaque.
#[verifier::external_type_specification]
#[verifier::external_body]
pub struct ExXmpError(XmpError);

/// The namespace of the Dublin Core schema, which holds the tags.
pub const DUBLIN_CORE: &'static str = "http://purl.org/dc/elements/1.1/";

/// The namespace of the Exif schema, which holds the date.
pub const EXIF: &'static str = "http://ns.adobe.com/exif/1.0/";

/// The array property that holds the tags.
pub const SUBJECT: &'static str = "dc:subject";

/// The property that holds the date at which the file was made.
pub const DATE_TIME_ORIGINAL: &'static str = "DateTimeOriginal";

/// The items of an array property of a block, in index order, as
/// `XmpMeta::property_array` yields them. The namespaces that the library
/// reads are registered by the toolkit itself, so what is found does not
/// depend on what else a process has registered.
pub uninterp spec fn xmp_array(xmp: XmpMeta, namespace: Seq<char>, name: Seq<char>) -> Seq<
    Seq<char>,
>;

/// The date that `XmpMeta::property_date` reads from a property of a
/// block, where it converts to a `chrono::DateTime<FixedOffset>`.
pub uninterp spec fn xmp_date(xmp: XmpMeta, namespace: Seq<char>, name: Seq<char>) -> Option<
    Timestamp,
>;

/// Whether the toolkit replaces a character by a space when it stores a
/// value: the ASCII control characters other than tab, line feed and
/// carriage return, and the delete character.
pub open spec fn is_blanked(c: char) -> bool {
    (c as u32) < 0x20 && c != '\t' && c != '\n' && c != '\r' || c as u32 == 0x7f
}

/// The form in which the toolkit stores a value.
pub open spec fn stored_text(text: Seq<char>) -> Seq<char> {
    text.map_values(|c: char| if is_blanked(c) { ' ' } else { c })
}

/// Whether a property is one that the library reads or writes: the tags
/// or the date. Both are plain names, not paths into an array or a
/// structure, in namespaces that the toolkit registers itself. The
/// toolkit is asked for nothing else.
pub open spec fn is_known_property(namespace: Seq<char>, name: Seq<char>) -> bool {
    ||| namespace == DUBLIN_CORE@ && name == SUBJECT@
    ||| namespace == EXIF@ && name == DATE_TIME_ORIGINAL@
}

/// Whether a block holds a property, as `XmpMeta::contains_property`
/// reports it.
pub uninterp spec fn xmp_contains(xmp: XmpMeta, namespace: Seq<char>, name: Seq<char>) -> bool;

/// Whether `XmpMeta::delete_property` reports success on a block.
pub uninterp spec fn xmp_deletes(xmp: XmpMeta, namespace: Seq<char>, name: Seq<char>) -> bool;

/// The block that `XmpMeta::delete_property` leaves where it succeeds.
pub uninterp spec fn xmp_deleted(xmp: XmpMeta, namespace: Seq<char>, name: Seq<char>) -> XmpMeta;

/// Whether `XmpMeta::append_array_item` reports success on a block.
pub uninterp spec fn xmp_appends(
    xmp: XmpMeta,
    namespace: Seq<char>,
    name: Seq<char>,
    item: Seq<char>,
) -> bool;

/// The block that `XmpMeta::append_array_item` leaves where it succeeds.
pub uninterp spec fn xmp_appended(
    xmp: XmpMeta,
    namespace: Seq<char>,
    name: Seq<char>,
    item: Seq<char>,
) -> XmpMeta;

/// Calls `XmpMeta::property_array` and collects the value of each item.
/// Trusted: the items are the toolkit's, in its order.
#[verifier::external_body]
pub(crate) fn array_items(xmp: &XmpMeta, namespace: &str, name: &str) -> (items: Vec<String>)
    requires
        is_known_property(namespace@, name@),
    ensures
        items.deep_view() == xmp_array(*xmp, namespace@, name@),
{
    xmp.property_array(namespace, name).map(|item| item.value).collect()
}

/// Calls `XmpMeta::contains_property`. Trusted: the answer is the
/// toolkit's, and a property that it does not find has no items.
#[verifier::external_body]
pub(crate) fn contains_property(xmp: &XmpMeta, namespace: &str, name: &str) -> (present: bool)
    requires
        is_known_property(namespace@, name@),
    ensures
        present == xmp_contains(*xmp, namespace@, name@),
        !present ==> xmp_array(*xmp, namespace@, name@).len() == 0,
{
    xmp.contains_property(namespace, name)
}

/// Calls `XmpMeta::delete_property`. Trusted: whether the toolkit reports
/// success, and the block that it leaves then, depend on the block and the
/// property alone; on success the property is gone, and with it its items.
#[verifier::external_body]
pub(crate) fn delete_property(xmp: &mut XmpMeta, namespace: &str, name: &str) -> (done: Result<
    (),
    XmpError,
>)
    requires
        is_known_property(namespace@, name@),
    ensures
        done is Ok <==> xmp_deletes(*old(xmp), namespace@, name@),
        done is Ok ==> *final(xmp) == xmp_deleted(*old(xmp), namespace@, name@),
        done is Ok ==> xmp_array(*final(xmp), namespace@, name@).len() == 0,
{
    xmp.delete_property(namespace, name)
}

/// Calls `XmpMeta::append_array_item` with a plain item for an array that
/// is created as an unordered one if it is not there. Trusted: whether the
/// toolkit reports success, and the block that it leaves then, depend on
/// the block, the property and the item alone; on success the array has one
/// more item at its end, the value in the form in which the toolkit stores
/// it.
#[verifier::external_body]
pub(crate) fn append_array_item(xmp: &mut XmpMeta, namespace: &str, name: &str, item: &str) -> (done:
    Result<(), XmpError>)
    requires
        is_known_property(namespace@, name@),
    ensures
        done is Ok <==> xmp_appends(*old(xmp), namespace@, name@, item@),
        done is Ok ==> *final(xmp) == xmp_appended(*old(xmp), namespace@, name@, item@),
        done is Ok ==> xmp_array(*final(xmp), namespace@, name@) == xmp_array(
            *old(xmp),
            namespace@,
            name@,
        ).push(stored_text(item@)),
{
    xmp.append_array_item(
        namespace,
        &XmpValue::new(name.to_string()).set_is_array(true),
        &XmpValue::new(item.to_string()),
    )
}

/// Calls `XmpMeta::property_date`, converts what it finds with the
/// toolkit's `TryFrom` to a `chrono::DateTime<FixedOffset>`, and takes the
/// seconds, nanoseconds and offset out of that. Trusted: the date is the
/// toolkit's; `None` where the property is missing or does not convert.
#[verifier::external_body]
pub(crate) fn date_property(xmp: &XmpMeta, namespace: &str, name: &str) -> (date: Option<Timestamp>)
    requires
        is_known_property(namespace@, name@),
    ensures
        date == xmp_date(*xmp, namespace@, name@),
{
    let found = xmp.property_date(namespace, name)?.value;
    let date = chrono::DateTime::<chrono::FixedOffset>::try_from(found).ok()?;
    Some(
        Timestamp {
            seconds: date.timestamp(),
            nanos: date.timestamp_subsec_nanos(),
            offset: date.offset().local_minus_utc(),
        },
    )
}

/// The tags that a block holds.
pub open spec fn stored_tags(xmp: XmpMeta) -> Seq<Seq<char>> {
    xmp_array(xmp, DUBLIN_CORE@, SUBJECT@)
}

/// The date that a block holds, if any.
pub open spec fn stored_date(xmp: XmpMeta) -> Option<Timestamp> {
    xmp_date(xmp, EXIF@, DATE_TIME_ORIGINAL@)
}

/// The tags as the toolkit stores them: each in its stored form.
pub open spec fn stored_form(tags: Seq<Seq<char>>) -> Seq<Seq<char>> {
    tags.map_values(|tag: Seq<char>| stored_text(tag))
}

/// Reads the tags of a block, in order.
pub fn read_tags(xmp: &XmpMeta) -> (tags: Vec<Tag>)
    ensures
        tags.deep_view() == stored_tags(*xmp),
{
    let items = array_items(xmp, DUBLIN_CORE, SUBJECT);
    let ghost all = items.deep_view();
    let mut tags: Vec<Tag> = Vec::new();
    for item in it: items
        invariant
            it.seq().len() == all.len(),
            forall|k: int| 0 <= k < all.len() ==> (#[trigger] it.seq()[k])@ == all[k],
            tags.deep_view() == all.take(it.index() as int),
    {
        let ghost before = tags.deep_view();
        let tag = Tag::new(item);
        tags.push(tag);
        proof {
            assert(tags.deep_view() =~= before.push(all[before.len() as int]));
        }
    }
    tags
}

/// Reads the date of a block, if it holds one.
pub fn read_date(xmp: &XmpMeta) -> (date: Option<Timestamp>)
    ensures
        date == stored_date(*xmp),
{
    date_property(xmp, EXIF, DATE_TIME_ORIGINAL)
}

/// The block with its tags cleared: as it is if it holds none, else what
/// deleting them leaves. `None` where the toolkit refuses to delete them.
pub open spec fn cleared(xmp: XmpMeta) -> Option<XmpMeta> {
    if !xmp_contains(xmp, DUBLIN_CORE@, SUBJECT@) {
        Some(xmp)
    } else if xmp_deletes(xmp, DUBLIN_CORE@, SUBJECT@) {
        Some(xmp_deleted(xmp, DUBLIN_CORE@, SUBJECT@))
    } else {
        None
    }
}

/// The block after the tags are appended to it one by one, in their
/// order. `None` where the toolkit refuses one of them.
pub open spec fn appended_all(xmp: XmpMeta, tags: Seq<Seq<char>>) -> Option<XmpMeta>
    decreases tags.len(),
{
    if tags.len() == 0 {
        Some(xmp)
    } else {
        match appended_all(xmp, tags.drop_last()) {
            Some(block) => if xmp_appends(block, DUBLIN_CORE@, SUBJECT@, tags.last()) {
                Some(xmp_appended(block, DUBLIN_CORE@, SUBJECT@, tags.last()))
            } else {
                None
            },
            None => None,
        }
    }
}

/// The block after its tags are replaced by the given ones: cleared, then
/// filled tag by tag. `None` where the toolkit refuses a step.
pub open spec fn filled(xmp: XmpMeta, tags: Seq<Seq<char>>) -> Option<XmpMeta> {
    match cleared(xmp) {
        Some(block) => appended_all(block, tags),
        None => None,
    }
}

/// Where the toolkit refuses one of the first tags, it refuses the whole.
pub proof fn lemma_appended_all_prefix(xmp: XmpMeta, tags: Seq<Seq<char>>, n: int)
    requires
        0 <= n <= tags.len(),
        appended_all(xmp, tags.take(n)) is None,
    ensures
        appended_all(xmp, tags) is None,
    decreases tags.len(),
{
    if n == tags.len() {
        assert(tags.take(n) =~= tags);
    } else {
        assert(tags.drop_last().take(n) =~= tags.take(n));
        lemma_appended_all_prefix(xmp, tags.drop_last(), n);
    }
}

/// Replaces the tags of a block by the given ones, in their order: clears
/// the block of its tags, then appends the given ones one by one. This
/// succeeds exactly where the toolkit accepts every step, and then the
/// block holds exactly these tags, each in its stored form. Where the
/// toolkit refuses a step the error is `OtherSaveError`, and the block may
/// hold some of the tags.
pub fn write_tags(xmp: &mut XmpMeta, tags: &Vec<Tag>) -> (result: Result<(), TagError>)
    ensures
        result is Ok <==> filled(*old(xmp), tags.deep_view()) is Some,
        result is Ok ==> *final(xmp) == filled(*old(xmp), tags.deep_view()).unwrap(),
        result is Ok ==> stored_tags(*final(xmp)) == stored_form(tags.deep_view()),
        result is Err ==> result == Err::<(), TagError>(TagError::OtherSaveError),
{
    if contains_property(xmp, DUBLIN_CORE, SUBJECT) {
        match delete_property(xmp, DUBLIN_CORE, SUBJECT) {
            Ok(_) => {},
            Err(_) => {
                return Err(TagError::OtherSaveError);
            },
        }
    }
    let ghost all = tags.deep_view();
    let ghost base = *xmp;
    let mut i: usize = 0;
    proof {
        assert(all.take(0) =~= Seq::<Seq<char>>::empty());
    }
    while i < tags.len()
        invariant
            i <= tags.len(),
            all == tags.deep_view(),
            cleared(*old(xmp)) == Some(base),
            appended_all(base, all.take(i as int)) == Some(*xmp),
            stored_tags(*xmp) == stored_form(all).take(i as int),
        decreases tags.len() - i,
    {
        proof {
            assert(all.take(i + 1).drop_last() =~= all.take(i as int));
            assert(all.take(i + 1).last() == tags@[i as int]@);
        }
        match append_array_item(xmp, DUBLIN_CORE, SUBJECT, tags[i].tag_string.as_str()) {
            Ok(_) => {},
            Err(_) => {
                proof {
                    lemma_appended_all_prefix(base, all, i + 1);
                }
                return Err(TagError::OtherSaveError);
            },
        }
        proof {
            assert(stored_form(all).take(i + 1) =~= stored_form(all).take(i as int).push(
                stored_text(all[i as int]),
            ));
        }
        i = i + 1;
    }
    proof {
        assert(all.take(i as int) =~= all);
    }
    Ok(())
}

} // verus!
