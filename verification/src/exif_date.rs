use vstd::prelude::*;
use vstd::utf8::{decode_utf8, valid_utf8};
use crate::date::{exif_date_spec, parse_exif_date};

verus! {

/// `exif::Exif`, the parsed metadata of an image; what it holds is seen
/// through `exif_ascii_fields`.
#[verifier::external_type_specification]
#[verifier::external_body]
pub struct ExExif(exif::Exif);

/// `exif::Error`, why metadata could not be read.
#[verifier::external_type_specification]
#[verifier::external_body]
pub struct ExExifError(exif::Error);

/// The three EXIF tags that may hold the date a photo was taken, in the
/// order in which they are consulted.
#[derive(Clone, Copy, Debug)]
pub enum DateTag {
    /// `DateTimeOriginal` (Exif IFD, 0x9003).
    Original,
    /// `DateTimeDigitized` (Exif IFD, 0x9004).
    Digitized,
    /// `DateTime` (TIFF IFD, 0x0132).
    Recorded,
}

/// The key of a tag in `exif_ascii_fields`: its context (0 for TIFF
/// attributes, 1 for Exif attributes) and its number.
pub open spec fn tag_key(tag: DateTag) -> (u16, u16) {
    match tag {
        DateTag::Original => (1, 0x9003),
        DateTag::Digitized => (1, 0x9004),
        DateTag::Recorded => (0, 0x0132),
    }
}

/// What an `exif::Exif` holds, as far as dates are read from it: keyed by
/// a tag's context and number, the strings of the value of the field that
/// `get_field` finds for that tag in the primary image (IFD 0), for those
/// fields whose value is ASCII.
pub uninterp spec fn exif_ascii_fields(e: exif::Exif) -> Map<(u16, u16), Seq<Seq<u8>>>;

/// What `exif::Reader::read_from_container` finds in the bytes of an image
/// file: `None` where it fails, else the contents of the `Exif` it returns
/// (as `exif_ascii_fields` reads them).
pub uninterp spec fn exif_container_fields(data: Seq<u8>) -> Option<Map<(u16, u16), Seq<Seq<u8>>>>;

/// The text that `String::from_utf8_lossy` makes of some bytes.
pub uninterp spec fn utf8_lossy(bytes: Seq<u8>) -> Seq<char>;

/// Calls `exif::Reader::read_from_container` on the whole image file held
/// in `data`. Claimed: it succeeds exactly where `exif_container_fields`
/// is `Some`, and the ASCII fields of what it returns are those.
#[verifier::external_body]
fn read_exif_container(data: &[u8]) -> (r: Result<exif::Exif, exif::Error>)
    ensures
        r is Ok <==> exif_container_fields(data@) is Some,
        r matches Ok(e) ==> exif_ascii_fields(e) == exif_container_fields(data@)->0,
{
    exif::Reader::new().read_from_container(&mut std::io::Cursor::new(data))
}

/// Calls `exif::Exif::get_field` for `tag` in the primary image's IFD and
/// hands back the strings of the field's value when it is ASCII. Claimed:
/// the result is what `exif_ascii_fields` holds under the tag's key.
#[verifier::external_body]
fn primary_ascii_field(e: &exif::Exif, tag: DateTag) -> (r: Option<Vec<Vec<u8>>>)
    ensures
        r is Some <==> exif_ascii_fields(*e).contains_key(tag_key(tag)),
        r matches Some(v) ==> v.deep_view() == exif_ascii_fields(*e)[tag_key(tag)],
{
    let t = match tag {
        DateTag::Original => exif::Tag::DateTimeOriginal,
        DateTag::Digitized => exif::Tag::DateTimeDigitized,
        DateTag::Recorded => exif::Tag::DateTime,
    };
    match e.get_field(t, exif::In::PRIMARY) {
        Some(field) => match &field.value {
            exif::Value::Ascii(strings) => Some(strings.clone()),
            _ => None,
        },
        None => None,
    }
}

/// Calls `String::from_utf8_lossy`. Claimed: the result is `utf8_lossy` of
/// the bytes, and for valid UTF-8 the text those bytes encode.
#[verifier::external_body]
fn lossy_text(bytes: &[u8]) -> (r: String)
    ensures
        r@ == utf8_lossy(bytes@),
        valid_utf8(bytes@) ==> r@ == decode_utf8(bytes@),
{
    String::from_utf8_lossy(bytes).into_owned()
}

/// The date read from one tag: its first string, as text, parsed as an
/// EXIF date. Nothing where the tag is absent, not ASCII, or empty.
pub open spec fn tag_date(strings: Option<Seq<Seq<u8>>>) -> Option<(i32, u32)> {
    match strings {
        Some(v) => if v.len() > 0 { exif_date_spec(utf8_lossy(v[0])) } else { None },
        None => None,
    }
}

/// The date of a photo from its three date tags: the first of
/// `DateTimeOriginal`, `DateTimeDigitized` and `DateTime` that yields one.
pub open spec fn date_from_fields_spec(
    original: Option<Seq<Seq<u8>>>,
    digitized: Option<Seq<Seq<u8>>>,
    recorded: Option<Seq<Seq<u8>>>,
) -> Option<(i32, u32)> {
    if tag_date(original) is Some {
        tag_date(original)
    } else if tag_date(digitized) is Some {
        tag_date(digitized)
    } else {
        tag_date(recorded)
    }
}

pub open spec fn field_of(fields: Map<(u16, u16), Seq<Seq<u8>>>, tag: DateTag) -> Option<Seq<Seq<u8>>> {
    if fields.contains_key(tag_key(tag)) {
        Some(fields[tag_key(tag)])
    } else {
        None
    }
}

/// The date of the photo held in an image file's bytes.
pub open spec fn image_date_spec(data: Seq<u8>) -> Option<(i32, u32)> {
    match exif_container_fields(data) {
        Some(fields) => date_from_fields_spec(
            field_of(fields, DateTag::Original),
            field_of(fields, DateTag::Digitized),
            field_of(fields, DateTag::Recorded),
        ),
        None => None,
    }
}

fn tag_date_of(strings: &Option<Vec<Vec<u8>>>) -> (r: Option<(i32, u32)>)
    ensures
        r == tag_date(strings.deep_view()),
{
    match strings {
        Some(v) => {
            if v.len() > 0 {
                assert(v.deep_view()[0] == v@[0]@);
                let text = lossy_text(v[0].as_slice());
                parse_exif_date(text.as_str())
            } else {
                assert(v.deep_view().len() == 0);
                None
            }
        },
        None => None,
    }
}

/// The date of a photo from the ASCII strings of its three date tags
/// (`None` for a tag that is absent or not ASCII).
pub fn date_from_fields(
    original: &Option<Vec<Vec<u8>>>,
    digitized: &Option<Vec<Vec<u8>>>,
    recorded: &Option<Vec<Vec<u8>>>,
) -> (r: Option<(i32, u32)>)
    ensures
        r == date_from_fields_spec(original.deep_view(), digitized.deep_view(), recorded.deep_view()),
{
    let d = tag_date_of(original);
    if d.is_some() {
        return d;
    }
    let d = tag_date_of(digitized);
    if d.is_some() {
        return d;
    }
    tag_date_of(recorded)
}

/// Extract the capture date strictly from the EXIF metadata of an image
/// file, given as its bytes.
pub fn get_date(data: &[u8]) -> (r: Option<(i32, u32)>)
    ensures
        r == image_date_spec(data@),
{
    match read_exif_container(data) {
        Ok(e) => {
            let original = primary_ascii_field(&e, DateTag::Original);
            let digitized = primary_ascii_field(&e, DateTag::Digitized);
            let recorded = primary_ascii_field(&e, DateTag::Recorded);
            date_from_fields(&original, &digitized, &recorded)
        },
        Err(_) => None,
    }
}

} // verus!
