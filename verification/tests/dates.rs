use photo_fix::date::{month_name, parse_exif_date};
use photo_fix::exif_date::{date_from_fields, get_date};

fn ascii_field(s: &str) -> Option<Vec<Vec<u8>>> {
    Some(vec![s.as_bytes().to_vec()])
}

/// One IFD entry: tag, field type, count and raw value bytes.
type Entry = (u16, u16, u32, Vec<u8>);

fn padded_len(payload: &[u8]) -> u32 {
    if payload.len() <= 4 {
        0
    } else {
        (payload.len() + payload.len() % 2) as u32
    }
}

fn ifd_size(entries: &[Entry]) -> u32 {
    2 + 12 * entries.len() as u32 + 4 + entries.iter().map(|e| padded_len(&e.3)).sum::<u32>()
}

fn layout_ifd(entries: &[Entry], start: u32) -> Vec<u8> {
    let mut head = Vec::new();
    let mut data = Vec::new();
    let mut data_off = start + 2 + 12 * entries.len() as u32 + 4;
    head.extend_from_slice(&(entries.len() as u16).to_le_bytes());
    for (tag, typ, count, payload) in entries {
        head.extend_from_slice(&tag.to_le_bytes());
        head.extend_from_slice(&typ.to_le_bytes());
        head.extend_from_slice(&count.to_le_bytes());
        if payload.len() <= 4 {
            let mut p = payload.clone();
            p.resize(4, 0);
            head.extend_from_slice(&p);
        } else {
            head.extend_from_slice(&data_off.to_le_bytes());
            data.extend_from_slice(payload);
            if payload.len() % 2 == 1 {
                data.push(0);
            }
            data_off += padded_len(payload);
        }
    }
    head.extend_from_slice(&0u32.to_le_bytes());
    head.extend_from_slice(&data);
    head
}

fn ascii_entry(tag: u16, s: &str) -> Entry {
    let mut payload = s.as_bytes().to_vec();
    payload.push(0);
    (tag, 2, payload.len() as u32, payload)
}

/// A little-endian TIFF file whose IFD 0 holds `tiff` and, when `exif` is
/// not empty, a pointer to an Exif IFD holding `exif`.
fn build_tiff(tiff: Vec<Entry>, exif: Vec<Entry>) -> Vec<u8> {
    let mut bytes = vec![b'I', b'I', 42, 0, 8, 0, 0, 0];
    if exif.is_empty() {
        bytes.extend(layout_ifd(&tiff, 8));
    } else {
        let mut ifd0 = tiff.clone();
        ifd0.push((0x8769, 4, 1, vec![0, 0, 0, 0]));
        let exif_start = 8 + ifd_size(&ifd0);
        ifd0.pop();
        ifd0.push((0x8769, 4, 1, exif_start.to_le_bytes().to_vec()));
        ifd0.sort_by_key(|e| e.0);
        bytes.extend(layout_ifd(&ifd0, 8));
        bytes.extend(layout_ifd(&exif, exif_start));
    }
    bytes
}

#[test]
fn parses_standard_exif_date() {
    assert_eq!(parse_exif_date("2021:07:14 10:22:01"), Some((2021, 7)));
    assert_eq!(parse_exif_date("2021-07-14"), Some((2021, 7)));
    assert_eq!(parse_exif_date("2021 7"), Some((2021, 7)));
    assert_eq!(parse_exif_date("1901:05"), Some((1901, 5)));
    assert_eq!(parse_exif_date("2199:12:31"), Some((2199, 12)));
}

#[test]
fn rejects_years_and_months_out_of_range() {
    assert_eq!(parse_exif_date("1900:05:01"), None);
    assert_eq!(parse_exif_date("2200:01:01"), None);
    assert_eq!(parse_exif_date("2021:13:01"), None);
    assert_eq!(parse_exif_date("2021:00:01"), None);
    assert_eq!(parse_exif_date("0000:00:00 00:00:00"), None);
}

#[test]
fn needs_two_numeric_fields() {
    assert_eq!(parse_exif_date("2021"), None);
    assert_eq!(parse_exif_date(""), None);
    assert_eq!(parse_exif_date(":07"), None);
    assert_eq!(parse_exif_date("2021:07x"), None);
    assert_eq!(parse_exif_date("2021::07"), None);
    assert_eq!(parse_exif_date("\u{ff12}021:07"), None);
}

#[test]
fn accepts_what_integer_parsing_accepts() {
    assert_eq!(parse_exif_date("+2021:+7"), Some((2021, 7)));
    assert_eq!(parse_exif_date("0002021:007"), Some((2021, 7)));
    assert_eq!(parse_exif_date("99999999999:01"), None);
    assert_eq!(parse_exif_date("2021:99999999999"), None);
    assert_eq!(parse_exif_date("+:07"), None);
}

#[test]
fn month_names() {
    let expected = [
        "01-Jan", "02-Feb", "03-Mar", "04-Apr", "05-May", "06-Jun",
        "07-Jul", "08-Aug", "09-Sep", "10-Oct", "11-Nov", "12-Dec",
    ];
    for (i, name) in expected.iter().enumerate() {
        assert_eq!(month_name(i as u32 + 1), *name);
    }
    assert_eq!(month_name(0), "00-Unknown");
    assert_eq!(month_name(13), "00-Unknown");
}

#[test]
fn date_tags_are_tried_in_order() {
    let orig = ascii_field("2010:01:01 00:00:00");
    let digit = ascii_field("2011:02:02 00:00:00");
    let rec = ascii_field("2012:03:03 00:00:00");
    assert_eq!(date_from_fields(&orig, &digit, &rec), Some((2010, 1)));
    assert_eq!(date_from_fields(&None, &digit, &rec), Some((2011, 2)));
    assert_eq!(date_from_fields(&None, &None, &rec), Some((2012, 3)));
    assert_eq!(date_from_fields(&None, &None, &None), None);
}

#[test]
fn unusable_tags_fall_through() {
    let bad = ascii_field("    :  :     :  :  ");
    let empty: Option<Vec<Vec<u8>>> = Some(vec![]);
    let rec = ascii_field("2012:03:03 00:00:00");
    assert_eq!(date_from_fields(&bad, &empty, &rec), Some((2012, 3)));
    assert_eq!(date_from_fields(&bad, &empty, &None), None);
    // only the first string of a tag counts
    let two = Some(vec![b"junk".to_vec(), b"2015:05:05".to_vec()]);
    assert_eq!(date_from_fields(&two, &None, &None), None);
    // bytes that are not UTF-8 do not parse
    let invalid = Some(vec![vec![0xff, b'2', b'0', b'2', b'0', b':', b'1']]);
    assert_eq!(date_from_fields(&invalid, &None, &rec), Some((2012, 3)));
}

#[test]
fn reads_date_time_from_tiff() {
    let data = build_tiff(vec![ascii_entry(0x0132, "2019:05:04 10:20:30")], vec![]);
    assert_eq!(get_date(&data), Some((2019, 5)));
}

#[test]
fn prefers_original_date_from_exif_ifd() {
    let data = build_tiff(
        vec![ascii_entry(0x0132, "2019:05:04 10:20:30")],
        vec![ascii_entry(0x9003, "2001:09:11 08:00:00"), ascii_entry(0x9004, "2002:10:12 08:00:00")],
    );
    assert_eq!(get_date(&data), Some((2001, 9)));
}

#[test]
fn falls_back_to_digitized_date() {
    let data = build_tiff(
        vec![ascii_entry(0x0132, "2019:05:04 10:20:30")],
        vec![ascii_entry(0x9003, "not a date"), ascii_entry(0x9004, "2002:10:12 08:00:00")],
    );
    assert_eq!(get_date(&data), Some((2002, 10)));
}

#[test]
fn no_date_without_exif() {
    assert_eq!(get_date(b"not an image at all"), None);
    assert_eq!(get_date(&[]), None);
    let data = build_tiff(vec![(0x0100, 3, 1, vec![16, 0])], vec![]);
    assert_eq!(get_date(&data), None);
}

#[test]
fn separators_are_interchangeable() {
    assert_eq!(parse_exif_date("2021 07-14:10"), parse_exif_date("2021:07:14 10"));
    assert_eq!(parse_exif_date("2021-07"), Some((2021, 7)));
    assert_eq!(parse_exif_date("2021 13"), parse_exif_date("2021-13"));
}

#[test]
fn only_first_two_fields_count() {
    assert_eq!(parse_exif_date("2021:07:garbage here"), parse_exif_date("2021:07"));
    assert_eq!(parse_exif_date("1999-02 x"), Some((1999, 2)));
}

#[test]
fn month_folders_have_shape_and_order() {
    let mut names: Vec<&str> = (1..=12).map(month_name).collect();
    for (i, n) in names.iter().enumerate() {
        assert_eq!(n.len(), 6);
        assert_eq!(n[..2].parse::<u32>(), Ok(i as u32 + 1));
        assert_eq!(&n[2..3], "-");
    }
    assert_eq!(month_name(5)[3..].to_string(), "May");
    names.insert(0, month_name(0));
    let mut sorted = names.clone();
    sorted.sort();
    assert_eq!(sorted, names);
}
