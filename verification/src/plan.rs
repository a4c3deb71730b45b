use vstd::prelude::*;
use vstd::hash_map::StringHashMap;
use std::path::PathBuf;
use crate::text::{push_char, push_decimal, push_signed_decimal, chars_of, decimal, signed_decimal};
use crate::text::{lemma_decimal_shape, lemma_decimal_injective, string_of_range};
use crate::date::{month_name, month_name_spec};
use crate::types::{ScanStatus, ScanResult, WorkerMsg};

verus! {

// ── File names ───────────────────────────────────────────────────────

/// Index of the last `.` in `s`, or -1 when there is none.
pub open spec fn last_dot(s: Seq<char>) -> int
    decreases s.len(),
{
    if s.len() == 0 {
        -1
    } else if s.last() == '.' {
        s.len() - 1
    } else {
        last_dot(s.drop_last())
    }
}

/// `Path::file_stem` of a file name: the part before the final `.`, or the
/// whole name when it has no `.`, when its only `.` is its first character,
/// or when it is `..`.
pub open spec fn file_stem_spec(name: Seq<char>) -> Seq<char> {
    let k = last_dot(name);
    if name == seq!['.', '.'] || k <= 0 {
        name
    } else {
        name.take(k)
    }
}

/// `Path::extension` of a file name, empty where there is none: the part
/// after the final `.` under the same conditions as `file_stem_spec`.
pub open spec fn extension_spec(name: Seq<char>) -> Seq<char> {
    let k = last_dot(name);
    if name == seq!['.', '.'] || k <= 0 {
        Seq::empty()
    } else {
        name.skip(k + 1)
    }
}

proof fn lemma_last_dot(s: Seq<char>)
    ensures
        -1 <= last_dot(s) < s.len(),
        last_dot(s) >= 0 ==> s[last_dot(s)] == '.',
        forall|i: int| last_dot(s) < i < s.len() ==> s[i] != '.',
    decreases s.len(),
{
    if s.len() > 0 && s.last() != '.' {
        lemma_last_dot(s.drop_last());
        assert forall|i: int| last_dot(s) < i < s.len() implies s[i] != '.' by {
            if i < s.len() - 1 {
                assert(s[i] == s.drop_last()[i]);
            }
        }
    }
}

/// Splits a file name into its stem and extension, as `Path::file_stem`
/// and `Path::extension` do; the extension is empty where there is none.
pub fn split_file_name(name: &str) -> (r: (String, String))
    ensures
        r.0@ == file_stem_spec(name@),
        r.1@ == extension_spec(name@),
{
    let chars = chars_of(name);
    let n = chars.len();
    proof { lemma_last_dot(chars@); }
    let mut i = n;
    while i > 0
        invariant
            i <= n == chars.len(),
            chars@ == name@,
            forall|j: int| i <= j < n ==> chars@[j] != '.',
        ensures
            i <= n,
            forall|j: int| i <= j < n ==> chars@[j] != '.',
            i == 0 || chars@[i - 1] == '.',
        decreases i,
    {
        if chars[i - 1] == '.' {
            break;
        }
        i = i - 1;
    }
    // `i - 1` is now the index of the last dot, or `i == 0` when there is none.
    let ghost k = last_dot(chars@);
    assert(k == i - 1) by {
        if k > i - 1 {
            assert(chars@[k] == '.');
        }
        if k < i - 1 {
            assert(chars@[i - 1] == '.');
        }
    }
    let is_parent = n == 2 && chars[0] == '.' && chars[1] == '.';
    proof {
        if is_parent {
            assert(name@ =~= seq!['.', '.']);
        } else if n == 2 {
            assert(name@ != seq!['.', '.']) by {
                assert(name@[0] != '.' || name@[1] != '.');
            }
        } else {
            assert(name@.len() != 2);
        }
    }
    if is_parent || i <= 1 {
        let stem = string_of_range(&chars, 0, n);
        assert(stem@ =~= name@);
        (stem, String::new())
    } else {
        let stem = string_of_range(&chars, 0, i - 1);
        let ext = string_of_range(&chars, i, n);
        assert(stem@ =~= name@.take(k));
        assert(ext@ =~= name@.skip(k + 1));
        (stem, ext)
    }
}

} // verus!

verus! {

// ── Image files ──────────────────────────────────────────────────────

pub open spec fn ascii_lower(c: char) -> char {
    if 'A' <= c && c <= 'Z' {
        ((c as u32) + 32) as char
    } else {
        c
    }
}

pub open spec fn ascii_lowercase(s: Seq<char>) -> Seq<char> {
    s.map_values(|c: char| ascii_lower(c))
}

/// The file extensions taken for images, compared without regard to case:
/// jpg, jpeg, png, tif, tiff, bmp, gif, webp, heic, heif, cr2, nef, arw,
/// dng, orf, rw2.
pub open spec fn is_image_extension_spec(ext: Seq<char>) -> bool {
    let e = ascii_lowercase(ext);
    ||| e == "jpg"@
    ||| e == "jpeg"@
    ||| e == "png"@
    ||| e == "tif"@
    ||| e == "tiff"@
    ||| e == "bmp"@
    ||| e == "gif"@
    ||| e == "webp"@
    ||| e == "heic"@
    ||| e == "heif"@
    ||| e == "cr2"@
    ||| e == "nef"@
    ||| e == "arw"@
    ||| e == "dng"@
    ||| e == "orf"@
    ||| e == "rw2"@
}

fn lowercase_string(s: &str) -> (r: String)
    ensures
        r@ == ascii_lowercase(s@),
{
    let chars = chars_of(s);
    let mut r = String::new();
    let mut i: usize = 0;
    while i < chars.len()
        invariant
            i <= chars.len(),
            chars@ == s@,
            r@ == ascii_lowercase(s@.take(i as int)),
        decreases chars.len() - i,
    {
        let c = chars[i];
        let l = if 'A' <= c && c <= 'Z' {
            let b: u8 = (c as u32 + 32) as u8;
            b as char
        } else {
            c
        };
        push_char(&mut r, l);
        assert(ascii_lowercase(s@.take(i + 1)) =~= ascii_lowercase(s@.take(i as int)).push(l));
        i = i + 1;
    }
    assert(s@.take(chars.len() as int) =~= s@);
    r
}

/// Whether a file with extension `ext` is taken for an image. Case is
/// ignored for ASCII letters; no listed extension has a letter whose
/// Unicode lowercase form could come from a non-ASCII character.
pub fn is_image_extension(ext: &str) -> (r: bool)
    ensures
        r == is_image_extension_spec(ext@),
{
    let e = lowercase_string(ext);
    e == String::from_str("jpg")
        || e == String::from_str("jpeg")
        || e == String::from_str("png")
        || e == String::from_str("tif")
        || e == String::from_str("tiff")
        || e == String::from_str("bmp")
        || e == String::from_str("gif")
        || e == String::from_str("webp")
        || e == String::from_str("heic")
        || e == String::from_str("heif")
        || e == String::from_str("cr2")
        || e == String::from_str("nef")
        || e == String::from_str("arw")
        || e == String::from_str("dng")
        || e == String::from_str("orf")
        || e == String::from_str("rw2")
}

// ── Destinations ─────────────────────────────────────────────────────

/// The name tried for an image on attempt `suffix`: its own name first,
/// then `stem-1.ext`, `stem-2.ext`, ... (`stem-N` when it has no extension).
pub open spec fn candidate_name_spec(file_name: Seq<char>, suffix: nat) -> Seq<char> {
    if suffix == 0 {
        file_name
    } else {
        let stem = file_stem_spec(file_name);
        let ext = extension_spec(file_name);
        if ext.len() == 0 {
            stem + seq!['-'] + decimal(suffix)
        } else {
            stem + seq!['-'] + decimal(suffix) + seq!['.'] + ext
        }
    }
}

/// How images are filed below the destination folder.
#[derive(Clone, Copy, Debug, PartialEq, Eq)]
pub enum FolderLayout {
    /// `year/month-folder/name`
    YearMonth,
    /// `year/name`
    YearOnly,
}

/// The folder an image of `year` and `month` is filed in, below the
/// destination folder: `year/month-folder`, or `year` alone.
pub open spec fn dest_folder(layout: FolderLayout, year: i32, month: u32) -> Seq<char> {
    match layout {
        FolderLayout::YearMonth => signed_decimal(year as int) + seq!['/'] + month_name_spec(month),
        FolderLayout::YearOnly => signed_decimal(year as int),
    }
}

/// Where a file named `name` lands below the destination folder, written
/// `folder/name`; the planner tells destinations apart by it.
pub open spec fn dest_key(layout: FolderLayout, year: i32, month: u32, name: Seq<char>) -> Seq<char> {
    dest_folder(layout, year, month) + seq!['/'] + name
}

/// The month folder below the year folder: the month's name when images
/// are filed by year and month, none when they are filed by year only.
pub fn month_folder(layout: FolderLayout, month: u32) -> (r: Option<&'static str>)
    ensures
        layout == FolderLayout::YearMonth ==> (r matches Some(n) && n@ == month_name_spec(month)),
        layout == FolderLayout::YearOnly ==> r is None,
{
    match layout {
        FolderLayout::YearMonth => Some(month_name(month)),
        FolderLayout::YearOnly => None,
    }
}

/// The destination of `name` below the destination folder (see `dest_key`).
pub fn dest_key_string(layout: FolderLayout, year: i32, month: u32, name: &str) -> (r: String)
    ensures
        r@ == dest_key(layout, year, month, name@),
{
    let mut r = String::new();
    push_signed_decimal(&mut r, year as i64);
    match layout {
        FolderLayout::YearMonth => {
            push_char(&mut r, '/');
            r.append(month_name(month));
        },
        FolderLayout::YearOnly => {},
    }
    push_char(&mut r, '/');
    r.append(name);
    assert(r@ =~= dest_key(layout, year, month, name@));
    r
}

/// One image being placed: the attempt number says which name is tried.
#[derive(Debug)]
pub struct Candidate {
    pub year: i32,
    pub month: u32,
    pub file_name: String,
    pub src_size: u64,
    pub suffix: u32,
}

impl Candidate {
    /// The first attempt for an image: its own file name.
    pub fn new(year: i32, month: u32, file_name: String, src_size: u64) -> (c: Candidate)
        ensures
            c.year == year,
            c.month == month,
            c.file_name@ == file_name@,
            c.src_size == src_size,
            c.suffix == 0,
    {
        Candidate { year, month, file_name, src_size, suffix: 0 }
    }

    pub open spec fn name_spec(&self) -> Seq<char> {
        candidate_name_spec(self.file_name@, self.suffix as nat)
    }

    pub open spec fn key_spec(&self, layout: FolderLayout) -> Seq<char> {
        dest_key(layout, self.year, self.month, self.name_spec())
    }

    /// The file name tried on this attempt.
    pub fn name(&self) -> (r: String)
        ensures
            r@ == self.name_spec(),
    {
        if self.suffix == 0 {
            let r = self.file_name.clone();
            return r;
        }
        let (stem, ext) = split_file_name(self.file_name.as_str());
        let mut r = stem;
        push_char(&mut r, '-');
        push_decimal(&mut r, self.suffix as u64);
        if !ext.as_str().is_empty() {
            push_char(&mut r, '.');
            r.append(ext.as_str());
        }
        assert(r@ =~= self.name_spec());
        r
    }

    /// Moves on to the next name. The counter is an `i32` in the worker,
    /// which does not go past `i32::MAX`.
    pub fn advance(&mut self)
        requires
            old(self).suffix < i32::MAX,
        ensures
            final(self).suffix == old(self).suffix + 1,
            final(self).year == old(self).year,
            final(self).month == old(self).month,
            final(self).file_name == old(self).file_name,
            final(self).src_size == old(self).src_size,
    {
        self.suffix = self.suffix + 1;
    }
}

} // verus!

verus! {

/// What one attempt to place an image decided.
#[derive(Debug)]
pub enum StepOutcome {
    /// The name is free: the image goes there, and the name is now taken.
    Place(String),
    /// A file of the same size already sits under that name: the image is
    /// taken for a duplicate and skipped.
    Duplicate,
    /// A file of another size sits under that name: try the next name.
    TryNext,
}

/// The size that counts for a destination: that of an image planned there
/// earlier in this run, else that of the file found on disk (`None` where
/// there is none).
pub open spec fn effective_size(planned: Map<Seq<char>, u64>, key: Seq<char>, on_disk: Option<u64>) -> Option<u64> {
    if planned.contains_key(key) {
        Some(planned[key])
    } else {
        on_disk
    }
}

/// The kind of a `StepOutcome`, without the name.
#[derive(Clone, Copy, Debug, PartialEq, Eq)]
pub enum StepKind {
    Place,
    Duplicate,
    TryNext,
}

pub open spec fn kind_of(r: StepOutcome) -> StepKind {
    match r {
        StepOutcome::Place(_) => StepKind::Place,
        StepOutcome::Duplicate => StepKind::Duplicate,
        StepOutcome::TryNext => StepKind::TryNext,
    }
}

/// One attempt to place an image of `size` bytes at destination `key`:
/// the destinations planned afterwards, and what was decided. The image is
/// placed where nothing counts as being there, taken for a duplicate where
/// something of its size is, and sent on to its next name otherwise.
pub open spec fn step_spec(
    planned: Map<Seq<char>, u64>,
    key: Seq<char>,
    size: u64,
    on_disk: Option<u64>,
) -> (Map<Seq<char>, u64>, StepKind) {
    match effective_size(planned, key, on_disk) {
        None => (planned.insert(key, size), StepKind::Place),
        Some(s) => (planned, if s == size { StepKind::Duplicate } else { StepKind::TryNext }),
    }
}

/// The destinations planned so far in one scan, with the size of the image
/// planned for each; a plan never reaches the disk, so files planned earlier
/// in the run count as if they were already there.
pub struct Planner {
    planned: StringHashMap<u64>,
}

impl View for Planner {
    type V = Map<Seq<char>, u64>;

    closed spec fn view(&self) -> Map<Seq<char>, u64> {
        self.planned@
    }
}

impl Planner {
    /// A planner with nothing planned yet.
    pub fn new() -> (p: Planner)
        ensures
            p@ == Map::<Seq<char>, u64>::empty(),
    {
        Planner { planned: StringHashMap::new() }
    }

    /// One attempt to place `c` under its current name, in the folder that
    /// `layout` gives it, given what the disk
    /// holds there: `Some(size)` of an existing file (0 where its size cannot
    /// be read), `None` where nothing is there.
    pub fn step(&mut self, layout: FolderLayout, c: &Candidate, on_disk: Option<u64>) -> (r: StepOutcome)
        ensures
            (final(self)@, kind_of(r)) == step_spec(old(self)@, c.key_spec(layout), c.src_size, on_disk),
            r matches StepOutcome::Place(name) ==> name@ == c.name_spec(),
    {
        let name = c.name();
        let key = dest_key_string(layout, c.year, c.month, name.as_str());
        let known = match self.planned.get(key.as_str()) {
            Some(size) => Some(*size),
            None => on_disk,
        };
        match known {
            None => {
                self.planned.insert(key, c.src_size);
                StepOutcome::Place(name)
            },
            Some(size) => {
                if size == c.src_size {
                    StepOutcome::Duplicate
                } else {
                    StepOutcome::TryNext
                }
            },
        }
    }
}

/// The status of an image placed at `dest_path`: a copy or a move,
/// as the user chose.
pub fn planned_status(use_copy: bool, year: i32, month: u32, dest_path: PathBuf) -> (s: ScanStatus)
    ensures
        use_copy ==> s == (ScanStatus::PendingCopy { year, month, dest_path }),
        !use_copy ==> s == (ScanStatus::PendingMove { year, month, dest_path }),
{
    if use_copy {
        ScanStatus::PendingCopy { year, month, dest_path }
    } else {
        ScanStatus::PendingMove { year, month, dest_path }
    }
}

// ── Laws ─────────────────────────────────────────────────────────────

/// The destinations planned before attempt `i` of a run that started
/// from `start`; each attempt is a destination, an image size and what the
/// disk holds at that destination.
pub open spec fn planned_before(
    start: Map<Seq<char>, u64>,
    attempts: Seq<(Seq<char>, u64, Option<u64>)>,
    i: int,
) -> Map<Seq<char>, u64>
    decreases i,
{
    if i <= 0 {
        start
    } else {
        let a = attempts[i - 1];
        step_spec(planned_before(start, attempts, i - 1), a.0, a.1, a.2).0
    }
}

/// What attempt `i` of a run decided.
pub open spec fn decision_at(
    start: Map<Seq<char>, u64>,
    attempts: Seq<(Seq<char>, u64, Option<u64>)>,
    i: int,
) -> StepKind {
    let a = attempts[i];
    step_spec(planned_before(start, attempts, i), a.0, a.1, a.2).1
}

proof fn lemma_planned_grows(
    start: Map<Seq<char>, u64>,
    attempts: Seq<(Seq<char>, u64, Option<u64>)>,
    i: int,
    j: int,
)
    requires
        0 <= i <= j <= attempts.len(),
    ensures
        planned_before(start, attempts, i).submap_of(planned_before(start, attempts, j)),
    decreases j - i,
{
    if i < j {
        lemma_planned_grows(start, attempts, i, j - 1);
        let m = planned_before(start, attempts, j - 1);
        let a = attempts[j - 1];
        let e = effective_size(m, a.0, a.2);
        if e is None {
            assert(!m.contains_key(a.0));
        }
    }
}

/// Planning never gives up a destination: whatever is planned before an
/// attempt is still planned, for the same size, after any later attempt.
pub proof fn law_planned_destinations_stay(
    start: Map<Seq<char>, u64>,
    attempts: Seq<(Seq<char>, u64, Option<u64>)>,
    i: int,
    j: int,
)
    requires
        0 <= i <= j <= attempts.len(),
    ensures
        planned_before(start, attempts, i).submap_of(planned_before(start, attempts, j)),
{
    lemma_planned_grows(start, attempts, i, j);
}

/// No two images of one scan are planned for the same destination: when
/// two different attempts both place their image, their destinations differ.
pub proof fn law_no_shared_destination(
    start: Map<Seq<char>, u64>,
    attempts: Seq<(Seq<char>, u64, Option<u64>)>,
    i: int,
    j: int,
)
    requires
        0 <= i < j < attempts.len(),
        decision_at(start, attempts, i) == StepKind::Place,
        decision_at(start, attempts, j) == StepKind::Place,
    ensures
        attempts[i].0 != attempts[j].0,
{
    let a = attempts[i];
    let after_i = planned_before(start, attempts, i + 1);
    assert(after_i.contains_key(a.0));
    lemma_planned_grows(start, attempts, i + 1, j);
    let before_j = planned_before(start, attempts, j);
    assert(before_j.contains_key(a.0));
    if attempts[j].0 == a.0 {
        assert(effective_size(before_j, a.0, attempts[j].2) is Some);
    }
}

/// An image is taken for a duplicate only where what counts as being at
/// its destination has exactly its size, and an image is placed only where
/// nothing counts as being there.
pub proof fn law_duplicate_means_same_size(
    planned: Map<Seq<char>, u64>,
    key: Seq<char>,
    size: u64,
    on_disk: Option<u64>,
)
    ensures
        step_spec(planned, key, size, on_disk).1 == StepKind::Duplicate
            <==> effective_size(planned, key, on_disk) == Some(size),
        step_spec(planned, key, size, on_disk).1 == StepKind::Place
            <==> effective_size(planned, key, on_disk) is None,
{
}

pub open spec fn has_no_slash(s: Seq<char>) -> bool {
    forall|i: int| 0 <= i < s.len() ==> s[i] != '/'
}

proof fn lemma_signed_decimal(y1: int, y2: int)
    ensures
        has_no_slash(signed_decimal(y1)),
        signed_decimal(y1) == signed_decimal(y2) ==> y1 == y2,
{
    lemma_decimal_shape((if y1 < 0 { -y1 } else { y1 }) as nat);
    lemma_decimal_shape((if y2 < 0 { -y2 } else { y2 }) as nat);
    let s1 = signed_decimal(y1);
    let s2 = signed_decimal(y2);
    if y1 < 0 {
        assert forall|i: int| 0 <= i < s1.len() implies s1[i] != '/' by {
            if i > 0 {
                assert(s1[i] == decimal((-y1) as nat)[i - 1]);
            }
        }
    }
    if s1 == s2 {
        if y1 < 0 && y2 < 0 {
            assert(s1.skip(1) =~= decimal((-y1) as nat));
            assert(s2.skip(1) =~= decimal((-y2) as nat));
            lemma_decimal_injective((-y1) as nat, (-y2) as nat);
        } else if y1 >= 0 && y2 >= 0 {
            lemma_decimal_injective(y1 as nat, y2 as nat);
        } else if y1 < 0 {
            assert(s2[0] == decimal(y2 as nat)[0]);
        } else {
            assert(s1[0] == decimal(y1 as nat)[0]);
        }
    }
}

proof fn lemma_month_name_has_no_slash(month: u32)
    ensures
        has_no_slash(month_name_spec(month)),
{
    reveal_strlit("01-Jan");
    reveal_strlit("02-Feb");
    reveal_strlit("03-Mar");
    reveal_strlit("04-Apr");
    reveal_strlit("05-May");
    reveal_strlit("06-Jun");
    reveal_strlit("07-Jul");
    reveal_strlit("08-Aug");
    reveal_strlit("09-Sep");
    reveal_strlit("10-Oct");
    reveal_strlit("11-Nov");
    reveal_strlit("12-Dec");
    reveal_strlit("00-Unknown");
}

/// Cutting at the first `/`: equal texts that start with a slash-free part
/// and a `/` start with the same part.
proof fn lemma_split_at_slash(a1: Seq<char>, r1: Seq<char>, a2: Seq<char>, r2: Seq<char>)
    requires
        has_no_slash(a1),
        has_no_slash(a2),
        a1 + seq!['/'] + r1 == a2 + seq!['/'] + r2,
    ensures
        a1 == a2,
        r1 == r2,
{
    let k1 = a1 + seq!['/'] + r1;
    let k2 = a2 + seq!['/'] + r2;
    if a1.len() < a2.len() {
        assert(k1[a1.len() as int] == '/');
        assert(k2[a1.len() as int] == a2[a1.len() as int]);
    } else if a2.len() < a1.len() {
        assert(k2[a2.len() as int] == '/');
        assert(k1[a2.len() as int] == a1[a2.len() as int]);
    } else {
        assert(a1 =~= k1.take(a1.len() as int));
        assert(a2 =~= k2.take(a2.len() as int));
        assert(r1 =~= k1.skip(a1.len() as int + 1));
        assert(r2 =~= k2.skip(a2.len() as int + 1));
    }
}

/// Destinations are told apart exactly by year, month folder (where images
/// are filed by month) and file name: two destinations are the same exactly
/// when these agree.
pub proof fn law_destination_identifies_folder_and_name(
    layout: FolderLayout,
    y1: i32,
    m1: u32,
    n1: Seq<char>,
    y2: i32,
    m2: u32,
    n2: Seq<char>,
)
    ensures
        dest_key(layout, y1, m1, n1) == dest_key(layout, y2, m2, n2) <==> (
            y1 == y2 && n1 == n2
                && (layout == FolderLayout::YearMonth ==> month_name_spec(m1) == month_name_spec(m2))),
{
    if dest_key(layout, y1, m1, n1) == dest_key(layout, y2, m2, n2) {
        lemma_signed_decimal(y1 as int, y2 as int);
        lemma_signed_decimal(y2 as int, y1 as int);
        let a1 = signed_decimal(y1 as int);
        let a2 = signed_decimal(y2 as int);
        match layout {
            FolderLayout::YearMonth => {
                lemma_month_name_has_no_slash(m1);
                lemma_month_name_has_no_slash(m2);
                let b1 = month_name_spec(m1);
                let b2 = month_name_spec(m2);
                assert(dest_key(layout, y1, m1, n1) =~= a1 + seq!['/'] + (b1 + seq!['/'] + n1));
                assert(dest_key(layout, y2, m2, n2) =~= a2 + seq!['/'] + (b2 + seq!['/'] + n2));
                lemma_split_at_slash(a1, b1 + seq!['/'] + n1, a2, b2 + seq!['/'] + n2);
                lemma_split_at_slash(b1, n1, b2, n2);
            },
            FolderLayout::YearOnly => {
                lemma_split_at_slash(a1, n1, a2, n2);
            },
        }
    }
}

} // verus!

verus! {

/// What the planner has built so far in one scan: the destinations
/// planned, the choices made, the results in order, and for each result
/// the name under which its image was placed (none for a skipped image).
pub struct ScanPlanView {
    pub planned: Map<Seq<char>, u64>,
    pub use_copy: bool,
    pub layout: FolderLayout,
    pub results: Seq<ScanResult>,
    pub placed_names: Seq<Option<Seq<char>>>,
}

/// The year and month a status plans an image for (zero for a skipped one).
pub open spec fn status_date(s: ScanStatus) -> (i32, u32) {
    match s {
        ScanStatus::PendingCopy { year, month, .. } => (year, month),
        ScanStatus::PendingMove { year, month, .. } => (year, month),
        _ => (0, 0),
    }
}

pub open spec fn is_pending(s: ScanStatus) -> bool {
    s is PendingCopy || s is PendingMove
}

impl ScanPlanView {
    /// The destination of result `i`, placed under `placed_names[i]`.
    pub open spec fn dest_of(self, i: int) -> Seq<char> {
        let (year, month) = status_date(self.results[i].status);
        dest_key(self.layout, year, month, self.placed_names[i]->0)
    }

    /// The plan is consistent: exactly the results to be copied or moved
    /// have a placed name, their destinations are planned, and no two of
    /// them share a destination.
    pub open spec fn wf(self) -> bool {
        &&& self.placed_names.len() == self.results.len()
        &&& forall|i: int| 0 <= i < self.results.len()
            ==> (#[trigger] self.placed_names[i] is Some <==> is_pending(self.results[i].status))
        &&& forall|i: int| 0 <= i < self.results.len() && #[trigger] self.placed_names[i] is Some
            ==> self.planned.contains_key(self.dest_of(i))
        &&& forall|i: int, j: int| 0 <= i < j < self.results.len()
            && #[trigger] self.placed_names[i] is Some && #[trigger] self.placed_names[j] is Some
            ==> self.dest_of(i) != self.dest_of(j)
    }
}

/// No two images of a scan are planned for the same file: of two
/// different results that copy or move an image, the year, the month
/// folder (where images are filed by month) or the name differ.
pub proof fn law_scan_plan_no_shared_file(p: ScanPlanView, i: int, j: int)
    requires
        p.wf(),
        0 <= i < p.results.len(),
        0 <= j < p.results.len(),
        i != j,
        is_pending(p.results[i].status),
        is_pending(p.results[j].status),
    ensures
        ({
            let (yi, mi) = status_date(p.results[i].status);
            let (yj, mj) = status_date(p.results[j].status);
            !(yi == yj && p.placed_names[i] == p.placed_names[j]
                && (p.layout == FolderLayout::YearMonth ==> month_name_spec(mi) == month_name_spec(mj)))
        }),
{
    assert(p.placed_names[i] is Some);
    assert(p.placed_names[j] is Some);
    if i < j {
        assert(p.dest_of(i) != p.dest_of(j));
    } else {
        assert(p.dest_of(j) != p.dest_of(i));
    }
    let (yi, mi) = status_date(p.results[i].status);
    let (yj, mj) = status_date(p.results[j].status);
    law_destination_identifies_folder_and_name(
        p.layout, yi, mi, p.placed_names[i]->0, yj, mj, p.placed_names[j]->0);
}

/// The plan of a scan, built image by image: each image without a date is
/// skipped, each dated image is tried under its own name and then numbered
/// names until it is placed or found to be a duplicate.
pub struct ScanPlan {
    planner: Planner,
    use_copy: bool,
    layout: FolderLayout,
    results: Vec<ScanResult>,
    placed_names: Ghost<Seq<Option<Seq<char>>>>,
}

impl View for ScanPlan {
    type V = ScanPlanView;

    closed spec fn view(&self) -> ScanPlanView {
        ScanPlanView {
            planned: self.planner@,
            use_copy: self.use_copy,
            layout: self.layout,
            results: self.results@,
            placed_names: self.placed_names@,
        }
    }
}

/// A dated image being placed: its path and the name being tried.
#[derive(Debug)]
pub struct ImageAttempt {
    pub src: PathBuf,
    pub candidate: Candidate,
}

/// The status of an image placed at `dest_path`.
pub open spec fn placed_status(use_copy: bool, year: i32, month: u32, dest_path: PathBuf) -> ScanStatus {
    if use_copy {
        ScanStatus::PendingCopy { year, month, dest_path }
    } else {
        ScanStatus::PendingMove { year, month, dest_path }
    }
}

impl ScanPlan {
    /// An empty plan that copies (`use_copy`) or moves the images and files
    /// them as `layout` says.
    pub fn new(use_copy: bool, layout: FolderLayout) -> (p: ScanPlan)
        ensures
            p@.wf(),
            p@.planned == Map::<Seq<char>, u64>::empty(),
            p@.use_copy == use_copy,
            p@.layout == layout,
            p@.results == Seq::<ScanResult>::empty(),
    {
        ScanPlan {
            planner: Planner::new(),
            use_copy,
            layout,
            results: Vec::new(),
            placed_names: Ghost(Seq::empty()),
        }
    }

    /// Takes up the next image: one without a date is recorded as skipped;
    /// a dated one is handed back to be tried under its own name first.
    pub fn begin_image(
        &mut self,
        src: PathBuf,
        file_name: String,
        date: Option<(i32, u32)>,
        src_size: u64,
    ) -> (r: Option<ImageAttempt>)
        requires
            old(self)@.wf(),
        ensures
            final(self)@.wf(),
            final(self)@.planned == old(self)@.planned,
            final(self)@.use_copy == old(self)@.use_copy,
            final(self)@.layout == old(self)@.layout,
            match date {
                None => {
                    &&& r is None
                    &&& final(self)@.results == old(self)@.results.push(
                        ScanResult { src, status: ScanStatus::NoDateSkipped },
                    )
                },
                Some((year, month)) => {
                    &&& r matches Some(a) && a.src == src && a.candidate.year == year
                        && a.candidate.month == month && a.candidate.file_name@ == file_name@
                        && a.candidate.src_size == src_size && a.candidate.suffix == 0
                    &&& final(self)@.results == old(self)@.results
                },
            },
    {
        let ghost before = self@;
        match date {
            None => {
                self.results.push(ScanResult { src, status: ScanStatus::NoDateSkipped });
                proof {
                    self.placed_names@ = self.placed_names@.push(None);
                    let after = self@;
                    assert forall|i: int| 0 <= i < before.results.len() && #[trigger] after.placed_names[i] is Some
                        implies after.dest_of(i) == before.dest_of(i) by {
                        assert(after.results[i] == before.results[i]);
                        assert(after.placed_names[i] == before.placed_names[i]);
                    }
                    assert forall|i: int| 0 <= i < after.results.len()
                        implies (#[trigger] after.placed_names[i] is Some <==> is_pending(after.results[i].status)) by {
                        if i < before.results.len() {
                            assert(after.results[i] == before.results[i]);
                            assert(after.placed_names[i] == before.placed_names[i]);
                        }
                    }
                    assert forall|i: int, j: int| 0 <= i < j < after.results.len()
                        && #[trigger] after.placed_names[i] is Some && #[trigger] after.placed_names[j] is Some
                        implies after.dest_of(i) != after.dest_of(j) by {
                        assert(before.placed_names[i] is Some && before.placed_names[j] is Some);
                    }
                }
                None
            },
            Some((year, month)) => {
                Some(ImageAttempt { src, candidate: Candidate::new(year, month, file_name, src_size) })
            },
        }
    }

    /// Whether the name tried for `a` is taken by something of another size,
    /// so that the next name must be tried (see `step_spec`).
    pub fn needs_next_name(&self, a: &ImageAttempt, on_disk: Option<u64>) -> (r: bool)
        ensures
            r == (step_spec(self@.planned, a.candidate.key_spec(self@.layout), a.candidate.src_size, on_disk).1
                == StepKind::TryNext),
    {
        let name = a.candidate.name();
        let key = dest_key_string(self.layout, a.candidate.year, a.candidate.month, name.as_str());
        let known = match self.planner.planned.get(key.as_str()) {
            Some(size) => Some(*size),
            None => on_disk,
        };
        match known {
            Some(size) => size != a.candidate.src_size,
            None => false,
        }
    }

    /// One attempt to place `a` under the name it is tried with, given what
    /// the disk holds there and the path that name stands for: a free name
    /// places the image there, copied or moved as chosen; a file of the same
    /// size makes it a skipped duplicate; otherwise the next name is taken
    /// up. Tells whether the image is settled.
    pub fn attempt(&mut self, a: &mut ImageAttempt, on_disk: Option<u64>, dest_path: PathBuf) -> (done: bool)
        requires
            old(self)@.wf(),
            old(a).candidate.suffix < i32::MAX
                || step_spec(
                    old(self)@.planned,
                    old(a).candidate.key_spec(old(self)@.layout),
                    old(a).candidate.src_size,
                    on_disk,
                ).1 != StepKind::TryNext,
        ensures
            final(self)@.wf(),
            ({
                let c = old(a).candidate;
                let (planned, kind) = step_spec(old(self)@.planned, c.key_spec(old(self)@.layout), c.src_size, on_disk);
                &&& final(self)@.planned == planned
                &&& final(self)@.use_copy == old(self)@.use_copy
                &&& final(self)@.layout == old(self)@.layout
                &&& final(a).src == old(a).src
                &&& (kind == StepKind::Place ==> {
                    &&& done
                    &&& *final(a) == *old(a)
                    &&& final(self)@.results == old(self)@.results.push(ScanResult {
                        src: old(a).src,
                        status: placed_status(old(self)@.use_copy, c.year, c.month, dest_path),
                    })
                    &&& final(self)@.placed_names.last() == Some(c.name_spec())
                })
                &&& (kind == StepKind::Duplicate ==> {
                    &&& done
                    &&& *final(a) == *old(a)
                    &&& final(self)@.results == old(self)@.results.push(
                        ScanResult { src: old(a).src, status: ScanStatus::DuplicateSkipped },
                    )
                })
                &&& (kind == StepKind::TryNext ==> {
                    &&& !done
                    &&& final(self)@.results == old(self)@.results
                    &&& final(a).candidate.suffix == c.suffix + 1
                    &&& final(a).candidate.year == c.year
                    &&& final(a).candidate.month == c.month
                    &&& final(a).candidate.file_name == c.file_name
                    &&& final(a).candidate.src_size == c.src_size
                })
            }),
    {
        let ghost before = self@;
        let ghost key = a.candidate.key_spec(self.layout);
        match self.planner.step(self.layout, &a.candidate, on_disk) {
            StepOutcome::Place(_) => {
                let status = planned_status(self.use_copy, a.candidate.year, a.candidate.month, dest_path);
                self.results.push(ScanResult { src: a.src.clone(), status });
                proof {
                    self.placed_names@ = self.placed_names@.push(Some(a.candidate.name_spec()));
                    let after = self@;
                    let n = before.results.len() as int;
                    assert(after.dest_of(n) == key);
                    assert(!before.planned.contains_key(key));
                    assert forall|i: int| 0 <= i < n && #[trigger] after.placed_names[i] is Some
                        implies after.dest_of(i) == before.dest_of(i) by {
                        assert(after.results[i] == before.results[i]);
                        assert(after.placed_names[i] == before.placed_names[i]);
                    }
                    assert forall|i: int| 0 <= i < after.results.len()
                        implies (#[trigger] after.placed_names[i] is Some <==> is_pending(after.results[i].status)) by {
                        if i < n {
                            assert(after.results[i] == before.results[i]);
                            assert(after.placed_names[i] == before.placed_names[i]);
                        }
                    }
                    assert forall|i: int| 0 <= i < after.results.len() && #[trigger] after.placed_names[i] is Some
                        implies after.planned.contains_key(after.dest_of(i)) by {
                        if i < n {
                            assert(before.placed_names[i] is Some);
                        }
                    }
                    assert forall|i: int, j: int| 0 <= i < j < after.results.len()
                        && #[trigger] after.placed_names[i] is Some && #[trigger] after.placed_names[j] is Some
                        implies after.dest_of(i) != after.dest_of(j) by {
                        assert(before.placed_names[i] is Some);
                        if j < n {
                            assert(before.placed_names[j] is Some);
                        } else {
                            assert(before.planned.contains_key(before.dest_of(i)));
                        }
                    }
                }
                true
            },
            StepOutcome::Duplicate => {
                self.results.push(ScanResult { src: a.src.clone(), status: ScanStatus::DuplicateSkipped });
                proof {
                    self.placed_names@ = self.placed_names@.push(None);
                    let after = self@;
                    let n = before.results.len() as int;
                    assert forall|i: int| 0 <= i < n && #[trigger] after.placed_names[i] is Some
                        implies after.dest_of(i) == before.dest_of(i) by {
                        assert(after.results[i] == before.results[i]);
                        assert(after.placed_names[i] == before.placed_names[i]);
                    }
                    assert forall|i: int| 0 <= i < after.results.len()
                        implies (#[trigger] after.placed_names[i] is Some <==> is_pending(after.results[i].status)) by {
                        if i < n {
                            assert(after.results[i] == before.results[i]);
                            assert(after.placed_names[i] == before.placed_names[i]);
                        }
                    }
                    assert forall|i: int| 0 <= i < after.results.len() && #[trigger] after.placed_names[i] is Some
                        implies after.planned.contains_key(after.dest_of(i)) by {
                        assert(before.placed_names[i] is Some);
                    }
                    assert forall|i: int, j: int| 0 <= i < j < after.results.len()
                        && #[trigger] after.placed_names[i] is Some && #[trigger] after.placed_names[j] is Some
                        implies after.dest_of(i) != after.dest_of(j) by {
                        assert(before.placed_names[i] is Some && before.placed_names[j] is Some);
                    }
                }
                true
            },
            StepOutcome::TryNext => {
                a.candidate.advance();
                false
            },
        }
    }

    /// The message that ends the scan, with the results in the order the
    /// images were taken up.
    pub fn finish(self) -> (m: WorkerMsg)
        ensures
            m matches WorkerMsg::ScanDone(results) && results@ == self@.results,
    {
        WorkerMsg::ScanDone(self.results)
    }
}

proof fn lemma_ascii_lowercase_idempotent(s: Seq<char>)
    ensures
        ascii_lowercase(ascii_lowercase(s)) == ascii_lowercase(s),
{
    let l = ascii_lowercase(s);
    assert forall|i: int| 0 <= i < l.len() implies ascii_lower(#[trigger] l[i]) == l[i] by {
        let c = s[i];
        if 'A' <= c && c <= 'Z' {
            let d = ((c as u32) + 32) as char;
            assert(d as u32 == (c as u32) + 32);
            assert(!('A' <= d && d <= 'Z'));
        }
    }
    assert(ascii_lowercase(l) =~= l);
}

/// Case does not matter when picking image files: an extension is taken
/// exactly when its lowercase form is.
pub proof fn law_extension_case_does_not_matter(ext: Seq<char>)
    ensures
        is_image_extension_spec(ext) == is_image_extension_spec(ascii_lowercase(ext)),
{
    lemma_ascii_lowercase_idempotent(ext);
}

/// A numbered name is the file's own name with `-N` put in before its
/// extension, or after the whole name when it has no dot at all: nothing of
/// the name is lost, and taking the `-N` out gives the name back.
pub proof fn law_numbered_name_keeps_the_name(file_name: Seq<char>, n: nat)
    requires
        n > 0,
    ensures
        extension_spec(file_name).len() > 0 ==> ({
            let ext = extension_spec(file_name);
            let base = file_name.take(file_name.len() - ext.len() - 1);
            &&& candidate_name_spec(file_name, n) == base + seq!['-'] + decimal(n) + seq!['.'] + ext
            &&& file_name == base + seq!['.'] + ext
        }),
        (forall|i: int| 0 <= i < file_name.len() ==> file_name[i] != '.') ==>
            candidate_name_spec(file_name, n) == file_name + seq!['-'] + decimal(n),
{
    lemma_last_dot(file_name);
    let k = last_dot(file_name);
    if extension_spec(file_name).len() > 0 {
        let ext = extension_spec(file_name);
        assert(ext == file_name.skip(k + 1));
        assert(file_name.take(file_name.len() - ext.len() - 1) =~= file_name.take(k));
        assert(file_name =~= file_name.take(k) + seq!['.'] + ext);
    }
    if forall|i: int| 0 <= i < file_name.len() ==> file_name[i] != '.' {
        if k >= 0 {
            assert(file_name[k] == '.');
        }
        if file_name == seq!['.', '.'] {
            assert(file_name[0] == '.');
        }
    }
}

} // verus!
