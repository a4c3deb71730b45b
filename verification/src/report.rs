use vstd::prelude::*;
use crate::text::{push_decimal, push_signed_decimal, decimal, signed_decimal};
use crate::date::{month_name, month_name_spec};
use crate::types::{ScanStatus, ScanResult, WorkerMsg};

verus! {

/// The five kinds of scan status.
#[derive(Clone, Copy, Debug, PartialEq, Eq)]
pub enum StatusKind {
    Copy,
    Move,
    Duplicate,
    NoDate,
    Error,
}

pub open spec fn status_kind(s: ScanStatus) -> StatusKind {
    match s {
        ScanStatus::PendingCopy { .. } => StatusKind::Copy,
        ScanStatus::PendingMove { .. } => StatusKind::Move,
        ScanStatus::DuplicateSkipped => StatusKind::Duplicate,
        ScanStatus::NoDateSkipped => StatusKind::NoDate,
        ScanStatus::Error(_) => StatusKind::Error,
    }
}

/// How many of `results` have a status of kind `kind`.
pub open spec fn count_kind(results: Seq<ScanResult>, kind: StatusKind) -> nat
    decreases results.len(),
{
    if results.len() == 0 {
        0
    } else {
        count_kind(results.drop_last(), kind) + if status_kind(results.last().status) == kind { 1nat } else { 0nat }
    }
}

/// The images of a scan that are ready to be copied or moved.
pub open spec fn ready_count(results: Seq<ScanResult>) -> nat {
    count_kind(results, StatusKind::Copy) + count_kind(results, StatusKind::Move)
}

/// The line shown for one scanned image named `name`.
pub open spec fn scan_line(status: ScanStatus, name: Seq<char>) -> Seq<char> {
    match status {
        ScanStatus::PendingCopy { year, month, .. } =>
            "[copy] "@ + name + " -> "@ + signed_decimal(year as int) + "/"@ + month_name_spec(month),
        ScanStatus::PendingMove { year, month, .. } =>
            "[move] "@ + name + " -> "@ + signed_decimal(year as int) + "/"@ + month_name_spec(month),
        ScanStatus::DuplicateSkipped => "[skip-dup] "@ + name,
        ScanStatus::NoDateSkipped => "[skip-no-date] "@ + name,
        ScanStatus::Error(e) => "[skip-err] "@ + name + " - "@ + e@,
    }
}

/// The summary shown when a scan is done.
pub open spec fn scan_summary_spec(results: Seq<ScanResult>) -> Seq<char> {
    "Scan Done! Total: "@ + decimal(results.len())
        + ", Ready: "@ + decimal(ready_count(results))
        + ", Duplicate Skips: "@ + decimal(count_kind(results, StatusKind::Duplicate))
        + ", Missing Date Skips: "@ + decimal(count_kind(results, StatusKind::NoDate))
        + ", Errors: "@ + decimal(count_kind(results, StatusKind::Error))
}

/// The log of a finished scan, given the file name of each image: a
/// heading, one line per image in order, a rule and the summary.
pub open spec fn scan_report_lines(results: Seq<ScanResult>, names: Seq<Seq<char>>) -> Seq<Seq<char>> {
    seq!["--- Scan Complete. Planned Actions: ---"@]
        + Seq::new(results.len(), |i: int| scan_line(results[i].status, names[i]))
        + seq!["---"@, scan_summary_spec(results)]
}

/// What the interface shows when a scan is done.
pub struct ScanReport {
    pub lines: Vec<String>,
    pub summary: String,
    pub ready: usize,
}

impl ScanReport {
    pub open spec fn matches(&self, results: Seq<ScanResult>, names: Seq<Seq<char>>) -> bool {
        &&& self.lines@.map_values(|l: String| l@) == scan_report_lines(results, names)
        &&& self.summary@ == scan_summary_spec(results)
        &&& self.ready == ready_count(results)
    }
}

proof fn lemma_count_step(results: Seq<ScanResult>, i: int, kind: StatusKind)
    requires
        0 <= i < results.len(),
    ensures
        count_kind(results.take(i + 1), kind) == count_kind(results.take(i), kind)
            + if status_kind(results[i].status) == kind { 1nat } else { 0nat },
{
    assert(results.take(i + 1).drop_last() =~= results.take(i));
}

proof fn lemma_count_le(results: Seq<ScanResult>, kind: StatusKind)
    ensures
        count_kind(results, kind) <= results.len(),
    decreases results.len(),
{
    if results.len() > 0 {
        lemma_count_le(results.drop_last(), kind);
    }
}

/// Every scanned image has exactly one status: the counts of the five
/// kinds add up to the number of images, and the ready ones are those to
/// be copied or moved.
pub proof fn law_counts_partition(results: Seq<ScanResult>)
    ensures
        count_kind(results, StatusKind::Copy) + count_kind(results, StatusKind::Move)
            + count_kind(results, StatusKind::Duplicate) + count_kind(results, StatusKind::NoDate)
            + count_kind(results, StatusKind::Error) == results.len(),
        ready_count(results) <= results.len(),
    decreases results.len(),
{
    if results.len() > 0 {
        law_counts_partition(results.drop_last());
    }
}

/// The line shown for one scanned image named `name`.
pub fn scan_line_text(status: &ScanStatus, name: &str) -> (r: String)
    ensures
        r@ == scan_line(*status, name@),
{
    match status {
        ScanStatus::PendingCopy { year, month, .. } => {
            let mut r = String::from_str("[copy] ");
            r.append(name);
            r.append(" -> ");
            push_signed_decimal(&mut r, *year as i64);
            r.append("/");
            r.append(month_name(*month));
            r
        },
        ScanStatus::PendingMove { year, month, .. } => {
            let mut r = String::from_str("[move] ");
            r.append(name);
            r.append(" -> ");
            push_signed_decimal(&mut r, *year as i64);
            r.append("/");
            r.append(month_name(*month));
            r
        },
        ScanStatus::DuplicateSkipped => {
            let mut r = String::from_str("[skip-dup] ");
            r.append(name);
            r
        },
        ScanStatus::NoDateSkipped => {
            let mut r = String::from_str("[skip-no-date] ");
            r.append(name);
            r
        },
        ScanStatus::Error(e) => {
            let mut r = String::from_str("[skip-err] ");
            r.append(name);
            r.append(" - ");
            r.append(e.as_str());
            r
        },
    }
}

/// The report of a finished scan, given the file name of each image.
pub fn scan_report(results: &Vec<ScanResult>, names: &Vec<String>) -> (r: ScanReport)
    requires
        names.len() == results.len(),
    ensures
        r.matches(results@, names@.map_values(|n: String| n@)),
{
    let ghost rs = results@;
    let ghost ns = names@.map_values(|n: String| n@);
    let mut lines: Vec<String> = Vec::new();
    lines.push(String::from_str("--- Scan Complete. Planned Actions: ---"));
    let mut copies: usize = 0;
    let mut moves: usize = 0;
    let mut dups: usize = 0;
    let mut nodates: usize = 0;
    let mut errors: usize = 0;
    let mut i: usize = 0;
    while i < results.len()
        invariant
            i <= results.len() == names.len(),
            rs == results@,
            ns == names@.map_values(|n: String| n@),
            lines@.len() == i + 1,
            lines@[0]@ == "--- Scan Complete. Planned Actions: ---"@,
            forall|j: int| 0 <= j < i ==> #[trigger] lines@[j + 1]@ == scan_line(rs[j].status, ns[j]),
            copies == count_kind(rs.take(i as int), StatusKind::Copy),
            moves == count_kind(rs.take(i as int), StatusKind::Move),
            dups == count_kind(rs.take(i as int), StatusKind::Duplicate),
            nodates == count_kind(rs.take(i as int), StatusKind::NoDate),
            errors == count_kind(rs.take(i as int), StatusKind::Error),
        decreases results.len() - i,
    {
        proof {
            lemma_count_step(rs, i as int, StatusKind::Copy);
            lemma_count_step(rs, i as int, StatusKind::Move);
            lemma_count_step(rs, i as int, StatusKind::Duplicate);
            lemma_count_step(rs, i as int, StatusKind::NoDate);
            lemma_count_step(rs, i as int, StatusKind::Error);
            lemma_count_le(rs.take(i as int), StatusKind::Copy);
            lemma_count_le(rs.take(i as int), StatusKind::Move);
            lemma_count_le(rs.take(i as int), StatusKind::Duplicate);
            lemma_count_le(rs.take(i as int), StatusKind::NoDate);
            lemma_count_le(rs.take(i as int), StatusKind::Error);
        }
        let res = &results[i];
        match &res.status {
            ScanStatus::PendingCopy { .. } => { copies = copies + 1; },
            ScanStatus::PendingMove { .. } => { moves = moves + 1; },
            ScanStatus::DuplicateSkipped => { dups = dups + 1; },
            ScanStatus::NoDateSkipped => { nodates = nodates + 1; },
            ScanStatus::Error(_) => { errors = errors + 1; },
        }
        let line = scan_line_text(&res.status, names[i].as_str());
        lines.push(line);
        i = i + 1;
    }
    assert(rs.take(results.len() as int) =~= rs);
    proof { law_counts_partition(rs); }
    let ready = copies + moves;
    let mut summary = String::from_str("Scan Done! Total: ");
    push_decimal(&mut summary, results.len() as u64);
    summary.append(", Ready: ");
    push_decimal(&mut summary, ready as u64);
    summary.append(", Duplicate Skips: ");
    push_decimal(&mut summary, dups as u64);
    summary.append(", Missing Date Skips: ");
    push_decimal(&mut summary, nodates as u64);
    summary.append(", Errors: ");
    push_decimal(&mut summary, errors as u64);
    lines.push(String::from_str("---"));
    lines.push(summary.clone());
    assert(summary@ =~= scan_summary_spec(rs));
    let n = results.len();
    let ghost lv = lines@.map_values(|l: String| l@);
    let ghost sv = scan_report_lines(rs, ns);
    assert forall|j: int| 0 <= j < n + 3 implies #[trigger] lv[j] == sv[j] by {
        if 1 <= j <= n {
            assert(lines@[(j - 1) + 1]@ == scan_line(rs[j - 1].status, ns[j - 1]));
        }
    }
    assert(lv =~= sv);
    ScanReport { lines, summary, ready }
}

} // verus!

verus! {

/// What the sorter does on disk for an image.
#[derive(Clone, Copy, Debug, PartialEq, Eq)]
pub enum Transfer {
    Copy,
    Move,
}

pub open spec fn transfer_spec(status: ScanStatus) -> Option<Transfer> {
    match status {
        ScanStatus::PendingCopy { .. } => Some(Transfer::Copy),
        ScanStatus::PendingMove { .. } => Some(Transfer::Move),
        _ => None,
    }
}

/// The transfer that a planned status asks for; nothing for skipped images.
pub fn planned_transfer(status: &ScanStatus) -> (r: Option<Transfer>)
    ensures
        r == transfer_spec(*status),
{
    match status {
        ScanStatus::PendingCopy { .. } => Some(Transfer::Copy),
        ScanStatus::PendingMove { .. } => Some(Transfer::Move),
        _ => None,
    }
}

/// The line logged while sorting an image named `name`; `failure` is the
/// error of its transfer, if it failed (ignored for images not transferred).
pub open spec fn sort_line(status: ScanStatus, name: Seq<char>, failure: Option<Seq<char>>) -> Seq<char> {
    match status {
        ScanStatus::PendingCopy { year, month, .. } => match failure {
            None => "Copied: "@ + name + " -> "@ + signed_decimal(year as int) + "/"@ + month_name_spec(month),
            Some(e) => "[err] "@ + name + " - "@ + e,
        },
        ScanStatus::PendingMove { year, month, .. } => match failure {
            None => "Moved: "@ + name + " -> "@ + signed_decimal(year as int) + "/"@ + month_name_spec(month),
            Some(e) => "[err] "@ + name + " - "@ + e,
        },
        ScanStatus::DuplicateSkipped => "[skip-dup] "@ + name,
        ScanStatus::NoDateSkipped => "[skip-no-date] "@ + name,
        ScanStatus::Error(e) => "[skip-err] "@ + name + " - "@ + e@,
    }
}

pub open spec fn failure_view(failure: Option<String>) -> Option<Seq<char>> {
    match failure {
        Some(e) => Some(e@),
        None => None,
    }
}

/// The line logged while sorting an image named `name`.
pub fn sort_line_text(status: &ScanStatus, name: &str, failure: &Option<String>) -> (r: String)
    ensures
        r@ == sort_line(*status, name@, failure_view(*failure)),
{
    match status {
        ScanStatus::PendingCopy { year, month, .. } | ScanStatus::PendingMove { year, month, .. } => {
            match failure {
                Some(e) => {
                    let mut r = String::from_str("[err] ");
                    r.append(name);
                    r.append(" - ");
                    r.append(e.as_str());
                    r
                },
                None => {
                    let mut r = match status {
                        ScanStatus::PendingCopy { .. } => String::from_str("Copied: "),
                        _ => String::from_str("Moved: "),
                    };
                    r.append(name);
                    r.append(" -> ");
                    push_signed_decimal(&mut r, *year as i64);
                    r.append("/");
                    r.append(month_name(*month));
                    r
                },
            }
        },
        ScanStatus::DuplicateSkipped => {
            let mut r = String::from_str("[skip-dup] ");
            r.append(name);
            r
        },
        ScanStatus::NoDateSkipped => {
            let mut r = String::from_str("[skip-no-date] ");
            r.append(name);
            r
        },
        ScanStatus::Error(e) => {
            let mut r = String::from_str("[skip-err] ");
            r.append(name);
            r.append(" - ");
            r.append(e.as_str());
            r
        },
    }
}

/// The counters of a sorting run after one more image: a transfer that
/// succeeded counts as sorted, one that failed as an error; duplicates and
/// images without a date count as skipped, scan errors as errors.
pub open spec fn tally_step(counts: (nat, nat, nat), status: ScanStatus, failed: bool) -> (nat, nat, nat) {
    let (moved, skipped, errors) = counts;
    match status_kind(status) {
        StatusKind::Copy | StatusKind::Move => if failed {
            (moved, skipped, errors + 1)
        } else {
            (moved + 1, skipped, errors)
        },
        StatusKind::Duplicate | StatusKind::NoDate => (moved, skipped + 1, errors),
        StatusKind::Error => (moved, skipped, errors + 1),
    }
}

/// Each image of a sorting run is counted exactly once: one step raises
/// the sum of the three counters by one.
pub proof fn law_each_image_counted_once(counts: (nat, nat, nat), status: ScanStatus, failed: bool)
    ensures
        ({
            let after = tally_step(counts, status, failed);
            after.0 + after.1 + after.2 == counts.0 + counts.1 + counts.2 + 1
        }),
{
}

/// The counters of a sorting run.
#[derive(Debug)]
pub struct SortTally {
    pub moved: usize,
    pub skipped: usize,
    pub errors: usize,
}

impl SortTally {
    pub open spec fn counts(&self) -> (nat, nat, nat) {
        (self.moved as nat, self.skipped as nat, self.errors as nat)
    }

    /// All counters at zero.
    pub fn new() -> (t: SortTally)
        ensures
            t.counts() == (0nat, 0nat, 0nat),
    {
        SortTally { moved: 0, skipped: 0, errors: 0 }
    }

    /// Counts the image `result`, the `index`-th of `total`, whose file is
    /// named `name` and whose transfer failed with `failure` if it failed,
    /// and gives the progress message for it.
    pub fn record(
        &mut self,
        index: usize,
        total: usize,
        result: &ScanResult,
        name: &str,
        failure: &Option<String>,
    ) -> (m: WorkerMsg)
        requires
            old(self).moved + old(self).skipped + old(self).errors < usize::MAX,
            index < usize::MAX,
        ensures
            final(self).counts() == tally_step(old(self).counts(), result.status, failure is Some),
            m matches WorkerMsg::SortProgress { current, total: t, file } && current == index + 1 && t == total
                && file@ == sort_line(result.status, name@, failure_view(*failure)),
    {
        let line = sort_line_text(&result.status, name, failure);
        match &result.status {
            ScanStatus::PendingCopy { .. } | ScanStatus::PendingMove { .. } => {
                if failure.is_some() {
                    self.errors = self.errors + 1;
                } else {
                    self.moved = self.moved + 1;
                }
            },
            ScanStatus::DuplicateSkipped | ScanStatus::NoDateSkipped => {
                self.skipped = self.skipped + 1;
            },
            ScanStatus::Error(_) => {
                self.errors = self.errors + 1;
            },
        }
        WorkerMsg::SortProgress { current: index + 1, total, file: line }
    }

    /// The message that ends a sorting run.
    pub fn done(&self) -> (m: WorkerMsg)
        ensures
            m == (WorkerMsg::SortDone { moved: self.moved, skipped: self.skipped, errors: self.errors }),
    {
        WorkerMsg::SortDone { moved: self.moved, skipped: self.skipped, errors: self.errors }
    }
}

/// The message that ends a scan that found no image, if it found none.
pub fn scan_preflight(total: usize) -> (m: Option<WorkerMsg>)
    ensures
        total == 0 <==> m is Some,
        m matches Some(WorkerMsg::Error(e)) ==> e@ == "No image files found in source directory."@,
        m matches Some(x) ==> x is Error,
{
    if total == 0 {
        Some(WorkerMsg::Error(String::from_str("No image files found in source directory.")))
    } else {
        None
    }
}

/// The counters after sorting all of `results` from zero, where
/// `failed[i]` tells whether the transfer of image `i` failed.
pub open spec fn tally_all(results: Seq<ScanResult>, failed: Seq<bool>) -> (nat, nat, nat)
    decreases results.len(),
{
    if results.len() == 0 || failed.len() != results.len() {
        (0, 0, 0)
    } else {
        tally_step(tally_all(results.drop_last(), failed.drop_last()), results.last().status, failed.last())
    }
}

/// Sorting carries out what the scan reported: of a plan of `n` images,
/// the skipped ones are exactly the duplicates and those without a date,
/// the sorted ones and the errors together are the images that were ready
/// plus those the scan could not read, and every image is counted once.
pub proof fn law_sort_follows_scan(results: Seq<ScanResult>, failed: Seq<bool>)
    requires
        failed.len() == results.len(),
    ensures
        tally_all(results, failed).1 == count_kind(results, StatusKind::Duplicate) + count_kind(results, StatusKind::NoDate),
        tally_all(results, failed).0 + tally_all(results, failed).2
            == ready_count(results) + count_kind(results, StatusKind::Error),
        tally_all(results, failed).0 + tally_all(results, failed).1 + tally_all(results, failed).2 == results.len(),
    decreases results.len(),
{
    if results.len() > 0 {
        law_sort_follows_scan(results.drop_last(), failed.drop_last());
    }
}

/// A transfer that failed counts as an error, never as sorted, for a copy
/// as for a move; one that succeeded counts as sorted. Nothing else moves.
pub proof fn law_failed_transfer_is_an_error(counts: (nat, nat, nat), status: ScanStatus)
    requires
        status is PendingCopy || status is PendingMove,
    ensures
        tally_step(counts, status, true) == (counts.0, counts.1, counts.2 + 1),
        tally_step(counts, status, false) == (counts.0 + 1, counts.1, counts.2),
{
}

/// Images that are not transferred are counted whatever a failure says:
/// duplicates and images without a date as skipped, scan errors as errors.
pub proof fn law_untransferred_images_counted(counts: (nat, nat, nat), status: ScanStatus, failed: bool)
    ensures
        (status is DuplicateSkipped || status is NoDateSkipped)
            ==> tally_step(counts, status, failed) == (counts.0, counts.1 + 1, counts.2),
        status is Error ==> tally_step(counts, status, failed) == (counts.0, counts.1, counts.2 + 1),
{
}

} // verus!
