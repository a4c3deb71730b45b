use vstd::prelude::*;
use crate::types::{ScanResult, WorkerMsg};
use crate::text::{push_decimal, decimal};
use crate::report::{ScanReport, scan_report, scan_report_lines, scan_summary_spec, ready_count};
use crate::plan::FolderLayout;

verus! {

/// One change that the interface makes, in the order given.
#[derive(Debug)]
pub enum UiAction {
    /// Appends lines to the log (see `merge_log`).
    AppendLog(Vec<String>),
    /// Sets the progress bar, out of 1000.
    SetProgress(u32),
    SetStatus(String),
    /// Shows an information box.
    ShowMessage(String),
    ClearLog,
    EnableScan(bool),
    EnableStart(bool),
    StartTimer,
    StopTimer,
    /// Keeps these results as the plan that sorting will carry out.
    StoreResults(Vec<ScanResult>),
    ClearResults,
    SetRunning(bool),
    /// Starts a scan in the background, copying or moving, and filing by
    /// year and month or by year only.
    StartScan { use_copy: bool, layout: FolderLayout },
    /// Starts sorting the kept plan in the background.
    StartSort,
}

/// A `UiAction` as the contracts see it.
pub enum UiActionView {
    AppendLog(Seq<Seq<char>>),
    SetProgress(u32),
    SetStatus(Seq<char>),
    ShowMessage(Seq<char>),
    ClearLog,
    EnableScan(bool),
    EnableStart(bool),
    StartTimer,
    StopTimer,
    StoreResults(Seq<ScanResult>),
    ClearResults,
    SetRunning(bool),
    StartScan(bool, FolderLayout),
    StartSort,
}

impl View for UiAction {
    type V = UiActionView;

    open spec fn view(&self) -> UiActionView {
        match self {
            UiAction::AppendLog(v) => UiActionView::AppendLog(v@.map_values(|l: String| l@)),
            UiAction::SetProgress(p) => UiActionView::SetProgress(*p),
            UiAction::SetStatus(s) => UiActionView::SetStatus(s@),
            UiAction::ShowMessage(s) => UiActionView::ShowMessage(s@),
            UiAction::ClearLog => UiActionView::ClearLog,
            UiAction::EnableScan(b) => UiActionView::EnableScan(*b),
            UiAction::EnableStart(b) => UiActionView::EnableStart(*b),
            UiAction::StartTimer => UiActionView::StartTimer,
            UiAction::StopTimer => UiActionView::StopTimer,
            UiAction::StoreResults(r) => UiActionView::StoreResults(r@),
            UiAction::ClearResults => UiActionView::ClearResults,
            UiAction::SetRunning(b) => UiActionView::SetRunning(*b),
            UiAction::StartScan { use_copy, layout } => UiActionView::StartScan(*use_copy, *layout),
            UiAction::StartSort => UiActionView::StartSort,
        }
    }
}

pub open spec fn actions_view(actions: Seq<UiAction>) -> Seq<UiActionView> {
    actions.map_values(|a: UiAction| a@)
}

} // verus!

verus! {

/// The log lines of a one-line batch.
fn one_line(line: String) -> (v: Vec<String>)
    ensures
        v@.map_values(|l: String| l@) == seq![line@],
{
    let mut v: Vec<String> = Vec::new();
    v.push(line);
    assert(v@.map_values(|l: String| l@) =~= seq![line@]);
    v
}

/// What pressing "Scan Folder" does. Nothing while a job runs; a message
/// when either folder is missing or the source is not a directory;
/// otherwise the interface is reset and a scan starts, copying when the
/// first operation (index 0) is selected and moving otherwise, and filing
/// by year only when the second folder structure (index 1) is selected and
/// by year and month otherwise.
pub open spec fn scan_actions_spec(
    is_running: bool,
    src: Seq<char>,
    dst: Seq<char>,
    src_is_dir: bool,
    selection: Option<usize>,
    layout_selection: Option<usize>,
) -> Seq<UiActionView> {
    if is_running {
        seq![]
    } else if src.len() == 0 || dst.len() == 0 {
        seq![UiActionView::ShowMessage("Please select both source and destination directories."@)]
    } else if !src_is_dir {
        seq![UiActionView::ShowMessage("Source directory does not exist."@)]
    } else {
        seq![
            UiActionView::ClearResults,
            UiActionView::EnableScan(false),
            UiActionView::EnableStart(false),
            UiActionView::SetProgress(0),
            UiActionView::SetStatus("Scanning..."@),
            UiActionView::ClearLog,
            UiActionView::AppendLog(seq!["Scanning Source: "@ + src]),
            UiActionView::AppendLog(seq!["---"@]),
            UiActionView::SetRunning(true),
            UiActionView::StartTimer,
            UiActionView::StartScan(selection == Some(0usize), layout_of_selection(layout_selection)),
        ]
    }
}

/// The folder structure chosen by the selected entry: "Year Only" at
/// index 1, "Year/Month" otherwise.
pub open spec fn layout_of_selection(layout_selection: Option<usize>) -> FolderLayout {
    if layout_selection == Some(1usize) {
        FolderLayout::YearOnly
    } else {
        FolderLayout::YearMonth
    }
}

/// What pressing "Scan Folder" does (see `scan_actions_spec`).
pub fn scan_actions(
    is_running: bool,
    src: &str,
    dst: &str,
    src_is_dir: bool,
    selection: Option<usize>,
    layout_selection: Option<usize>,
) -> (r: Vec<UiAction>)
    ensures
        actions_view(r@) == scan_actions_spec(is_running, src@, dst@, src_is_dir, selection, layout_selection),
{
    let mut r: Vec<UiAction> = Vec::new();
    if is_running {
        assert(actions_view(r@) =~= seq![]);
        return r;
    }
    if src.is_empty() || dst.is_empty() {
        r.push(UiAction::ShowMessage(String::from_str("Please select both source and destination directories.")));
        assert(actions_view(r@) =~= scan_actions_spec(is_running, src@, dst@, src_is_dir, selection, layout_selection));
        return r;
    }
    if !src_is_dir {
        r.push(UiAction::ShowMessage(String::from_str("Source directory does not exist.")));
        assert(actions_view(r@) =~= scan_actions_spec(is_running, src@, dst@, src_is_dir, selection, layout_selection));
        return r;
    }
    let use_copy = match selection {
        Some(i) => i == 0,
        None => false,
    };
    let layout = match layout_selection {
        Some(i) => if i == 1 { FolderLayout::YearOnly } else { FolderLayout::YearMonth },
        None => FolderLayout::YearMonth,
    };
    let mut source_line = String::from_str("Scanning Source: ");
    source_line.append(src);
    r.push(UiAction::ClearResults);
    r.push(UiAction::EnableScan(false));
    r.push(UiAction::EnableStart(false));
    r.push(UiAction::SetProgress(0));
    r.push(UiAction::SetStatus(String::from_str("Scanning...")));
    r.push(UiAction::ClearLog);
    r.push(UiAction::AppendLog(one_line(source_line)));
    r.push(UiAction::AppendLog(one_line(String::from_str("---"))));
    r.push(UiAction::SetRunning(true));
    r.push(UiAction::StartTimer);
    r.push(UiAction::StartScan { use_copy, layout });
    assert(actions_view(r@) =~= scan_actions_spec(is_running, src@, dst@, src_is_dir, selection, layout_selection));
    r
}

/// What pressing "Start Sorting" does. Nothing while a job runs; a message
/// when no scan has planned anything; otherwise the interface is reset and
/// the kept plan is carried out.
pub open spec fn start_actions_spec(is_running: bool, results: Seq<ScanResult>) -> Seq<UiActionView> {
    if is_running {
        seq![]
    } else if results.len() == 0 {
        seq![UiActionView::ShowMessage("No scanned results found. Please run Scan Folder first."@)]
    } else {
        seq![
            UiActionView::EnableScan(false),
            UiActionView::EnableStart(false),
            UiActionView::SetProgress(0),
            UiActionView::SetStatus("Sorting..."@),
            UiActionView::ClearLog,
            UiActionView::AppendLog(seq!["Starting Sorting Execution..."@]),
            UiActionView::AppendLog(seq!["---"@]),
            UiActionView::SetRunning(true),
            UiActionView::StartTimer,
            UiActionView::StartSort,
        ]
    }
}

/// What pressing "Start Sorting" does (see `start_actions_spec`).
pub fn start_actions(is_running: bool, results: &Vec<ScanResult>) -> (r: Vec<UiAction>)
    ensures
        actions_view(r@) == start_actions_spec(is_running, results@),
{
    let mut r: Vec<UiAction> = Vec::new();
    if is_running {
        assert(actions_view(r@) =~= seq![]);
        return r;
    }
    if results.len() == 0 {
        r.push(UiAction::ShowMessage(String::from_str("No scanned results found. Please run Scan Folder first.")));
        assert(actions_view(r@) =~= start_actions_spec(is_running, results@));
        return r;
    }
    r.push(UiAction::EnableScan(false));
    r.push(UiAction::EnableStart(false));
    r.push(UiAction::SetProgress(0));
    r.push(UiAction::SetStatus(String::from_str("Sorting...")));
    r.push(UiAction::ClearLog);
    r.push(UiAction::AppendLog(one_line(String::from_str("Starting Sorting Execution..."))));
    r.push(UiAction::AppendLog(one_line(String::from_str("---"))));
    r.push(UiAction::SetRunning(true));
    r.push(UiAction::StartTimer);
    r.push(UiAction::StartSort);
    assert(actions_view(r@) =~= start_actions_spec(is_running, results@));
    r
}

} // verus!

verus! {

/// The messages drained from the worker in one poll, gathered: the log
/// lines in order, the latest progress of each kind, and the latest end of
/// a job of each kind.
#[derive(Debug)]
pub struct PollBatch {
    pub logs: Vec<String>,
    pub scan_progress: Option<(usize, usize)>,
    pub sort_progress: Option<(usize, usize)>,
    pub scan_done: Option<Vec<ScanResult>>,
    pub sort_done: Option<(usize, usize, usize)>,
    pub error: Option<String>,
}

/// A `PollBatch` as the contracts see it.
pub struct PollBatchView {
    pub logs: Seq<Seq<char>>,
    pub scan_progress: Option<(usize, usize)>,
    pub sort_progress: Option<(usize, usize)>,
    pub scan_done: Option<Seq<ScanResult>>,
    pub sort_done: Option<(usize, usize, usize)>,
    pub error: Option<Seq<char>>,
}

impl View for PollBatch {
    type V = PollBatchView;

    open spec fn view(&self) -> PollBatchView {
        PollBatchView {
            logs: self.logs@.map_values(|l: String| l@),
            scan_progress: self.scan_progress,
            sort_progress: self.sort_progress,
            scan_done: match self.scan_done {
                Some(v) => Some(v@),
                None => None,
            },
            sort_done: self.sort_done,
            error: match self.error {
                Some(e) => Some(e@),
                None => None,
            },
        }
    }
}

/// The batch after one more message: a scan step logs `Scanned: <file>`, a
/// sort step logs its line; each progress, end or error message replaces
/// the one of its kind seen before.
pub open spec fn absorb_spec(b: PollBatchView, msg: WorkerMsg) -> PollBatchView {
    match msg {
        WorkerMsg::ScanProgress { current, total, file } => PollBatchView {
            logs: b.logs.push("Scanned: "@ + file@),
            scan_progress: Some((current, total)),
            ..b
        },
        WorkerMsg::ScanDone(results) => PollBatchView { scan_done: Some(results@), ..b },
        WorkerMsg::SortProgress { current, total, file } => PollBatchView {
            logs: b.logs.push(file@),
            sort_progress: Some((current, total)),
            ..b
        },
        WorkerMsg::SortDone { moved, skipped, errors } => PollBatchView {
            sort_done: Some((moved, skipped, errors)),
            ..b
        },
        WorkerMsg::Error(e) => PollBatchView { error: Some(e@), ..b },
    }
}

/// The progress bar position, out of 1000, for step `current` of `total`,
/// computed on `u32` as the interface does.
pub open spec fn permille(current: usize, total: usize) -> u32 {
    (((current as u32) * 1000) / ((total as u32) as int)) as u32
}

/// A progress report whose position can be computed: when there are steps,
/// `current * 1000` fits in a `u32` and `total` is not zero as a `u32`.
pub open spec fn progress_ok(p: Option<(usize, usize)>) -> bool {
    match p {
        Some((current, total)) => total > 0 ==> ((current as u32) * 1000 <= u32::MAX && (total as u32) != 0),
        None => true,
    }
}

pub open spec fn progress_text(prefix: Seq<char>, current: usize, total: usize) -> Seq<char> {
    prefix + decimal(current as nat) + "/"@ + decimal(total as nat) + "..."@
}

/// The progress bar and status line for the latest progress of one kind.
pub open spec fn progress_part(p: Option<(usize, usize)>, prefix: Seq<char>) -> Seq<UiActionView> {
    match p {
        Some((current, total)) =>
            (if total > 0 { seq![UiActionView::SetProgress(permille(current, total))] } else { seq![] })
                + seq![UiActionView::SetStatus(progress_text(prefix, current, total))],
        None => seq![],
    }
}

/// The summary shown when sorting is done.
pub open spec fn sort_summary_spec(moved: usize, skipped: usize, errors: usize) -> Seq<char> {
    "Done! Sorted: "@ + decimal(moved as nat) + ", Skipped: "@ + decimal(skipped as nat)
        + ", Errors: "@ + decimal(errors as nat)
}

pub open spec fn scan_done_part(results: Seq<ScanResult>, names: Seq<Seq<char>>) -> Seq<UiActionView> {
    seq![
        UiActionView::SetProgress(1000),
        UiActionView::AppendLog(scan_report_lines(results, names)),
        UiActionView::SetStatus(scan_summary_spec(results)),
        UiActionView::StopTimer,
        UiActionView::EnableScan(true),
        UiActionView::EnableStart(ready_count(results) > 0),
        UiActionView::StoreResults(results),
        UiActionView::SetRunning(false),
    ]
}

pub open spec fn sort_done_part(moved: usize, skipped: usize, errors: usize) -> Seq<UiActionView> {
    seq![
        UiActionView::SetProgress(1000),
        UiActionView::SetStatus(sort_summary_spec(moved, skipped, errors)),
        UiActionView::AppendLog(seq!["---\r\n"@ + sort_summary_spec(moved, skipped, errors)]),
        UiActionView::StopTimer,
        UiActionView::EnableScan(true),
        UiActionView::EnableStart(false),
        UiActionView::ClearResults,
        UiActionView::SetRunning(false),
    ]
}

pub open spec fn error_part(e: Seq<char>) -> Seq<UiActionView> {
    seq![
        UiActionView::SetStatus("Error!"@),
        UiActionView::AppendLog(seq!["ERROR: "@ + e]),
        UiActionView::StopTimer,
        UiActionView::EnableScan(true),
        UiActionView::EnableStart(false),
        UiActionView::SetRunning(false),
    ]
}

/// How a job ends in the interface: a finished scan shows its report and
/// keeps its results, enabling "Start Sorting" when something is ready;
/// finished sorting shows its summary and drops the plan; an error is
/// shown. Only the first of these present in the batch is applied.
pub open spec fn finish_part(b: PollBatchView, names: Seq<Seq<char>>) -> Seq<UiActionView> {
    match b.scan_done {
        Some(results) => scan_done_part(results, names),
        None => match b.sort_done {
            Some((moved, skipped, errors)) => sort_done_part(moved, skipped, errors),
            None => match b.error {
                Some(e) => error_part(e),
                None => seq![],
            },
        },
    }
}

/// What the interface does with one poll's batch, given the file names of
/// a finished scan's images: the gathered log lines in one batch, the
/// latest scan and sort progress, then the end of the job.
pub open spec fn poll_actions_spec(b: PollBatchView, names: Seq<Seq<char>>) -> Seq<UiActionView> {
    (if b.logs.len() > 0 { seq![UiActionView::AppendLog(b.logs)] } else { seq![] })
        + progress_part(b.scan_progress, "Scanning "@)
        + progress_part(b.sort_progress, "Sorting "@)
        + finish_part(b, names)
}

fn push_progress(r: &mut Vec<UiAction>, p: Option<(usize, usize)>, prefix: &str)
    requires
        progress_ok(p),
    ensures
        actions_view(final(r)@) == actions_view(old(r)@) + progress_part(p, prefix@),
{
    match p {
        Some((current, total)) => {
            if total > 0 {
                let pct = ((current as u32) * 1000) / (total as u32);
                r.push(UiAction::SetProgress(pct));
            }
            let mut text = String::from_str(prefix);
            push_decimal(&mut text, current as u64);
            text.append("/");
            push_decimal(&mut text, total as u64);
            text.append("...");
            r.push(UiAction::SetStatus(text));
        },
        None => {},
    }
    assert(actions_view(final(r)@) =~= actions_view(old(r)@) + progress_part(p, prefix@));
}

fn scan_done_actions(results: Vec<ScanResult>, file_names: &Vec<String>) -> (r: Vec<UiAction>)
    requires
        file_names.len() == results.len(),
    ensures
        actions_view(r@) == scan_done_part(results@, file_names@.map_values(|n: String| n@)),
{
    let ghost rs = results@;
    let ghost names = file_names@.map_values(|n: String| n@);
    let report: ScanReport = scan_report(&results, file_names);
    let ready = report.ready;
    let mut r: Vec<UiAction> = Vec::new();
    r.push(UiAction::SetProgress(1000));
    r.push(UiAction::AppendLog(report.lines));
    r.push(UiAction::SetStatus(report.summary));
    r.push(UiAction::StopTimer);
    r.push(UiAction::EnableScan(true));
    r.push(UiAction::EnableStart(ready > 0));
    r.push(UiAction::StoreResults(results));
    r.push(UiAction::SetRunning(false));
    assert(actions_view(r@) =~= scan_done_part(rs, names));
    r
}

fn sort_done_actions(moved: usize, skipped: usize, errors: usize) -> (r: Vec<UiAction>)
    ensures
        actions_view(r@) == sort_done_part(moved, skipped, errors),
{
    let mut summary = String::from_str("Done! Sorted: ");
    push_decimal(&mut summary, moved as u64);
    summary.append(", Skipped: ");
    push_decimal(&mut summary, skipped as u64);
    summary.append(", Errors: ");
    push_decimal(&mut summary, errors as u64);
    let mut line = String::from_str("---\r\n");
    line.append(summary.as_str());
    let mut r: Vec<UiAction> = Vec::new();
    r.push(UiAction::SetProgress(1000));
    r.push(UiAction::SetStatus(summary));
    r.push(UiAction::AppendLog(one_line(line)));
    r.push(UiAction::StopTimer);
    r.push(UiAction::EnableScan(true));
    r.push(UiAction::EnableStart(false));
    r.push(UiAction::ClearResults);
    r.push(UiAction::SetRunning(false));
    assert(actions_view(r@) =~= sort_done_part(moved, skipped, errors));
    r
}

fn error_actions(e: String) -> (r: Vec<UiAction>)
    ensures
        actions_view(r@) == error_part(e@),
{
    let mut line = String::from_str("ERROR: ");
    line.append(e.as_str());
    let mut r: Vec<UiAction> = Vec::new();
    r.push(UiAction::SetStatus(String::from_str("Error!")));
    r.push(UiAction::AppendLog(one_line(line)));
    r.push(UiAction::StopTimer);
    r.push(UiAction::EnableScan(true));
    r.push(UiAction::EnableStart(false));
    r.push(UiAction::SetRunning(false));
    assert(actions_view(r@) =~= error_part(e@));
    r
}

impl PollBatch {
    /// A batch with nothing gathered.
    pub fn new() -> (b: PollBatch)
        ensures
            b@.logs.len() == 0,
            b@.scan_progress is None,
            b@.sort_progress is None,
            b@.scan_done is None,
            b@.sort_done is None,
            b@.error is None,
    {
        let b = PollBatch {
            logs: Vec::new(),
            scan_progress: None,
            sort_progress: None,
            scan_done: None,
            sort_done: None,
            error: None,
        };
        assert(b@.logs =~= Seq::<Seq<char>>::empty());
        b
    }

    /// Gathers one message from the worker.
    pub fn absorb(&mut self, msg: WorkerMsg)
        ensures
            final(self)@ == absorb_spec(old(self)@, msg),
    {
        let ghost m = msg;
        match msg {
            WorkerMsg::ScanProgress { current, total, file } => {
                let mut line = String::from_str("Scanned: ");
                line.append(file.as_str());
                self.logs.push(line);
                self.scan_progress = Some((current, total));
            },
            WorkerMsg::ScanDone(results) => {
                self.scan_done = Some(results);
            },
            WorkerMsg::SortProgress { current, total, file } => {
                self.logs.push(file);
                self.sort_progress = Some((current, total));
            },
            WorkerMsg::SortDone { moved, skipped, errors } => {
                self.sort_done = Some((moved, skipped, errors));
            },
            WorkerMsg::Error(e) => {
                self.error = Some(e);
            },
        }
        assert(final(self)@.logs =~= absorb_spec(old(self)@, m).logs);
    }

    /// Whether the progress bar positions of this batch can be computed
    /// (see `progress_ok`).
    pub fn progress_in_range(&self) -> (r: bool)
        ensures
            r == (progress_ok(self.scan_progress) && progress_ok(self.sort_progress)),
    {
        let a = match self.scan_progress {
            Some((current, total)) => total == 0 || ((current as u32) <= 4294967 && (total as u32) != 0),
            None => true,
        };
        let b = match self.sort_progress {
            Some((current, total)) => total == 0 || ((current as u32) <= 4294967 && (total as u32) != 0),
            None => true,
        };
        a && b
    }

    /// What the interface does with this batch (see `poll_actions_spec`);
    /// `file_names` are the file names of a finished scan's images, in
    /// order, as its report shows them.
    pub fn actions(self, file_names: &Vec<String>) -> (r: Vec<UiAction>)
        requires
            progress_ok(self.scan_progress),
            progress_ok(self.sort_progress),
            self@.scan_done matches Some(results) ==> file_names.len() == results.len(),
        ensures
            actions_view(r@) == poll_actions_spec(self@, file_names@.map_values(|n: String| n@)),
    {
        let ghost b = self@;
        let PollBatch { logs, scan_progress, sort_progress, scan_done, sort_done, error } = self;
        let mut r: Vec<UiAction> = Vec::new();
        if logs.len() > 0 {
            r.push(UiAction::AppendLog(logs));
        }
        let ghost first = if b.logs.len() > 0 { seq![UiActionView::AppendLog(b.logs)] } else { seq![] };
        assert(actions_view(r@) =~= first);
        push_progress(&mut r, scan_progress, "Scanning ");
        push_progress(&mut r, sort_progress, "Sorting ");
        let ghost names = file_names@.map_values(|n: String| n@);
        let mut tail: Vec<UiAction> = match scan_done {
            Some(results) => scan_done_actions(results, file_names),
            None => match sort_done {
                Some((moved, skipped, errors)) => sort_done_actions(moved, skipped, errors),
                None => match error {
                    Some(e) => error_actions(e),
                    None => Vec::new(),
                },
            },
        };
        assert(actions_view(tail@) =~= finish_part(b, names));
        r.append(&mut tail);
        assert(actions_view(r@) =~= poll_actions_spec(b, names));
        r
    }
}

/// The progress bar never runs past its end: for step `current` of
/// `total`, with `total` in `u32` range, the position is at most 1000.
pub proof fn law_progress_within_bar(current: usize, total: usize)
    requires
        current <= total,
        0 < total <= u32::MAX,
        progress_ok(Some((current, total))),
    ensures
        permille(current, total) <= 1000,
{
    let c = current as u32;
    let t = total as u32;
    assert(c as int == current as int && t as int == total as int);
    assert((c as int) * 1000 / (t as int) <= 1000) by (nonlinear_arith)
        requires
            c <= t,
            t > 0,
    ;
}

} // verus!

verus! {

/// The state of the interface that its buttons depend on: whether a job
/// runs, which buttons are enabled, and the kept plan.
pub struct UiState {
    pub running: bool,
    pub scan_enabled: bool,
    pub start_enabled: bool,
    pub plan: Seq<ScanResult>,
    /// Whether the timer that polls the worker is running.
    pub timer_on: bool,
}

/// The state after one action; actions that do not touch it leave it.
pub open spec fn apply_action(s: UiState, a: UiActionView) -> UiState {
    match a {
        UiActionView::EnableScan(on) => UiState { scan_enabled: on, ..s },
        UiActionView::EnableStart(on) => UiState { start_enabled: on, ..s },
        UiActionView::StoreResults(results) => UiState { plan: results, ..s },
        UiActionView::ClearResults => UiState { plan: Seq::empty(), ..s },
        UiActionView::SetRunning(on) => UiState { running: on, ..s },
        UiActionView::StartTimer => UiState { timer_on: true, ..s },
        UiActionView::StopTimer => UiState { timer_on: false, ..s },
        _ => s,
    }
}

/// The state after a sequence of actions, carried out in order.
pub open spec fn apply_actions(s: UiState, actions: Seq<UiActionView>) -> UiState
    decreases actions.len(),
{
    if actions.len() == 0 {
        s
    } else {
        apply_actions(apply_action(s, actions[0]), actions.drop_first())
    }
}

/// While a job runs neither button can be pressed, and "Start Sorting" can
/// be pressed only when idle with a plan that copies or moves something.
pub open spec fn ui_invariant(s: UiState) -> bool {
    &&& s.running ==> !s.scan_enabled && !s.start_enabled
    &&& s.start_enabled ==> !s.running && ready_count(s.plan) > 0
}

/// The state of a freshly built interface: idle, "Scan Folder" enabled,
/// "Start Sorting" disabled, no plan.
pub open spec fn initial_ui_state() -> UiState {
    UiState { running: false, scan_enabled: true, start_enabled: false, plan: Seq::empty(), timer_on: false }
}

proof fn lemma_apply_concat(s: UiState, a: Seq<UiActionView>, b: Seq<UiActionView>)
    ensures
        apply_actions(s, a + b) == apply_actions(apply_actions(s, a), b),
    decreases a.len(),
{
    if a.len() == 0 {
        assert(a + b =~= b);
    } else {
        assert((a + b).drop_first() =~= a.drop_first() + b);
        assert((a + b)[0] == a[0]);
        lemma_apply_concat(apply_action(s, a[0]), a.drop_first(), b);
    }
}

pub open spec fn leaves_state(a: UiActionView) -> bool {
    a is AppendLog || a is SetProgress || a is SetStatus || a is ShowMessage || a is ClearLog
}

proof fn lemma_apply_neutral(s: UiState, actions: Seq<UiActionView>)
    requires
        forall|i: int| 0 <= i < actions.len() ==> leaves_state(#[trigger] actions[i]),
    ensures
        apply_actions(s, actions) == s,
    decreases actions.len(),
{
    if actions.len() > 0 {
        assert(leaves_state(actions[0]));
        assert forall|i: int| 0 <= i < actions.drop_first().len() implies leaves_state(#[trigger] actions.drop_first()[i]) by {
            assert(actions.drop_first()[i] == actions[i + 1]);
        }
        lemma_apply_neutral(s, actions.drop_first());
    }
}

/// The interface starts in a consistent state.
pub proof fn law_ui_starts_consistent()
    ensures
        ui_invariant(initial_ui_state()),
{
}

/// Pressing "Scan Folder" keeps the interface consistent.
pub proof fn law_scan_keeps_ui_consistent(
    s: UiState,
    src: Seq<char>,
    dst: Seq<char>,
    src_is_dir: bool,
    selection: Option<usize>,
    layout_selection: Option<usize>,
)
    requires
        ui_invariant(s),
    ensures
        ui_invariant(apply_actions(s, scan_actions_spec(s.running, src, dst, src_is_dir, selection, layout_selection))),
{
    let acts = scan_actions_spec(s.running, src, dst, src_is_dir, selection, layout_selection);
    if s.running || src.len() == 0 || dst.len() == 0 || !src_is_dir {
        assert forall|i: int| 0 <= i < acts.len() implies leaves_state(#[trigger] acts[i]) by {}
        lemma_apply_neutral(s, acts);
    } else {
        reveal_with_fuel(apply_actions, 12);
        assert(acts.drop_first().drop_first().drop_first().drop_first().drop_first().drop_first()
            .drop_first().drop_first().drop_first().drop_first().drop_first().len() == 0);
    }
}

/// Pressing "Start Sorting" keeps the interface consistent.
pub proof fn law_start_keeps_ui_consistent(s: UiState)
    requires
        ui_invariant(s),
    ensures
        ui_invariant(apply_actions(s, start_actions_spec(s.running, s.plan))),
{
    let acts = start_actions_spec(s.running, s.plan);
    if s.running || s.plan.len() == 0 {
        assert forall|i: int| 0 <= i < acts.len() implies leaves_state(#[trigger] acts[i]) by {}
        lemma_apply_neutral(s, acts);
    } else {
        reveal_with_fuel(apply_actions, 11);
        assert(acts.drop_first().drop_first().drop_first().drop_first().drop_first().drop_first()
            .drop_first().drop_first().drop_first().drop_first().len() == 0);
    }
}

proof fn lemma_scan_done_consistent(s: UiState, results: Seq<ScanResult>, names: Seq<Seq<char>>)
    ensures
        ui_invariant(apply_actions(s, scan_done_part(results, names))),
{
    reveal_with_fuel(apply_actions, 9);
}

proof fn lemma_sort_done_consistent(s: UiState, moved: usize, skipped: usize, errors: usize)
    ensures
        ui_invariant(apply_actions(s, sort_done_part(moved, skipped, errors))),
{
    reveal_with_fuel(apply_actions, 9);
}

proof fn lemma_error_consistent(s: UiState, e: Seq<char>)
    ensures
        ui_invariant(apply_actions(s, error_part(e))),
{
    reveal_with_fuel(apply_actions, 7);
}

/// Handling a poll keeps the interface consistent: a finished scan enables
/// "Start Sorting" exactly when its plan copies or moves something, and
/// every end of a job leaves the interface idle with "Scan Folder" enabled.
pub proof fn law_poll_keeps_ui_consistent(s: UiState, b: PollBatchView, names: Seq<Seq<char>>)
    requires
        ui_invariant(s),
    ensures
        ui_invariant(apply_actions(s, poll_actions_spec(b, names))),
{
    let first = if b.logs.len() > 0 { seq![UiActionView::AppendLog(b.logs)] } else { seq![] };
    let p1 = progress_part(b.scan_progress, "Scanning "@);
    let p2 = progress_part(b.sort_progress, "Sorting "@);
    let fin = finish_part(b, names);
    let front = first + p1 + p2;
    assert(poll_actions_spec(b, names) == front + fin);
    assert forall|i: int| 0 <= i < front.len() implies leaves_state(#[trigger] front[i]) by {
        if i < first.len() {
            assert(front[i] == first[i]);
        } else if i < first.len() + p1.len() {
            assert(front[i] == p1[i - first.len()]);
        } else {
            assert(front[i] == p2[i - first.len() - p1.len()]);
        }
    }
    lemma_apply_neutral(s, front);
    lemma_apply_concat(s, front, fin);
    match b.scan_done {
        Some(results) => lemma_scan_done_consistent(s, results, names),
        None => match b.sort_done {
            Some((moved, skipped, errors)) => lemma_sort_done_consistent(s, moved, skipped, errors),
            None => match b.error {
                Some(e) => lemma_error_consistent(s, e),
                None => {
                    assert(fin.len() == 0);
                },
            },
        },
    }
}

/// Whether some result plans an image to be copied or moved.
pub open spec fn has_ready_image(results: Seq<ScanResult>) -> bool {
    exists|i: int| 0 <= i < results.len() && (#[trigger] results[i].status is PendingCopy || results[i].status is PendingMove)
}

proof fn lemma_ready_count_positive(results: Seq<ScanResult>)
    ensures
        (ready_count(results) > 0) == has_ready_image(results),
    decreases results.len(),
{
    if results.len() > 0 {
        let init = results.drop_last();
        lemma_ready_count_positive(init);
        if has_ready_image(init) {
            let i = choose|i: int| 0 <= i < init.len() && (#[trigger] init[i].status is PendingCopy || init[i].status is PendingMove);
            assert(results[i] == init[i]);
        }
        if has_ready_image(results) {
            let i = choose|i: int| 0 <= i < results.len() && (#[trigger] results[i].status is PendingCopy || results[i].status is PendingMove);
            if i < init.len() {
                assert(init[i] == results[i]);
            }
        }
        let last = results.len() - 1;
        if results[last].status is PendingCopy || results[last].status is PendingMove {
            assert(has_ready_image(results));
        }
    }
}

/// When a scan finishes, the interface goes idle with "Scan Folder"
/// enabled, keeps the scan's results as the plan, and enables "Start
/// Sorting" exactly when some image of the plan is to be copied or moved,
/// whatever the state before.
pub proof fn law_finished_scan_enables_start_iff_ready(
    s: UiState,
    b: PollBatchView,
    names: Seq<Seq<char>>,
    results: Seq<ScanResult>,
)
    requires
        b.scan_done == Some(results),
    ensures
        ({
            let t = apply_actions(s, poll_actions_spec(b, names));
            &&& t.start_enabled == has_ready_image(results)
            &&& t.scan_enabled
            &&& !t.running
            &&& !t.timer_on
            &&& t.plan == results
        }),
{
    let first = if b.logs.len() > 0 { seq![UiActionView::AppendLog(b.logs)] } else { seq![] };
    let p1 = progress_part(b.scan_progress, "Scanning "@);
    let p2 = progress_part(b.sort_progress, "Sorting "@);
    let fin = finish_part(b, names);
    let front = first + p1 + p2;
    assert(poll_actions_spec(b, names) == front + fin);
    assert forall|i: int| 0 <= i < front.len() implies leaves_state(#[trigger] front[i]) by {
        if i < first.len() {
            assert(front[i] == first[i]);
        } else if i < first.len() + p1.len() {
            assert(front[i] == p1[i - first.len()]);
        } else {
            assert(front[i] == p2[i - first.len() - p1.len()]);
        }
    }
    lemma_apply_neutral(s, front);
    lemma_apply_concat(s, front, fin);
    lemma_ready_count_positive(results);
    reveal_with_fuel(apply_actions, 9);
}

/// The poll timer runs whenever a job runs, so that the job's progress and
/// end are shown.
pub open spec fn timer_follows_job(s: UiState) -> bool {
    s.running ==> s.timer_on
}

/// Pressing "Scan Folder" starts the poll timer with the scan: after it,
/// whenever a job runs the timer runs; and when the scan starts, the job
/// runs and the timer is on.
pub proof fn law_scan_starts_the_timer(
    s: UiState,
    src: Seq<char>,
    dst: Seq<char>,
    src_is_dir: bool,
    selection: Option<usize>,
    layout_selection: Option<usize>,
)
    requires
        timer_follows_job(s),
    ensures
        ({
            let acts = scan_actions_spec(s.running, src, dst, src_is_dir, selection, layout_selection);
            let t = apply_actions(s, acts);
            &&& timer_follows_job(t)
            &&& (!s.running && src.len() > 0 && dst.len() > 0 && src_is_dir) ==> (t.running && t.timer_on)
        }),
{
    let acts = scan_actions_spec(s.running, src, dst, src_is_dir, selection, layout_selection);
    if s.running || src.len() == 0 || dst.len() == 0 || !src_is_dir {
        assert forall|i: int| 0 <= i < acts.len() implies leaves_state(#[trigger] acts[i]) by {}
        lemma_apply_neutral(s, acts);
    } else {
        reveal_with_fuel(apply_actions, 12);
        assert(acts.drop_first().drop_first().drop_first().drop_first().drop_first().drop_first()
            .drop_first().drop_first().drop_first().drop_first().drop_first().len() == 0);
    }
}

/// Pressing "Start Sorting" starts the poll timer with the sorting job.
pub proof fn law_start_starts_the_timer(s: UiState)
    requires
        timer_follows_job(s),
    ensures
        ({
            let t = apply_actions(s, start_actions_spec(s.running, s.plan));
            &&& timer_follows_job(t)
            &&& (!s.running && s.plan.len() > 0) ==> (t.running && t.timer_on)
        }),
{
    let acts = start_actions_spec(s.running, s.plan);
    if s.running || s.plan.len() == 0 {
        assert forall|i: int| 0 <= i < acts.len() implies leaves_state(#[trigger] acts[i]) by {}
        lemma_apply_neutral(s, acts);
    } else {
        reveal_with_fuel(apply_actions, 11);
        assert(acts.drop_first().drop_first().drop_first().drop_first().drop_first().drop_first()
            .drop_first().drop_first().drop_first().drop_first().len() == 0);
    }
}

proof fn lemma_finish_stops_job(s: UiState, b: PollBatchView, names: Seq<Seq<char>>)
    ensures
        ({
            let t = apply_actions(s, finish_part(b, names));
            (b.scan_done is Some || b.sort_done is Some || b.error is Some) ==> (!t.running && !t.timer_on)
        }),
        (b.scan_done is None && b.sort_done is None && b.error is None) ==> apply_actions(s, finish_part(b, names)) == s,
{
    reveal_with_fuel(apply_actions, 9);
}

/// Handling a poll keeps the timer running while a job runs, and stops
/// both when the job ends.
pub proof fn law_poll_keeps_timer_with_job(s: UiState, b: PollBatchView, names: Seq<Seq<char>>)
    requires
        timer_follows_job(s),
    ensures
        timer_follows_job(apply_actions(s, poll_actions_spec(b, names))),
{
    let first = if b.logs.len() > 0 { seq![UiActionView::AppendLog(b.logs)] } else { seq![] };
    let p1 = progress_part(b.scan_progress, "Scanning "@);
    let p2 = progress_part(b.sort_progress, "Sorting "@);
    let fin = finish_part(b, names);
    let front = first + p1 + p2;
    assert(poll_actions_spec(b, names) == front + fin);
    assert forall|i: int| 0 <= i < front.len() implies leaves_state(#[trigger] front[i]) by {
        if i < first.len() {
            assert(front[i] == first[i]);
        } else if i < first.len() + p1.len() {
            assert(front[i] == p1[i - first.len()]);
        } else {
            assert(front[i] == p2[i - first.len() - p1.len()]);
        }
    }
    lemma_apply_neutral(s, front);
    lemma_apply_concat(s, front, fin);
    lemma_finish_stops_job(s, b, names);
}

} // verus!
