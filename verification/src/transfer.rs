//! The decisions of a running transfer: what the progress is after each
//! chunk, and which chunks are reported.
//!
//! Chunks can arrive far faster than anything can show them, so a report is
//! due only once 50 ms have passed since the last one. The spacing is by the
//! clock, not by the number of chunks. The final report is always made.
//!
//! Times are milliseconds since the transfer was started.

use vstd::prelude::*;
use vstd::string::StringExecFns;
use crate::layout::{archive_path, archive_path_of, archive_url, archive_url_of};
use crate::progress::{
    lemma_percentage_monotonic, lemma_percentage_range, total_known,
    Emission, Progress, ProgressSignal, FULL_PERCENTAGE, UNKNOWN_TOTAL_PERCENTAGE,
};

verus! {

/// The least time, in milliseconds, between two intermediate reports.
pub const UPDATE_SPEED: u64 = 50;

/// One chunk of a transfer: its length in bytes and the time at which it had
/// been stored.
#[derive(Clone, Copy, Debug, PartialEq, Eq, Structural)]
pub struct Arrival {
    pub len: u64,
    pub at_ms: u64,
}

/// A transfer in flight.
#[derive(Clone, Copy, Debug, PartialEq, Eq, Structural)]
pub struct Transfer {
    /// The progress as of the last chunk.
    pub progress: Progress,
    /// When the last intermediate report was made, or when the stream was
    /// opened if none has been made yet.
    pub last_emit_ms: u64,
}

impl Transfer {
    /// The transfer as it stands when the stream is opened at `now_ms`.
    pub open spec fn started(filesize: Option<u64>, now_ms: u64) -> Transfer {
        Transfer { progress: Progress::measured(0, now_ms, filesize), last_emit_ms: now_ms }
    }

    /// Whether a report is due at `now_ms`.
    pub open spec fn due(&self, now_ms: u64) -> bool {
        now_ms - self.last_emit_ms >= UPDATE_SPEED
    }

    /// Whether the byte count can take `len` more bytes.
    pub open spec fn fits(&self, len: u64) -> bool {
        self.progress.transfered + len <= u64::MAX
    }

    /// The transfer after the chunk `arrival`.
    pub open spec fn after(&self, arrival: Arrival) -> Transfer {
        Transfer {
            progress: Progress::measured(
                (self.progress.transfered + arrival.len) as u64,
                arrival.at_ms,
                self.progress.filesize,
            ),
            last_emit_ms: if self.due(arrival.at_ms) {
                arrival.at_ms
            } else {
                self.last_emit_ms
            },
        }
    }

    /// The report made for the chunk `arrival`, if one is due.
    pub open spec fn report(&self, arrival: Arrival) -> Option<Emission> {
        if self.due(arrival.at_ms) {
            Some(
                Emission {
                    signal: ProgressSignal::Progress,
                    percentage: self.after(arrival).progress.percentage,
                },
            )
        } else {
            None
        }
    }

    /// The final report of the transfer.
    pub open spec fn final_report(&self) -> Emission {
        Emission { signal: ProgressSignal::Finished, percentage: self.progress.percentage }
    }

    /// Opens a transfer of `filesize` bytes, if that is known, at `now_ms`.
    pub fn begin(filesize: Option<u64>, now_ms: u64) -> (t: Transfer)
        ensures
            t == Transfer::started(filesize, now_ms),
            t.progress.transfered == 0,
            t.progress.consistent(),
    {
        Transfer { progress: Progress::compute(0, now_ms, filesize), last_emit_ms: now_ms }
    }

    /// Takes in a chunk of `len` bytes that had been stored at `now_ms`, and
    /// returns the report to deliver for it, if one is due.
    pub fn on_chunk(&mut self, len: u64, now_ms: u64) -> (emitted: Option<Emission>)
        requires
            old(self).fits(len),
        ensures
            *final(self) == old(self).after(Arrival { len, at_ms: now_ms }),
            emitted == old(self).report(Arrival { len, at_ms: now_ms }),
            final(self).progress.consistent(),
            final(self).progress.transfered == old(self).progress.transfered + len,
    {
        let transferred: u64 = self.progress.transfered + len;
        let progress = Progress::compute(transferred, now_ms, self.progress.filesize);
        self.progress = progress;
        if now_ms >= self.last_emit_ms && now_ms - self.last_emit_ms >= UPDATE_SPEED {
            self.last_emit_ms = now_ms;
            Some(progress.emit_progress())
        } else {
            None
        }
    }

    /// The report that closes the transfer. It is made whatever time has
    /// passed since the last one.
    pub fn finish(&self) -> (e: Emission)
        ensures
            e == self.final_report(),
    {
        self.progress.emit_finished()
    }
}

/// Why a transfer did not complete.
#[derive(Debug, PartialEq, Eq)]
pub enum TransferError {
    /// The file to write to could not be created. Nothing has been requested.
    DestinationUnwritable { path: String, detail: String },
    /// The request failed before any byte was written.
    RequestFailed { url: String, detail: String },
    /// The stream broke off. What had been written stays in place.
    StreamFailed { target: String, detail: String },
    /// A chunk could not be written. What had been written stays in place.
    WriteFailed { target: String, detail: String },
}

/// `TransferError`, with its texts as sequences of characters.
pub ghost enum TransferErrorView {
    DestinationUnwritable { path: Seq<char>, detail: Seq<char> },
    RequestFailed { url: Seq<char>, detail: Seq<char> },
    StreamFailed { target: Seq<char>, detail: Seq<char> },
    WriteFailed { target: Seq<char>, detail: Seq<char> },
}

impl View for TransferError {
    type V = TransferErrorView;

    open spec fn view(&self) -> TransferErrorView {
        match self {
            TransferError::DestinationUnwritable { path, detail } => {
                TransferErrorView::DestinationUnwritable { path: path@, detail: detail@ }
            },
            TransferError::RequestFailed { url, detail } => TransferErrorView::RequestFailed {
                url: url@,
                detail: detail@,
            },
            TransferError::StreamFailed { target, detail } => TransferErrorView::StreamFailed {
                target: target@,
                detail: detail@,
            },
            TransferError::WriteFailed { target, detail } => TransferErrorView::WriteFailed {
                target: target@,
                detail: detail@,
            },
        }
    }
}

impl DeepView for TransferError {
    type V = TransferErrorView;

    open spec fn deep_view(&self) -> TransferErrorView {
        self@
    }
}

impl TransferErrorView {
    /// The message by which this error is shown.
    pub open spec fn message(self) -> Seq<char> {
        match self {
            TransferErrorView::DestinationUnwritable { path, detail } => {
                "File creation failed on "@ + path
            },
            TransferErrorView::RequestFailed { url, detail } => "Parsing failed for "@ + url
                + ": "@ + detail,
            TransferErrorView::StreamFailed { target, detail } => "Failed to download file `"@
                + target + "`"@,
            TransferErrorView::WriteFailed { target, detail } => "Failed to write file `"@
                + target + "`"@,
        }
    }

    /// What the system said when the error occurred, as it said it.
    pub open spec fn detail(self) -> Seq<char> {
        match self {
            TransferErrorView::DestinationUnwritable { path, detail } => detail,
            TransferErrorView::RequestFailed { url, detail } => detail,
            TransferErrorView::StreamFailed { target, detail } => detail,
            TransferErrorView::WriteFailed { target, detail } => detail,
        }
    }
}

impl TransferError {
    /// The message by which this error is shown.
    pub fn message(&self) -> (text: String)
        ensures
            text@ == self@.message(),
    {
        match self {
            TransferError::DestinationUnwritable { path, detail } => {
                "File creation failed on ".to_owned().concat(path.as_str())
            },
            TransferError::RequestFailed { url, detail } => {
                "Parsing failed for ".to_owned().concat(url.as_str()).concat(": ").concat(
                    detail.as_str(),
                )
            },
            TransferError::StreamFailed { target, detail } => {
                "Failed to download file `".to_owned().concat(target.as_str()).concat("`")
            },
            TransferError::WriteFailed { target, detail } => {
                "Failed to write file `".to_owned().concat(target.as_str()).concat("`")
            },
        }
    }

    /// What the system said when the error occurred, as it said it.
    pub fn detail(&self) -> (text: String)
        ensures
            text@ == self@.detail(),
    {
        match self {
            TransferError::DestinationUnwritable { path, detail } => detail.clone(),
            TransferError::RequestFailed { url, detail } => detail.clone(),
            TransferError::StreamFailed { target, detail } => detail.clone(),
            TransferError::WriteFailed { target, detail } => detail.clone(),
        }
    }
}

/// What the fetch of one version works on: where the archive comes from,
/// the file it is written to, and the directory that file lies in.
#[derive(Clone, Debug, PartialEq, Eq)]
pub struct Fetch {
    pub url: String,
    pub path: String,
    pub target_path: String,
}

/// `Fetch`, with its texts as sequences of characters.
pub ghost struct FetchView {
    pub url: Seq<char>,
    pub path: Seq<char>,
    pub target_path: Seq<char>,
}

impl View for Fetch {
    type V = FetchView;

    open spec fn view(&self) -> FetchView {
        FetchView { url: self.url@, path: self.path@, target_path: self.target_path@ }
    }
}

impl DeepView for Fetch {
    type V = FetchView;

    open spec fn deep_view(&self) -> FetchView {
        self@
    }
}

impl Fetch {
    /// The fetch of the source archive of `version` into `target_path`.
    pub open spec fn planned(version: Seq<char>, target_path: Seq<char>) -> FetchView {
        FetchView {
            url: archive_url_of(version),
            path: archive_path_of(target_path, version),
            target_path,
        }
    }

    /// The fetch of the source archive of `version` into `target_path`.
    pub fn plan(version: &str, target_path: &str) -> (fetch: Fetch)
        ensures
            fetch@ == Fetch::planned(version@, target_path@),
    {
        Fetch {
            url: archive_url(version),
            path: archive_path(target_path, version),
            target_path: target_path.to_owned(),
        }
    }

    /// The error of a fetch whose file could not be created; `detail` is what
    /// the system said.
    pub fn destination_unwritable(&self, detail: String) -> (error: TransferError)
        ensures
            error@ == (TransferErrorView::DestinationUnwritable {
                path: self@.path,
                detail: detail@,
            }),
    {
        TransferError::DestinationUnwritable { path: self.path.clone(), detail }
    }

    /// The error of a fetch whose request failed; `detail` is what the
    /// transport said.
    pub fn request_failed(&self, detail: String) -> (error: TransferError)
        ensures
            error@ == (TransferErrorView::RequestFailed { url: self@.url, detail: detail@ }),
    {
        TransferError::RequestFailed { url: self.url.clone(), detail }
    }

    /// The error of a fetch whose stream broke off; `detail` is what the
    /// transport said.
    pub fn stream_failed(&self, detail: String) -> (error: TransferError)
        ensures
            error@ == (TransferErrorView::StreamFailed {
                target: self@.target_path,
                detail: detail@,
            }),
    {
        TransferError::StreamFailed { target: self.target_path.clone(), detail }
    }

    /// The error of a fetch that could not write a chunk; `detail` is what
    /// the system said.
    pub fn write_failed(&self, detail: String) -> (error: TransferError)
        ensures
            error@ == (TransferErrorView::WriteFailed {
                target: self@.target_path,
                detail: detail@,
            }),
    {
        TransferError::WriteFailed { target: self.target_path.clone(), detail }
    }
}

/// The bytes that `arrivals` deliver in all.
pub open spec fn total_len(arrivals: Seq<Arrival>) -> int
    decreases arrivals.len(),
{
    if arrivals.len() == 0 {
        0
    } else {
        total_len(arrivals.drop_last()) + arrivals.last().len
    }
}

/// The transfer `t` after the chunks `arrivals`, in their order.
pub open spec fn after_all(t: Transfer, arrivals: Seq<Arrival>) -> Transfer
    decreases arrivals.len(),
{
    if arrivals.len() == 0 {
        t
    } else {
        after_all(t, arrivals.drop_last()).after(arrivals.last())
    }
}

/// What is reported for each of `arrivals`, in their order, by a transfer
/// that stands at `t` before the first of them.
pub open spec fn reports(t: Transfer, arrivals: Seq<Arrival>) -> Seq<Option<Emission>>
    decreases arrivals.len(),
{
    if arrivals.len() == 0 {
        Seq::empty()
    } else {
        reports(t, arrivals.drop_last()).push(
            after_all(t, arrivals.drop_last()).report(arrivals.last()),
        )
    }
}

/// There is one entry in `reports` for each chunk, and the entries for the
/// first chunks do not depend on the chunks that follow.
pub proof fn lemma_reports_prefix(t: Transfer, arrivals: Seq<Arrival>, n: int)
    requires
        0 <= n <= arrivals.len(),
    ensures
        reports(t, arrivals).len() == arrivals.len(),
        reports(t, arrivals.take(n)) == reports(t, arrivals).take(n),
    decreases arrivals.len(),
{
    if arrivals.len() > 0 {
        let front = arrivals.drop_last();
        lemma_reports_prefix(t, front, front.len() as int);
        if n == arrivals.len() {
            assert(arrivals.take(n) == arrivals);
        } else {
            lemma_reports_prefix(t, front, n);
            assert(arrivals.take(n) == front.take(n));
        }
    }
}

/// The entry of `reports` for a chunk is the report of the transfer as it
/// stands after the chunks before it.
pub proof fn lemma_report_at(t: Transfer, arrivals: Seq<Arrival>, i: int)
    requires
        0 <= i < arrivals.len(),
    ensures
        reports(t, arrivals).len() == arrivals.len(),
        reports(t, arrivals)[i] == after_all(t, arrivals.take(i)).report(arrivals[i]),
{
    lemma_reports_prefix(t, arrivals, i + 1);
    let upto = arrivals.take(i + 1);
    lemma_reports_prefix(t, upto.drop_last(), i);
    assert(upto.drop_last() == arrivals.take(i));
    assert(reports(t, upto)[i] == after_all(t, upto.drop_last()).report(upto.last()));
}

/// The byte count after a run of chunks is the count before plus their
/// lengths, and the percentage agrees with it.
pub proof fn lemma_after_all_counts(t: Transfer, arrivals: Seq<Arrival>)
    requires
        t.progress.transfered + total_len(arrivals) <= u64::MAX,
        t.progress.consistent(),
    ensures
        after_all(t, arrivals).progress.transfered == t.progress.transfered + total_len(arrivals),
        after_all(t, arrivals).progress.filesize == t.progress.filesize,
        after_all(t, arrivals).progress.consistent(),
        0 <= total_len(arrivals),
    decreases arrivals.len(),
{
    if arrivals.len() > 0 {
        let front = arrivals.drop_last();
        lemma_after_all_counts(t, front);
        lemma_percentage_range(
            (after_all(t, front).progress.transfered + arrivals.last().len) as u64,
            t.progress.filesize,
        );
    }
}

/// A transfer of known size that has received chunks adding up to exactly
/// that size closes with a report of 100 %.
pub proof fn law_complete_transfer_reports_full(total: u64, opened_ms: u64, arrivals: Seq<Arrival>)
    requires
        total > 0,
        total_len(arrivals) == total,
    ensures
        after_all(Transfer::started(Some(total), opened_ms), arrivals).final_report() == (Emission {
            signal: ProgressSignal::Finished,
            percentage: FULL_PERCENTAGE,
        }),
{
    let t = Transfer::started(Some(total), opened_ms);
    lemma_after_all_counts(t, arrivals);
}

/// While the size of a transfer is unknown, every report made for a chunk
/// carries 99.9 %.
pub proof fn law_unknown_total_reports_sentinel(
    filesize: Option<u64>,
    opened_ms: u64,
    arrivals: Seq<Arrival>,
    i: int,
)
    requires
        !total_known(filesize),
        0 <= i < arrivals.len(),
    ensures
        reports(Transfer::started(filesize, opened_ms), arrivals)[i] matches Some(e) ==> e == (
        Emission { signal: ProgressSignal::Progress, percentage: UNKNOWN_TOTAL_PERCENTAGE }),
{
    let t = Transfer::started(filesize, opened_ms);
    lemma_after_all_keeps_filesize(t, arrivals.take(i));
    lemma_report_at(t, arrivals, i);
    let before = after_all(t, arrivals.take(i));
    lemma_percentage_range(
        (before.progress.transfered + arrivals[i].len) as u64,
        before.progress.filesize,
    );
}

/// A transfer whose size is unknown closes with a report of 99.9 %, whatever
/// it has received.
pub proof fn law_unknown_total_finishes_at_sentinel(
    filesize: Option<u64>,
    opened_ms: u64,
    arrivals: Seq<Arrival>,
)
    requires
        !total_known(filesize),
    ensures
        after_all(Transfer::started(filesize, opened_ms), arrivals).final_report() == (Emission {
            signal: ProgressSignal::Finished,
            percentage: UNKNOWN_TOTAL_PERCENTAGE,
        }),
{
    let t = Transfer::started(filesize, opened_ms);
    lemma_after_all_keeps_filesize(t, arrivals);
    lemma_percentage_range(0, filesize);
    if arrivals.len() > 0 {
        let before = after_all(t, arrivals.drop_last());
        lemma_after_all_keeps_filesize(t, arrivals.drop_last());
        lemma_percentage_range(
            (before.progress.transfered + arrivals.last().len) as u64,
            before.progress.filesize,
        );
    }
}

/// The announced size does not change in the course of a transfer.
pub proof fn lemma_after_all_keeps_filesize(t: Transfer, arrivals: Seq<Arrival>)
    ensures
        after_all(t, arrivals).progress.filesize == t.progress.filesize,
    decreases arrivals.len(),
{
    if arrivals.len() > 0 {
        lemma_after_all_keeps_filesize(t, arrivals.drop_last());
    }
}

/// The time of the last report never lies before the time of any chunk that
/// was reported.
proof fn lemma_last_emit_covers_reports(t: Transfer, arrivals: Seq<Arrival>, i: int)
    requires
        0 <= i < arrivals.len(),
        reports(t, arrivals)[i] is Some,
    ensures
        after_all(t, arrivals).last_emit_ms >= arrivals[i].at_ms,
    decreases arrivals.len(),
{
    let front = arrivals.drop_last();
    lemma_reports_prefix(t, front, front.len() as int);
    if i < arrivals.len() - 1 {
        lemma_last_emit_covers_reports(t, front, i);
    }
}

/// Two intermediate reports of one transfer are never less than 50 ms apart.
pub proof fn law_reports_are_spaced(t: Transfer, arrivals: Seq<Arrival>, i: int, j: int)
    requires
        0 <= i < j < arrivals.len(),
        reports(t, arrivals)[i] is Some,
        reports(t, arrivals)[j] is Some,
    ensures
        arrivals[j].at_ms - arrivals[i].at_ms >= UPDATE_SPEED,
{
    lemma_report_at(t, arrivals, j);
    lemma_reports_prefix(t, arrivals, j);
    let before = arrivals.take(j);
    lemma_last_emit_covers_reports(t, before, i);
}

/// No intermediate report is made sooner than 50 ms after the stream was
/// opened.
pub proof fn law_first_report_waits(t: Transfer, arrivals: Seq<Arrival>, j: int)
    requires
        0 <= j < arrivals.len(),
        reports(t, arrivals)[j] is Some,
    ensures
        arrivals[j].at_ms - t.last_emit_ms >= UPDATE_SPEED,
{
    lemma_report_at(t, arrivals, j);
    lemma_last_emit_not_before_start(t, arrivals.take(j));
}

/// The time of the last report never lies before the time at which the stream
/// was opened.
proof fn lemma_last_emit_not_before_start(t: Transfer, arrivals: Seq<Arrival>)
    ensures
        after_all(t, arrivals).last_emit_ms >= t.last_emit_ms,
    decreases arrivals.len(),
{
    if arrivals.len() > 0 {
        lemma_last_emit_not_before_start(t, arrivals.drop_last());
    }
}

/// The count of bytes received never goes down in the course of a transfer:
/// after more chunks it is no less than after fewer.
pub proof fn law_transferred_never_decreases(t: Transfer, arrivals: Seq<Arrival>, m: int, n: int)
    requires
        t.progress.consistent(),
        t.progress.transfered + total_len(arrivals) <= u64::MAX,
        0 <= m <= n <= arrivals.len(),
    ensures
        t.progress.transfered <= after_all(t, arrivals.take(m)).progress.transfered
            <= after_all(t, arrivals.take(n)).progress.transfered,
{
    lemma_total_len_prefix(arrivals, n);
    lemma_total_len_between(arrivals, m, n);
    lemma_after_all_counts(t, arrivals.take(m));
    lemma_after_all_counts(t, arrivals.take(n));
}

/// The percentages reported in the course of a transfer never go down, and
/// the closing report is not below any of them.
pub proof fn law_reports_never_decrease(t: Transfer, arrivals: Seq<Arrival>, i: int, j: int)
    requires
        t.progress.consistent(),
        t.progress.transfered + total_len(arrivals) <= u64::MAX,
        0 <= i <= j < arrivals.len(),
    ensures
        reports(t, arrivals).len() == arrivals.len(),
        reports(t, arrivals)[i] matches Some(first) ==> (reports(t, arrivals)[j] matches Some(
            second,
        ) ==> first.percentage <= second.percentage),
        reports(t, arrivals)[j] matches Some(last) ==> last.percentage <= after_all(
            t,
            arrivals,
        ).final_report().percentage,
{
    lemma_reports_prefix(t, arrivals, arrivals.len() as int);
    lemma_report_percentage(t, arrivals, i);
    lemma_report_percentage(t, arrivals, j);
    lemma_total_len_between(arrivals, i + 1, j + 1);
    lemma_total_len_between(arrivals, j + 1, arrivals.len() as int);
    assert(arrivals.take(arrivals.len() as int) == arrivals);
    lemma_after_all_counts(t, arrivals.take(i + 1));
    lemma_after_all_counts(t, arrivals.take(j + 1));
    lemma_after_all_counts(t, arrivals);
    lemma_percentage_monotonic(
        after_all(t, arrivals.take(i + 1)).progress.transfered,
        after_all(t, arrivals.take(j + 1)).progress.transfered,
        t.progress.filesize,
    );
    lemma_percentage_monotonic(
        after_all(t, arrivals.take(j + 1)).progress.transfered,
        after_all(t, arrivals).progress.transfered,
        t.progress.filesize,
    );
}

/// A report carries the percentage that the transfer has once its chunk is
/// counted.
proof fn lemma_report_percentage(t: Transfer, arrivals: Seq<Arrival>, i: int)
    requires
        0 <= i < arrivals.len(),
    ensures
        reports(t, arrivals)[i] matches Some(e) ==> e.percentage == after_all(
            t,
            arrivals.take(i + 1),
        ).progress.percentage,
{
    lemma_report_at(t, arrivals, i);
    assert(arrivals.take(i + 1).drop_last() == arrivals.take(i));
}

/// The first chunks of a run deliver no more than the whole run.
proof fn lemma_total_len_prefix(arrivals: Seq<Arrival>, n: int)
    requires
        0 <= n <= arrivals.len(),
    ensures
        0 <= total_len(arrivals.take(n)) <= total_len(arrivals),
{
    lemma_total_len_between(arrivals, 0, n);
    lemma_total_len_between(arrivals, n, arrivals.len() as int);
    assert(arrivals.take(arrivals.len() as int) == arrivals);
}

/// A longer start of a run delivers no less than a shorter one.
proof fn lemma_total_len_between(arrivals: Seq<Arrival>, m: int, n: int)
    requires
        0 <= m <= n <= arrivals.len(),
    ensures
        total_len(arrivals.take(m)) <= total_len(arrivals.take(n)),
    decreases n - m,
{
    if m < n {
        lemma_total_len_between(arrivals, m, n - 1);
        assert(arrivals.take(n).drop_last() == arrivals.take(n - 1));
    }
}

} // verus!
