//! Progress of a transfer: how much has arrived, how fast, and what share of
//! the whole that is.
//!
//! Percentages are carried in tenths of a percent, so that the value shown
//! while the total is unknown, 99.9 %, is the integer 999.

use vstd::prelude::*;

verus! {

/// Tenths of a percent in one percent.
pub const TENTHS_PER_PERCENT: u64 = 10;

/// The percentage reported while the total size is unknown: 99.9 %, in tenths.
pub const UNKNOWN_TOTAL_PERCENTAGE: u64 = 999;

/// The percentage of a transfer that has delivered all that was announced:
/// 100 %, in tenths.
pub const FULL_PERCENTAGE: u64 = 1000;

/// Milliseconds in the second over which the rate is taken.
pub const MILLIS_PER_SECOND: u64 = 1000;

/// Whether `filesize` announces a size against which progress can be measured.
/// A transfer whose size is not announced, or is announced as zero bytes, has
/// an unknown total.
pub open spec fn total_known(filesize: Option<u64>) -> bool {
    filesize matches Some(total) && total > 0
}

/// The percentage, in tenths of a percent, of `transferred` bytes out of
/// `filesize`.
///
/// With a known total it is the whole percent `transferred * 100 / total`,
/// rounded down, and never more than 100 %. With an unknown total it is
/// 99.9 %.
pub open spec fn percentage_of(transferred: u64, filesize: Option<u64>) -> int {
    match filesize {
        Some(total) => if total == 0 {
            UNKNOWN_TOTAL_PERCENTAGE as int
        } else if transferred >= total {
            FULL_PERCENTAGE as int
        } else {
            (transferred * 100 / (total as int)) * TENTHS_PER_PERCENT
        },
        None => UNKNOWN_TOTAL_PERCENTAGE as int,
    }
}

/// The rate, in bytes per second, of `transferred` bytes in `elapsed_ms`
/// milliseconds. Before one full second has passed the rate is taken over one
/// second.
pub open spec fn rate_of(transferred: u64, elapsed_ms: u64) -> int {
    if elapsed_ms < MILLIS_PER_SECOND {
        transferred as int
    } else {
        transferred * MILLIS_PER_SECOND / (elapsed_ms as int)
    }
}

/// The two events by which a transfer reports its progress.
#[derive(Clone, Copy, Debug, PartialEq, Eq, Structural)]
pub enum ProgressSignal {
    /// An intermediate report; the event `download_progress`.
    Progress,
    /// The last report of a transfer; the event `download_finished`.
    Finished,
}

/// The name under which a progress event is delivered.
pub open spec fn event_name_of(signal: ProgressSignal) -> Seq<char> {
    match signal {
        ProgressSignal::Progress => "download_progress"@,
        ProgressSignal::Finished => "download_finished"@,
    }
}

/// The name under which a progress event is delivered.
pub fn event_name(signal: ProgressSignal) -> (name: &'static str)
    ensures
        name@ == event_name_of(signal),
{
    match signal {
        ProgressSignal::Progress => "download_progress",
        ProgressSignal::Finished => "download_finished",
    }
}

/// A progress event ready to be delivered: which event, and the percentage it
/// carries, in tenths of a percent.
#[derive(Clone, Copy, Debug, PartialEq, Eq, Structural)]
pub struct Emission {
    pub signal: ProgressSignal,
    pub percentage: u64,
}

/// The state of a transfer as last measured.
#[derive(Clone, Copy, Debug, PartialEq, Eq, Structural)]
pub struct Progress {
    /// The announced size of the whole transfer, if any.
    pub filesize: Option<u64>,
    /// Bytes received so far.
    pub transfered: u64,
    /// Bytes per second.
    pub transfer_rate: u64,
    /// Tenths of a percent.
    pub percentage: u64,
}

impl Progress {
    /// The measurement of a transfer that has received `transferred` bytes in
    /// `elapsed_ms` milliseconds, out of `filesize` if that is known.
    pub open spec fn measured(transferred: u64, elapsed_ms: u64, filesize: Option<u64>) -> Progress {
        Progress {
            filesize,
            transfered: transferred,
            transfer_rate: rate_of(transferred, elapsed_ms) as u64,
            percentage: percentage_of(transferred, filesize) as u64,
        }
    }

    /// The percentage agrees with the byte count and the announced size.
    pub open spec fn consistent(&self) -> bool {
        self.percentage == percentage_of(self.transfered, self.filesize)
    }

    /// Measures a transfer that has received `transferred` bytes in
    /// `elapsed_ms` milliseconds, out of `filesize` if that is known.
    pub fn compute(transferred: u64, elapsed_ms: u64, filesize: Option<u64>) -> (p: Progress)
        ensures
            p == Progress::measured(transferred, elapsed_ms, filesize),
            p.transfer_rate == rate_of(transferred, elapsed_ms),
            p.percentage == percentage_of(transferred, filesize),
            p.percentage <= FULL_PERCENTAGE,
            p.transfer_rate <= transferred,
    {
        let percentage: u64 = match filesize {
            Some(total) => {
                if total == 0 {
                    UNKNOWN_TOTAL_PERCENTAGE
                } else if transferred >= total {
                    FULL_PERCENTAGE
                } else {
                    let scaled: u128 = transferred as u128 * 100;
                    let percent: u128 = scaled / (total as u128);
                    assert(percent < 100) by (nonlinear_arith)
                        requires
                            percent == scaled / (total as u128),
                            scaled < total * 100,
                            total > 0,
                    ;
                    (percent as u64) * TENTHS_PER_PERCENT
                }
            },
            None => UNKNOWN_TOTAL_PERCENTAGE,
        };
        let transfer_rate: u64 = if elapsed_ms < MILLIS_PER_SECOND {
            transferred
        } else {
            let scaled: u128 = transferred as u128 * 1000;
            let per_second: u128 = scaled / (elapsed_ms as u128);
            assert(per_second <= transferred) by (nonlinear_arith)
                requires
                    per_second == scaled / (elapsed_ms as u128),
                    scaled == transferred * 1000,
                    elapsed_ms >= 1000,
            ;
            per_second as u64
        };
        Progress { filesize, transfered: transferred, transfer_rate, percentage }
    }

    /// The intermediate report of this state.
    pub fn emit_progress(&self) -> (e: Emission)
        ensures
            e == (Emission { signal: ProgressSignal::Progress, percentage: self.percentage }),
    {
        Emission { signal: ProgressSignal::Progress, percentage: self.percentage }
    }

    /// The final report of this state.
    pub fn emit_finished(&self) -> (e: Emission)
        ensures
            e == (Emission { signal: ProgressSignal::Finished, percentage: self.percentage }),
    {
        Emission { signal: ProgressSignal::Finished, percentage: self.percentage }
    }
}

/// A percentage is never above 100 %, and with a known total it is a whole
/// percent.
pub proof fn lemma_percentage_range(transferred: u64, filesize: Option<u64>)
    ensures
        0 <= percentage_of(transferred, filesize) <= FULL_PERCENTAGE,
        total_known(filesize) ==> percentage_of(transferred, filesize) % (TENTHS_PER_PERCENT as int)
            == 0,
        !total_known(filesize) ==> percentage_of(transferred, filesize) == UNKNOWN_TOTAL_PERCENTAGE,
{
    if let Some(total) = filesize {
        if total > 0 && transferred < total {
            let percent: int = transferred * 100 / (total as int);
            assert(0 <= percent < 100) by (nonlinear_arith)
                requires
                    percent == transferred * 100 / (total as int),
                    0 <= transferred < total,
            ;
        }
    }
}

/// Receiving more never lowers the percentage.
pub proof fn lemma_percentage_monotonic(earlier: u64, later: u64, filesize: Option<u64>)
    requires
        earlier <= later,
    ensures
        percentage_of(earlier, filesize) <= percentage_of(later, filesize),
{
    lemma_percentage_range(earlier, filesize);
    if let Some(total) = filesize {
        if total > 0 && later < total {
            assert(earlier * 100 / (total as int) <= later * 100 / (total as int))
                by (nonlinear_arith)
                requires
                    0 <= earlier <= later,
                    total > 0,
            ;
        }
    }
}

/// A transfer that has received exactly what was announced stands at 100 %.
pub proof fn law_received_all_is_full(filesize: Option<u64>)
    requires
        total_known(filesize),
    ensures
        percentage_of(filesize->Some_0, filesize) == FULL_PERCENTAGE,
{
}

} // verus!
