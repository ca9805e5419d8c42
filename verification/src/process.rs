//! Supervision of one child process: what to do when one of the things that
//! are awaited at once becomes ready.
//!
//! A child writes to two pipes and may fill either while the other is idle,
//! so both are read as they become ready, together with the child's exit and
//! a poll of the abort request every 100 ms. Each readiness is handled on its
//! own, and the wait is entered again until the child has exited or has been
//! told to stop.

use vstd::prelude::*;

verus! {

/// The time, in milliseconds, between two polls of the abort request. It is
/// the bound on how long a requested abort can go unnoticed.
pub const ABORT_POLL_INTERVAL_MS: u64 = 100;

/// The name under which a line of output is delivered.
pub fn line_event_name() -> (name: &'static str)
    ensures
        name@ == "progress"@,
{
    "progress"
}

/// The pipe that a line was read from.
#[derive(Clone, Copy, Debug, PartialEq, Eq, Structural)]
pub enum Source {
    Stdout,
    Stderr,
}

/// One of the awaited things has become ready.
#[derive(Clone, Debug, PartialEq, Eq)]
pub enum Ready {
    /// A read of one line from `source` has returned `text`, terminator
    /// included. The text is empty when the pipe has reached its end.
    Line { source: Source, text: String },
    /// The child has exited. `code` is absent when a signal ended it.
    Exited { code: Option<i32> },
    /// Waiting for the child has failed.
    WaitFailed { detail: String },
    /// The poll interval has passed; `abort_requested` is what the task state
    /// said at that moment.
    PollTick { abort_requested: bool },
}

/// `Ready`, with its texts as sequences of characters.
pub ghost enum ReadyView {
    Line { source: Source, text: Seq<char> },
    Exited { code: Option<i32> },
    WaitFailed { detail: Seq<char> },
    PollTick { abort_requested: bool },
}

impl View for Ready {
    type V = ReadyView;

    open spec fn view(&self) -> ReadyView {
        match self {
            Ready::Line { source, text } => ReadyView::Line { source: *source, text: text@ },
            Ready::Exited { code } => ReadyView::Exited { code: *code },
            Ready::WaitFailed { detail } => ReadyView::WaitFailed { detail: detail@ },
            Ready::PollTick { abort_requested } => ReadyView::PollTick {
                abort_requested: *abort_requested,
            },
        }
    }
}

impl DeepView for Ready {
    type V = ReadyView;

    open spec fn deep_view(&self) -> ReadyView {
        self@
    }
}

/// What a run of a child process brings forth: its lines, and the one event
/// that ends it.
#[derive(Clone, Debug, PartialEq, Eq)]
pub enum ProcessEvent {
    /// A line of output, without trailing white space.
    Line { source: Source, text: String },
    /// The child has exited; `success` says whether its code was 0.
    Exited { code: Option<i32>, success: bool },
    /// The child was stopped because an abort had been requested.
    Aborted,
    /// The child could not be started.
    SpawnFailed { reason: String },
    /// Waiting for the child failed.
    WaitFailed { detail: String },
}

/// `ProcessEvent`, with its texts as sequences of characters.
pub ghost enum ProcessEventView {
    Line { source: Source, text: Seq<char> },
    Exited { code: Option<i32>, success: bool },
    Aborted,
    SpawnFailed { reason: Seq<char> },
    WaitFailed { detail: Seq<char> },
}

impl View for ProcessEvent {
    type V = ProcessEventView;

    open spec fn view(&self) -> ProcessEventView {
        match self {
            ProcessEvent::Line { source, text } => ProcessEventView::Line {
                source: *source,
                text: text@,
            },
            ProcessEvent::Exited { code, success } => ProcessEventView::Exited {
                code: *code,
                success: *success,
            },
            ProcessEvent::Aborted => ProcessEventView::Aborted,
            ProcessEvent::SpawnFailed { reason } => ProcessEventView::SpawnFailed {
                reason: reason@,
            },
            ProcessEvent::WaitFailed { detail } => ProcessEventView::WaitFailed {
                detail: detail@,
            },
        }
    }
}

impl DeepView for ProcessEvent {
    type V = ProcessEventView;

    open spec fn deep_view(&self) -> ProcessEventView {
        self@
    }
}

/// Why a run of a child process did not end in success.
#[derive(Clone, Debug, PartialEq, Eq)]
pub enum ProcessError {
    /// The child could not be started.
    SpawnFailed { reason: String },
    /// The child exited with a code other than 0, or was ended by a signal.
    NonZeroExit { code: Option<i32> },
    /// Waiting for the child failed.
    WaitFailed { detail: String },
    /// The child was stopped on request. This is no failure of the run.
    Aborted,
}

/// `ProcessError`, with its texts as sequences of characters.
pub ghost enum ProcessErrorView {
    SpawnFailed { reason: Seq<char> },
    NonZeroExit { code: Option<i32> },
    WaitFailed { detail: Seq<char> },
    Aborted,
}

impl View for ProcessError {
    type V = ProcessErrorView;

    open spec fn view(&self) -> ProcessErrorView {
        match self {
            ProcessError::SpawnFailed { reason } => ProcessErrorView::SpawnFailed {
                reason: reason@,
            },
            ProcessError::NonZeroExit { code } => ProcessErrorView::NonZeroExit { code: *code },
            ProcessError::WaitFailed { detail } => ProcessErrorView::WaitFailed {
                detail: detail@,
            },
            ProcessError::Aborted => ProcessErrorView::Aborted,
        }
    }
}

impl DeepView for ProcessError {
    type V = ProcessErrorView;

    open spec fn deep_view(&self) -> ProcessErrorView {
        self@
    }
}

/// The result of a run, with the texts of its error as sequences of
/// characters.
pub open spec fn result_view(result: Result<(), ProcessError>) -> Result<(), ProcessErrorView> {
    match result {
        Ok(()) => Ok(()),
        Err(e) => Err(e@),
    }
}

/// Whether `c` is white space: whether it has the property White_Space of
/// Unicode, which is what `char::is_whitespace` tells and what
/// `str::trim_end` goes by.
pub uninterp spec fn white_space(c: char) -> bool;

/// `text` without the white space at its end.
pub open spec fn trimmed_end(text: Seq<char>) -> Seq<char>
    decreases text.len(),
{
    if text.len() > 0 && white_space(text.last()) {
        trimmed_end(text.drop_last())
    } else {
        text
    }
}

/// Calls `str::trim_end`. The result is the start of `text` that is left
/// when the white space at its end is taken away: all that was taken away is
/// white space, and what is left does not end in white space.
#[verifier::external_body]
fn str_trim_end(text: &str) -> (trimmed: String)
    ensures
        trimmed@.len() <= text@.len(),
        trimmed@ == text@.take(trimmed@.len() as int),
        forall|i: int| trimmed@.len() <= i < text@.len() ==> white_space(#[trigger] text@[i]),
        trimmed@.len() > 0 ==> !white_space(trimmed@.last()),
{
    text.trim_end().to_string()
}

/// There is one start of `text` that leaves off nothing but white space and
/// does not end in white space, and that is `trimmed_end(text)`.
proof fn lemma_trimmed_end_is_unique(text: Seq<char>, trimmed: Seq<char>)
    requires
        trimmed.len() <= text.len(),
        trimmed == text.take(trimmed.len() as int),
        forall|i: int| trimmed.len() <= i < text.len() ==> white_space(#[trigger] text[i]),
        trimmed.len() > 0 ==> !white_space(trimmed.last()),
    ensures
        trimmed == trimmed_end(text),
    decreases text.len(),
{
    if trimmed.len() < text.len() {
        let shorter = text.drop_last();
        assert(white_space(text[text.len() - 1]));
        assert(trimmed == shorter.take(trimmed.len() as int));
        assert forall|i: int| trimmed.len() <= i < shorter.len() implies white_space(
            #[trigger] shorter[i],
        ) by {
            assert(shorter[i] == text[i]);
        }
        lemma_trimmed_end_is_unique(shorter, trimmed);
    } else {
        assert(trimmed == text);
    }
}

/// `text` without the white space at its end, as a new text.
pub fn trim_end(text: &str) -> (trimmed: String)
    ensures
        trimmed@ == trimmed_end(text@),
{
    let trimmed = str_trim_end(text);
    proof {
        lemma_trimmed_end_is_unique(text@, trimmed@);
    }
    trimmed
}

/// What is left of a text without the white space at its end is a start of
/// that text, does not itself end in white space, and leaves off nothing but
/// white space. Taking the white space off once more changes nothing.
pub proof fn law_trimmed_end(text: Seq<char>)
    ensures
        trimmed_end(text).len() <= text.len(),
        trimmed_end(text) == text.take(trimmed_end(text).len() as int),
        trimmed_end(text).len() > 0 ==> !white_space(trimmed_end(text).last()),
        forall|i: int|
            trimmed_end(text).len() <= i < text.len() ==> white_space(#[trigger] text[i]),
        trimmed_end(trimmed_end(text)) == trimmed_end(text),
    decreases text.len(),
{
    if text.len() > 0 && white_space(text.last()) {
        let shorter = text.drop_last();
        law_trimmed_end(shorter);
        let kept = trimmed_end(shorter).len() as int;
        assert(shorter.take(kept) == text.take(kept));
        assert forall|i: int| kept <= i < text.len() implies white_space(#[trigger] text[i]) by {
            if i < shorter.len() {
                assert(shorter[i] == text[i]);
            }
        }
    } else {
        assert(text.take(text.len() as int) == text);
    }
}

/// Whether the exit code `code` is that of a success.
pub open spec fn exit_success(code: Option<i32>) -> bool {
    code == Some(0i32)
}

/// The event that the readiness `ready` brings forth, if any.
///
/// A line is passed on without the white space at its end, unless the read
/// returned nothing at all. An exit, and a failure to wait, end the run. A
/// poll ends it only if an abort has been requested.
pub open spec fn reaction(ready: ReadyView) -> Option<ProcessEventView> {
    match ready {
        ReadyView::Line { source, text } => if text.len() == 0 {
            None
        } else {
            Some(ProcessEventView::Line { source, text: trimmed_end(text) })
        },
        ReadyView::Exited { code } => Some(
            ProcessEventView::Exited { code, success: exit_success(code) },
        ),
        ReadyView::WaitFailed { detail } => Some(ProcessEventView::WaitFailed { detail }),
        ReadyView::PollTick { abort_requested } => if abort_requested {
            Some(ProcessEventView::Aborted)
        } else {
            None
        },
    }
}

impl ProcessEventView {
    /// Whether this event ends the run.
    pub open spec fn is_terminal(self) -> bool {
        !(self is Line)
    }

    /// Whether the child has to be told to stop when this event occurs.
    pub open spec fn calls_for_kill(self) -> bool {
        self is Aborted
    }

    /// The result of the run that this event ends; none for a line.
    pub open spec fn outcome(self) -> Option<Result<(), ProcessErrorView>> {
        match self {
            ProcessEventView::Line { .. } => None,
            ProcessEventView::Exited { code, success } => if success {
                Some(Ok(()))
            } else {
                Some(Err(ProcessErrorView::NonZeroExit { code }))
            },
            ProcessEventView::Aborted => Some(Err(ProcessErrorView::Aborted)),
            ProcessEventView::SpawnFailed { reason } => Some(
                Err(ProcessErrorView::SpawnFailed { reason }),
            ),
            ProcessEventView::WaitFailed { detail } => Some(
                Err(ProcessErrorView::WaitFailed { detail }),
            ),
        }
    }
}

/// The outcome of an event, with the texts of its error as sequences of
/// characters.
pub open spec fn outcome_view(outcome: Option<Result<(), ProcessError>>) -> Option<
    Result<(), ProcessErrorView>,
> {
    match outcome {
        Some(result) => Some(result_view(result)),
        None => None,
    }
}

impl ProcessEvent {
    /// Whether this event ends the run.
    pub fn is_terminal(&self) -> (terminal: bool)
        ensures
            terminal == self@.is_terminal(),
    {
        match self {
            ProcessEvent::Line { .. } => false,
            _ => true,
        }
    }

    /// Whether the child has to be told to stop when this event occurs.
    pub fn calls_for_kill(&self) -> (kill: bool)
        ensures
            kill == self@.calls_for_kill(),
    {
        match self {
            ProcessEvent::Aborted => true,
            _ => false,
        }
    }

    /// The result of the run that this event ends; none for a line.
    ///
    /// An exit with code 0 is a success. Any other exit is `NonZeroExit` with
    /// the code as the child gave it. The texts of the other events are handed
    /// on as they are.
    pub fn outcome(self) -> (outcome: Option<Result<(), ProcessError>>)
        ensures
            outcome_view(outcome) == self@.outcome(),
    {
        match self {
            ProcessEvent::Line { .. } => None,
            ProcessEvent::Exited { code, success } => {
                if success {
                    Some(Ok(()))
                } else {
                    Some(Err(ProcessError::NonZeroExit { code }))
                }
            },
            ProcessEvent::Aborted => Some(Err(ProcessError::Aborted)),
            ProcessEvent::SpawnFailed { reason } => Some(
                Err(ProcessError::SpawnFailed { reason }),
            ),
            ProcessEvent::WaitFailed { detail } => Some(Err(ProcessError::WaitFailed { detail })),
        }
    }
}

impl ProcessError {
    /// Whether the run was stopped on request, which is no failure.
    pub fn is_abort(&self) -> (abort: bool)
        ensures
            abort == (self@ is Aborted),
    {
        match self {
            ProcessError::Aborted => true,
            _ => false,
        }
    }
}

/// Handles one readiness: returns the event that it brings forth, if any.
pub fn on_ready(ready: &Ready) -> (event: Option<ProcessEvent>)
    ensures
        event.deep_view() == reaction(ready@),
{
    match ready {
        Ready::Line { source, text } => {
            if text.as_str().is_empty() {
                None
            } else {
                Some(ProcessEvent::Line { source: *source, text: trim_end(text.as_str()) })
            }
        },
        Ready::Exited { code } => {
            let success: bool = match code {
                Some(c) => *c == 0,
                None => false,
            };
            Some(ProcessEvent::Exited { code: *code, success })
        },
        Ready::WaitFailed { detail } => Some(ProcessEvent::WaitFailed { detail: detail.clone() }),
        Ready::PollTick { abort_requested } => {
            if *abort_requested {
                Some(ProcessEvent::Aborted)
            } else {
                None
            }
        },
    }
}

/// The events of a run in which `readies` become ready in that order: the
/// event of each readiness, up to and including the first that ends the run.
/// What becomes ready after that is not looked at.
pub open spec fn multiplexed(readies: Seq<ReadyView>) -> Seq<ProcessEventView>
    decreases readies.len(),
{
    if readies.len() == 0 {
        Seq::empty()
    } else {
        match reaction(readies.first()) {
            None => multiplexed(readies.drop_first()),
            Some(event) => if event.is_terminal() {
                seq![event]
            } else {
                seq![event] + multiplexed(readies.drop_first())
            },
        }
    }
}

/// Runs the multiplexer over `readies`, in their order, and returns the
/// events of that run.
pub fn multiplex(readies: &Vec<Ready>) -> (events: Vec<ProcessEvent>)
    ensures
        events.deep_view() == multiplexed(readies.deep_view()),
{
    let mut events: Vec<ProcessEvent> = Vec::new();
    let mut i: usize = 0;
    let ghost all = readies.deep_view();
    assert(all.skip(0) == all);
    while i < readies.len()
        invariant
            0 <= i <= readies.len(),
            all == readies.deep_view(),
            events.deep_view() + multiplexed(all.skip(i as int)) == multiplexed(all),
        decreases readies.len() - i,
    {
        let ghost rest = all.skip(i as int);
        let ghost before = events.deep_view();
        assert(rest.drop_first() == all.skip(i + 1));
        match on_ready(&readies[i]) {
            None => {},
            Some(event) => {
                let terminal = event.is_terminal();
                events.push(event);
                if terminal {
                    return events;
                }
                assert(before.push(event@) + multiplexed(all.skip(i + 1)) == before + (seq![
                    event@,
                ] + multiplexed(all.skip(i + 1))));
            },
        }
        i = i + 1;
    }
    events
}

/// Whether the readiness `ready` ends the run.
pub open spec fn ends_run(ready: ReadyView) -> bool {
    reaction(ready) matches Some(event) && event.is_terminal()
}

/// The lines that the child wrote to `source`, in the order in which they
/// were read, each without the white space at its end. A read that returned
/// nothing is no line.
pub open spec fn lines_read(readies: Seq<ReadyView>, source: Source) -> Seq<Seq<char>>
    decreases readies.len(),
{
    if readies.len() == 0 {
        Seq::empty()
    } else {
        let rest = lines_read(readies.drop_first(), source);
        match readies.first() {
            ReadyView::Line { source: from, text } => if from == source && text.len() > 0 {
                seq![trimmed_end(text)] + rest
            } else {
                rest
            },
            _ => rest,
        }
    }
}

/// The lines from `source` among `events`, in their order.
pub open spec fn lines_delivered(events: Seq<ProcessEventView>, source: Source) -> Seq<Seq<char>>
    decreases events.len(),
{
    if events.len() == 0 {
        Seq::empty()
    } else {
        let rest = lines_delivered(events.drop_first(), source);
        match events.first() {
            ProcessEventView::Line { source: from, text } => if from == source {
                seq![text] + rest
            } else {
                rest
            },
            _ => rest,
        }
    }
}

/// As long as nothing ends the run, every line that is read from a pipe is
/// delivered, and the lines of one pipe are delivered in the order in which
/// they were read, however the reads of the two pipes are interleaved with
/// each other and with the polls.
pub proof fn law_no_line_is_dropped(readies: Seq<ReadyView>, source: Source)
    requires
        forall|i: int| 0 <= i < readies.len() ==> !ends_run(#[trigger] readies[i]),
    ensures
        lines_delivered(multiplexed(readies), source) == lines_read(readies, source),
    decreases readies.len(),
{
    if readies.len() > 0 {
        let rest = readies.drop_first();
        assert(forall|i: int| 0 <= i < rest.len() ==> rest[i] == readies[i + 1]);
        law_no_line_is_dropped(rest, source);
        if let Some(event) = reaction(readies.first()) {
            let events = seq![event] + multiplexed(rest);
            assert(events.drop_first() == multiplexed(rest));
        }
    }
}

/// The run ends with the first readiness that ends it: the events up to
/// there are those of the readinesses before it, the event that ends the run
/// is the last, and nothing that becomes ready later has any effect.
pub proof fn law_run_ends_at_first_end(readies: Seq<ReadyView>, k: int, source: Source)
    requires
        0 <= k < readies.len(),
        ends_run(readies[k]),
        forall|i: int| 0 <= i < k ==> !ends_run(#[trigger] readies[i]),
    ensures
        multiplexed(readies) == multiplexed(readies.take(k)).push(reaction(readies[k])->Some_0),
        lines_delivered(multiplexed(readies), source) == lines_read(readies.take(k), source),
    decreases readies.len(),
{
    let last = reaction(readies[k])->Some_0;
    if k == 0 {
        assert(seq![last].drop_first() == Seq::<ProcessEventView>::empty());
        assert(lines_delivered(Seq::<ProcessEventView>::empty(), source) == Seq::<
            Seq<char>,
        >::empty());
    } else {
        let rest = readies.drop_first();
        assert(forall|i: int| 0 <= i < rest.len() ==> rest[i] == readies[i + 1]);
        law_run_ends_at_first_end(rest, k - 1, source);
        let front = readies.take(k);
        assert(front.drop_first() == rest.take(k - 1));
        if let Some(event) = reaction(readies.first()) {
            let events = seq![event] + multiplexed(rest);
            assert(events.drop_first() == multiplexed(rest));
        }
    }
}

/// A poll that finds an abort requested ends the run at once: the child is
/// to be stopped, and the run ends as aborted, which no other readiness
/// brings about.
pub proof fn law_abort_ends_run(ready: ReadyView)
    ensures
        ready == (ReadyView::PollTick { abort_requested: true }) <==> (reaction(ready) matches Some(
            event,
        ) && event.calls_for_kill()),
        reaction(ready) matches Some(event) ==> (event.calls_for_kill() <==> event.outcome()
            == Some(Err::<(), ProcessErrorView>(ProcessErrorView::Aborted))),
{
}

} // verus!
