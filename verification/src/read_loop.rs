//! The background reader of one session, as a state machine.
//!
//! The caller owns the task that blocks in the platform's read. After each
//! completed read it hands the outcome to [`ReadLoop::on_read`] and pushes
//! the events that come back to its event sink, in order. Once the reader is
//! [`LoopState::Terminated`] the task ends.

use vstd::prelude::*;
use crate::device::views_of;
use crate::registry::HidDeviceState;

verus! {

/// State of a background reader.
#[derive(Debug, Clone, Copy, PartialEq, Eq, Structural)]
pub enum LoopState {
    /// The reader waits for the next input report.
    Running,
    /// The reader has ended. No transition leaves this state.
    Terminated,
}

/// An input report that a device sent unasked.
#[derive(Debug, Clone, PartialEq, Eq)]
pub struct InputReport {
    pub path: String,
    pub data: Vec<u8>,
}

/// Notice that the session of a path has ended.
#[derive(Debug, Clone, PartialEq, Eq)]
pub struct CloseEvent {
    pub path: String,
}

/// An event pushed to the consumer.
#[derive(Debug, Clone, PartialEq, Eq)]
pub enum SinkEvent {
    InputReport(InputReport),
    Close(CloseEvent),
}

/// Mathematical value of a [`SinkEvent`].
pub enum SinkEventView {
    InputReport { path: Seq<char>, data: Seq<u8> },
    Close { path: Seq<char> },
}

impl View for SinkEvent {
    type V = SinkEventView;

    open spec fn view(&self) -> SinkEventView {
        match self {
            SinkEvent::InputReport(report) => SinkEventView::InputReport {
                path: report.path@,
                data: report.data@,
            },
            SinkEvent::Close(close) => SinkEventView::Close { path: close.path@ },
        }
    }
}

impl SinkEventView {
    /// Name of the channel that the event is pushed on.
    pub open spec fn channel(self) -> Seq<char> {
        match self {
            SinkEventView::InputReport { .. } => "input-report"@,
            SinkEventView::Close { .. } => "close"@,
        }
    }
}

impl SinkEvent {
    /// Name of the channel that the event is pushed on.
    pub fn channel(&self) -> (name: &'static str)
        ensures
            name@ == self@.channel(),
    {
        match self {
            SinkEvent::InputReport(_) => "input-report",
            SinkEvent::Close(_) => "close",
        }
    }
}

/// A completed platform read as a mathematical value.
pub enum ReadView {
    /// The read produced these bytes.
    Report(Seq<u8>),
    /// The read failed.
    Failed,
}

/// The bytes that a read produced: the first `count` bytes of the buffer, at
/// most the whole buffer.
pub open spec fn produced_bytes(buf: Seq<u8>, count: usize) -> Seq<u8> {
    if count <= buf.len() {
        buf.take(count as int)
    } else {
        buf
    }
}

/// What a read into `buf` came to, given what the platform returned.
pub open spec fn completed_read(buf: Seq<u8>, outcome: Result<usize, String>) -> ReadView {
    match outcome {
        Ok(count) => ReadView::Report(produced_bytes(buf, count)),
        Err(_) => ReadView::Failed,
    }
}

/// Copies the bytes that a read produced out of its buffer.
pub fn copy_produced(buf: &[u8], count: usize) -> (data: Vec<u8>)
    ensures
        data@ == produced_bytes(buf@, count),
{
    let end: usize = if count <= buf.len() {
        count
    } else {
        buf.len()
    };
    let mut data: Vec<u8> = Vec::new();
    let mut i: usize = 0;
    while i < end
        invariant
            i <= end <= buf.len(),
            data@ == buf@.take(i as int),
        decreases end - i,
    {
        data.push(buf[i]);
        assert(buf@.take(i as int).push(buf@[i as int]) =~= buf@.take(i + 1));
        i = i + 1;
    }
    assert(buf@.take(buf@.len() as int) =~= buf@);
    data
}

/// Result of one transition of a reader.
pub struct StepView {
    /// State after the transition.
    pub state: LoopState,
    /// Events to push, in order.
    pub events: Seq<SinkEventView>,
    /// Whether the session's flag is cleared by the transition.
    pub clears_flag: bool,
}

/// The transition of the reader of `path` on one completed read.
///
/// `may_run` says whether the session still holds its path's slot with its
/// flag set. A report is passed on in any case; the reader goes on only
/// while it may run. A failed read ends the reader and clears the flag.
/// Every way into `Terminated` pushes one close event, and `Terminated`
/// answers nothing.
pub open spec fn step(path: Seq<char>, state: LoopState, may_run: bool, read: ReadView) -> StepView {
    match state {
        LoopState::Terminated => StepView {
            state: LoopState::Terminated,
            events: Seq::empty(),
            clears_flag: false,
        },
        LoopState::Running => match read {
            ReadView::Failed => StepView {
                state: LoopState::Terminated,
                events: seq![SinkEventView::Close { path }],
                clears_flag: true,
            },
            ReadView::Report(data) => if may_run {
                StepView {
                    state: LoopState::Running,
                    events: seq![SinkEventView::InputReport { path, data }],
                    clears_flag: false,
                }
            } else {
                StepView {
                    state: LoopState::Terminated,
                    events: seq![
                        SinkEventView::InputReport { path, data },
                        SinkEventView::Close { path },
                    ],
                    clears_flag: false,
                }
            },
        },
    }
}

/// The background reader of one session.
#[derive(Debug)]
pub struct ReadLoop {
    path: String,
    generation: u64,
    state: LoopState,
}

/// Mathematical value of a [`ReadLoop`].
pub struct ReadLoopView {
    pub path: Seq<char>,
    pub generation: u64,
    pub state: LoopState,
}

impl View for ReadLoop {
    type V = ReadLoopView;

    closed spec fn view(&self) -> ReadLoopView {
        ReadLoopView { path: self.path@, generation: self.generation, state: self.state }
    }
}

impl ReadLoop {
    /// A reader in state `Running` for the session of `path` that has the
    /// given generation.
    pub fn new(path: String, generation: u64) -> (reader: ReadLoop)
        ensures
            reader@ == (ReadLoopView { path: path@, generation, state: LoopState::Running }),
    {
        ReadLoop { path, generation, state: LoopState::Running }
    }

    /// Path of the session that the reader serves.
    pub fn path(&self) -> (path: &String)
        ensures
            path@ == self@.path,
    {
        &self.path
    }

    /// Generation of the session that the reader serves.
    pub fn generation(&self) -> (generation: u64)
        ensures
            generation == self@.generation,
    {
        self.generation
    }

    /// Whether the reader is still running.
    pub fn is_running(&self) -> (running: bool)
        ensures
            running == (self@.state == LoopState::Running),
    {
        match self.state {
            LoopState::Running => true,
            LoopState::Terminated => false,
        }
    }

    /// Takes the outcome of one completed read into `buf` and answers the
    /// events to push, in order.
    ///
    /// The transition is [`step`], taken on whether the registry still lets
    /// this reader run. A failed read marks the reader's session dead in the
    /// registry; no other transition touches the registry. A terminated
    /// reader answers nothing and changes nothing.
    pub fn on_read<H>(
        &mut self,
        registry: &mut HidDeviceState<H>,
        buf: &[u8],
        outcome: Result<usize, String>,
    ) -> (events: Vec<SinkEvent>)
        ensures
            final(registry).index() == old(registry).index(),
            final(registry).enumeration() == old(registry).enumeration(),
            ({
                let now = old(self)@;
                let taken = step(
                    now.path,
                    now.state,
                    old(registry).may_run(now.path, now.generation),
                    completed_read(buf@, outcome),
                );
                &&& final(self)@ == (ReadLoopView { state: taken.state, ..now })
                &&& views_of(events@) == taken.events
                &&& final(registry).sessions() == if taken.clears_flag {
                    old(registry).ended(now.path, now.generation)
                } else {
                    old(registry).sessions()
                }
            }),
    {
        let mut events: Vec<SinkEvent> = Vec::new();
        match self.state {
            LoopState::Terminated => {
                assert(views_of(events@) =~= Seq::empty());
            },
            LoopState::Running => {
                match outcome {
                    Err(_) => {
                        registry.end_session(&self.path, self.generation);
                        self.state = LoopState::Terminated;
                        events.push(SinkEvent::Close(CloseEvent { path: self.path.clone() }));
                        assert(views_of(events@) =~= seq![
                            SinkEventView::Close { path: self.path@ },
                        ]);
                    },
                    Ok(count) => {
                        let data: Vec<u8> = copy_produced(buf, count);
                        events.push(
                            SinkEvent::InputReport(InputReport { path: self.path.clone(), data }),
                        );
                        if registry.reader_may_run(&self.path, self.generation) {
                            assert(views_of(events@) =~= seq![
                                SinkEventView::InputReport { path: self.path@, data: data@ },
                            ]);
                        } else {
                            self.state = LoopState::Terminated;
                            events.push(SinkEvent::Close(CloseEvent { path: self.path.clone() }));
                            assert(views_of(events@) =~= seq![
                                SinkEventView::InputReport { path: self.path@, data: data@ },
                                SinkEventView::Close { path: self.path@ },
                            ]);
                        }
                    },
                }
            },
        }
        events
    }
}

/// The events that the reader of `path` pushes over a run of completed
/// reads, from `state` on, where nothing but the reader itself changes
/// whether it may run.
pub open spec fn event_stream(
    path: Seq<char>,
    state: LoopState,
    may_run: bool,
    reads: Seq<ReadView>,
) -> Seq<
    SinkEventView,
>
    decreases reads.len(),
{
    if reads.len() == 0 {
        Seq::empty()
    } else {
        let taken = step(path, state, may_run, reads[0]);
        taken.events + event_stream(
            path,
            taken.state,
            may_run && !taken.clears_flag,
            reads.drop_first(),
        )
    }
}

/// The input reports for the first `n` reads of a run, in order.
pub open spec fn reports(path: Seq<char>, reads: Seq<ReadView>, n: int) -> Seq<SinkEventView> {
    Seq::new(n as nat, |i: int| SinkEventView::InputReport { path, data: reads[i]->Report_0 })
}

/// A terminated reader pushes nothing, whatever reads complete.
pub proof fn lemma_terminated_is_silent(path: Seq<char>, may_run: bool, reads: Seq<ReadView>)
    ensures
        event_stream(path, LoopState::Terminated, may_run, reads) == Seq::<SinkEventView>::empty(),
    decreases reads.len(),
{
    if reads.len() > 0 {
        lemma_terminated_is_silent(path, may_run, reads.drop_first());
        assert(event_stream(path, LoopState::Terminated, may_run, reads) =~= Seq::<SinkEventView>::empty());
    }
}

/// A running reader whose read number `n` is the first to fail pushes the
/// input reports of the reads before it, then one close event, and nothing
/// after that, however many reads follow.
pub proof fn lemma_failure_ends_stream(path: Seq<char>, reads: Seq<ReadView>, n: int)
    requires
        0 <= n < reads.len(),
        reads[n] == ReadView::Failed,
        forall|i: int| 0 <= i < n ==> reads[i] is Report,
    ensures
        event_stream(path, LoopState::Running, true, reads) == reports(path, reads, n).push(
            SinkEventView::Close { path },
        ),
    decreases n,
{
    let rest = reads.drop_first();
    if n == 0 {
        lemma_terminated_is_silent(path, false, rest);
        assert(event_stream(path, LoopState::Running, true, reads) =~= reports(path, reads, 0).push(
            SinkEventView::Close { path },
        ));
    } else {
        assert(reads[0] is Report);
        assert(rest[n - 1] == reads[n]);
        assert forall|i: int| 0 <= i < n - 1 implies rest[i] is Report by {
            assert(rest[i] == reads[i + 1]);
        }
        lemma_failure_ends_stream(path, rest, n - 1);
        assert(event_stream(path, LoopState::Running, true, reads) =~= reports(path, reads, n).push(
            SinkEventView::Close { path },
        )) by {
            let tail = reports(path, rest, n - 1).push(SinkEventView::Close { path });
            let head = seq![SinkEventView::InputReport { path, data: reads[0]->Report_0 }];
            assert(event_stream(path, LoopState::Running, true, reads) == head + tail);
            assert forall|i: int| 0 <= i < n - 1 implies #[trigger] reports(path, rest, n - 1)[i]
                == reports(path, reads, n)[i + 1] by {
                assert(rest[i] == reads[i + 1]);
            }
        }
    }
}

/// A reader whose session has lost its slot or its flag passes on the report
/// that its read produced, pushes one close event and ends.
pub proof fn lemma_cancelled_reader_ends(path: Seq<char>, data: Seq<u8>)
    ensures
        step(path, LoopState::Running, false, ReadView::Report(data)).state
            == LoopState::Terminated,
        step(path, LoopState::Running, false, ReadView::Report(data)).events == seq![
            SinkEventView::InputReport { path, data },
            SinkEventView::Close { path },
        ],
{
}

} // verus!
