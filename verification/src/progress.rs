//! Progress callbacks of index builds: what retires a callback, and
//! what each event tells it.

use vstd::prelude::*;
use vstd::string::{StrSliceExecFns, StringExecFns};

verus! {

/// Event code delivered to the progress callback.
#[derive(Clone, Copy, Debug, PartialEq, Eq, Structural)]
pub enum IndexBuildProgressEvent {
    /// A build stage began.
    StageStart,
    /// Work units completed within the active stage.
    StageProgress,
    /// The active stage finished.
    StageComplete,
}

impl IndexBuildProgressEvent {
    /// The number under which C names this event.
    pub fn to_raw(self) -> (raw: i32)
        ensures
            raw == (match self {
                IndexBuildProgressEvent::StageStart => 0i32,
                IndexBuildProgressEvent::StageProgress => 1i32,
                IndexBuildProgressEvent::StageComplete => 2i32,
            }),
    {
        match self {
            IndexBuildProgressEvent::StageStart => 0,
            IndexBuildProgressEvent::StageProgress => 1,
            IndexBuildProgressEvent::StageComplete => 2,
        }
    }
}

/// What one call of the progress callback gets.
pub struct ProgressCall {
    pub event: IndexBuildProgressEvent,
    pub stage: String,
    pub total: u64,
    pub unit: String,
    pub completed: u64,
}

/// A text without its NUL characters.
pub open spec fn without_nul(text: Seq<char>) -> Seq<char>
    decreases text.len(),
{
    if text.len() == 0 {
        Seq::empty()
    } else if text.last() == '\0' {
        without_nul(text.drop_last())
    } else {
        without_nul(text.drop_last()).push(text.last())
    }
}

/// A text without its NUL characters, so that it can end with one in C.
pub fn progress_c_string(value: &str) -> (cleaned: String)
    ensures
        cleaned@ == without_nul(value@),
{
    let len: usize = value.unicode_len();
    let mut cleaned: String = String::new();
    let mut i: usize = 0;
    assert(value@.take(0) =~= Seq::<char>::empty());
    while i < len
        invariant
            i <= len,
            len == value@.len(),
            cleaned@ == without_nul(value@.take(i as int)),
        decreases len - i,
    {
        assert(value@.take(i + 1).drop_last() =~= value@.take(i as int));
        if value.get_char(i) != '\0' {
            let one: &str = value.substring_char(i, i + 1);
            assert(one@ =~= seq![value@[i as int]]);
            cleaned.append(one);
            assert(cleaned@ =~= without_nul(value@.take(i as int)).push(value@[i as int]));
        }
        i += 1;
    }
    assert(value@.take(i as int) =~= value@);
    cleaned
}

/// A cleaned text holds no NUL, and a text without one is left as it is.
pub proof fn law_cleaned_text_has_no_nul(text: Seq<char>)
    ensures
        !without_nul(text).contains('\0'),
        !text.contains('\0') ==> without_nul(text) == text,
    decreases text.len(),
{
    if text.len() > 0 {
        let rest = text.drop_last();
        law_cleaned_text_has_no_nul(rest);
        let cleaned = without_nul(text);
        if cleaned.contains('\0') {
            let i = choose|i: int| 0 <= i < cleaned.len() && cleaned[i] == '\0';
            if i < without_nul(rest).len() {
                assert(without_nul(rest)[i] == '\0');
            }
        }
        if !text.contains('\0') {
            if rest.contains('\0') {
                let i = choose|i: int| 0 <= i < rest.len() && rest[i] == '\0';
                assert(text[i] == '\0');
            }
            assert(text[text.len() - 1] != '\0');
            assert(without_nul(text) =~= text);
        }
    }
}

/// What the callback gets when a stage begins; an unknown total is zero.
pub fn stage_start(stage: &str, total: Option<u64>, unit: &str) -> (call: ProgressCall)
    ensures
        call.event == IndexBuildProgressEvent::StageStart,
        call.stage@ == without_nul(stage@),
        call.total == (match total {
            Some(total) => total,
            None => 0,
        }),
        call.unit@ == without_nul(unit@),
        call.completed == 0,
{
    ProgressCall {
        event: IndexBuildProgressEvent::StageStart,
        stage: progress_c_string(stage),
        total: match total {
            Some(total) => total,
            None => 0,
        },
        unit: progress_c_string(unit),
        completed: 0,
    }
}

/// What the callback gets when work of a stage is done.
pub fn stage_progress(stage: &str, completed: u64) -> (call: ProgressCall)
    ensures
        call.event == IndexBuildProgressEvent::StageProgress,
        call.stage@ == without_nul(stage@),
        call.total == 0,
        call.unit@ == Seq::<char>::empty(),
        call.completed == completed,
{
    ProgressCall {
        event: IndexBuildProgressEvent::StageProgress,
        stage: progress_c_string(stage),
        total: 0,
        unit: String::new(),
        completed,
    }
}

/// What the callback gets when a stage is complete.
pub fn stage_complete(stage: &str) -> (call: ProgressCall)
    ensures
        call.event == IndexBuildProgressEvent::StageComplete,
        call.stage@ == without_nul(stage@),
        call.total == 0,
        call.unit@ == Seq::<char>::empty(),
        call.completed == 0,
{
    ProgressCall {
        event: IndexBuildProgressEvent::StageComplete,
        stage: progress_c_string(stage),
        total: 0,
        unit: String::new(),
        completed: 0,
    }
}

/// Retirement gate of a progress callback, which every clone of the callback
/// shares. Once it is retired and drained, no invocation runs and none can
/// start, so a clone that outlives its build never reaches the callback.
#[derive(Clone, Copy, Debug, PartialEq, Eq, Structural)]
pub struct ProgressCallbackGate {
    /// Set by `retire`; entries that observe it become no-ops.
    pub retired: bool,
    /// Number of invocations that are counted in.
    pub in_flight: usize,
}

impl Default for ProgressCallbackGate {
    fn default() -> (gate: ProgressCallbackGate)
        ensures
            gate == (ProgressCallbackGate { retired: false, in_flight: 0 }),
    {
        ProgressCallbackGate { retired: false, in_flight: 0 }
    }
}

/// A gate after an entry: one more is counted in, unless it is retired. The counter
/// wraps around.
pub open spec fn entered(gate: ProgressCallbackGate) -> ProgressCallbackGate {
    if gate.retired {
        gate
    } else {
        ProgressCallbackGate {
            in_flight: if gate.in_flight == usize::MAX {
                0
            } else {
                (gate.in_flight + 1) as usize
            },
            ..gate
        }
    }
}

/// A gate after an exit: one less is counted in. The counter wraps around.
pub open spec fn exited(gate: ProgressCallbackGate) -> ProgressCallbackGate {
    ProgressCallbackGate {
        in_flight: if gate.in_flight == 0 {
            usize::MAX
        } else {
            (gate.in_flight - 1) as usize
        },
        ..gate
    }
}

impl ProgressCallbackGate {
    /// Lets one callback invocation in, or reports that this gate is retired.
    pub fn enter(&mut self) -> (admitted: bool)
        ensures
            admitted == !old(self).retired,
            *final(self) == entered(*old(self)),
    {
        self.in_flight = self.in_flight.wrapping_add(1);
        if self.retired {
            self.in_flight = self.in_flight.wrapping_sub(1);
            return false;
        }
        true
    }

    /// An invocation has returned.
    pub fn exit(&mut self)
        ensures
            *final(self) == exited(*old(self)),
    {
        self.in_flight = self.in_flight.wrapping_sub(1);
    }

    /// Disables new entries. The caller then waits until this gate is drained.
    pub fn retire(&mut self)
        ensures
            *final(self) == (ProgressCallbackGate { retired: true, ..*old(self) }),
    {
        self.retired = true;
    }

    /// Whether no invocation is counted in.
    pub fn is_drained(&self) -> (drained: bool)
        ensures
            drained == (self.in_flight == 0),
    {
        self.in_flight == 0
    }
}

/// An exit undoes exactly one entry that was let in, and an entry that was refused
/// leaves nothing to undo.
pub proof fn law_exit_undoes_an_entry(gate: ProgressCallbackGate)
    ensures
        !gate.retired ==> exited(entered(gate)) == gate,
        gate.retired ==> entered(gate) == gate,
        entered(gate).retired == gate.retired,
        exited(gate).retired == gate.retired,
{
}

/// A gate among threads. An entry counts itself in, then looks at `retired`,
/// and counts itself out again if it is set.
pub ghost struct GateModel {
    /// A gate is retired.
    pub retired: bool,
    /// The counter.
    pub in_flight: int,
    /// Entries that have counted themselves in and not looked yet.
    pub counted: int,
    /// Entries that have seen this gate retired and not counted themselves out.
    pub refused: int,
    /// Invocations that run.
    pub running: int,
    /// The retiring thread has seen the counter at zero.
    pub drained: bool,
}

/// One atomic step of some thread.
pub enum GateEvent {
    /// An entry counts itself in.
    CountIn,
    /// An entry looks at `retired`.
    Look,
    /// A refused entry counts itself out.
    BackOut,
    /// An invocation returns and counts itself out.
    Exit,
    /// The retiring thread sets `retired`.
    Retire,
    /// The retiring thread looks at the counter.
    Drain,
}

/// A gate that nobody has used.
pub open spec fn fresh_gate() -> GateModel {
    GateModel {
        retired: false,
        in_flight: 0,
        counted: 0,
        refused: 0,
        running: 0,
        drained: false,
    }
}

/// Whether a step can be taken.
pub open spec fn can_step(gate: GateModel, event: GateEvent) -> bool {
    match event {
        GateEvent::CountIn => true,
        GateEvent::Look => gate.counted > 0,
        GateEvent::BackOut => gate.refused > 0,
        GateEvent::Exit => gate.running > 0,
        GateEvent::Retire => true,
        GateEvent::Drain => gate.retired,
    }
}

/// A gate after a step.
pub open spec fn gate_step(gate: GateModel, event: GateEvent) -> GateModel {
    match event {
        GateEvent::CountIn => GateModel {
            in_flight: gate.in_flight + 1,
            counted: gate.counted + 1,
            ..gate
        },
        GateEvent::Look => if gate.retired {
            GateModel { counted: gate.counted - 1, refused: gate.refused + 1, ..gate }
        } else {
            GateModel { counted: gate.counted - 1, running: gate.running + 1, ..gate }
        },
        GateEvent::BackOut => GateModel {
            in_flight: gate.in_flight - 1,
            refused: gate.refused - 1,
            ..gate
        },
        GateEvent::Exit => GateModel {
            in_flight: gate.in_flight - 1,
            running: gate.running - 1,
            ..gate
        },
        GateEvent::Retire => GateModel { retired: true, ..gate },
        GateEvent::Drain => GateModel { drained: gate.drained || gate.in_flight == 0, ..gate },
    }
}

/// A gate after the first `n` steps.
pub open spec fn gate_run(events: Seq<GateEvent>, n: int) -> GateModel
    decreases n,
{
    if n <= 0 {
        fresh_gate()
    } else {
        gate_step(gate_run(events, n - 1), events[n - 1])
    }
}

/// Whether every one of the first `n` steps can be taken where it stands.
pub open spec fn gate_runs(events: Seq<GateEvent>, n: int) -> bool {
    forall|i: int| 0 <= i < n ==> can_step(#[trigger] gate_run(events, i), events[i])
}

/// The counter counts exactly the entries and invocations that are under way,
/// and a drained gate has no invocation that runs.
pub proof fn law_gate_counts_what_is_under_way(events: Seq<GateEvent>, n: int)
    requires
        0 <= n <= events.len(),
        gate_runs(events, n),
    ensures
        ({
            let gate = gate_run(events, n);
            &&& gate.in_flight == gate.counted + gate.refused + gate.running
            &&& gate.counted >= 0
            &&& gate.refused >= 0
            &&& gate.running >= 0
            &&& gate.drained ==> gate.retired && gate.running == 0
        }),
    decreases n,
{
    if n > 0 {
        assert(gate_runs(events, n - 1));
        law_gate_counts_what_is_under_way(events, n - 1);
        let before = gate_run(events, n - 1);
        assert(can_step(before, events[n - 1]));
    }
}

/// A gate of one thread takes the same steps: an entry counts itself in, looks,
/// and is counted in afterwards just where it may call the callback.
pub proof fn law_entry_takes_the_steps_of_the_gate(gate: GateModel)
    ensures
        ({
            let looked = gate_step(gate_step(gate, GateEvent::CountIn), GateEvent::Look);
            let entered = if gate.retired {
                gate_step(looked, GateEvent::BackOut)
            } else {
                looked
            };
            &&& can_step(gate_step(gate, GateEvent::CountIn), GateEvent::Look) || gate.counted < 0
            &&& entered.in_flight == gate.in_flight + (if gate.retired {
                0int
            } else {
                1int
            })
            &&& entered.running == gate.running + (if gate.retired {
                0int
            } else {
                1int
            })
            &&& entered.counted == gate.counted
            &&& entered.refused == gate.refused
            &&& entered.retired == gate.retired
        }),
{
}

proof fn lemma_drained_stays(events: Seq<GateEvent>, at: int, later: int)
    requires
        0 <= at <= later <= events.len(),
    ensures
        gate_run(events, at).drained ==> gate_run(events, later).drained,
    decreases later - at,
{
    if at < later {
        lemma_drained_stays(events, at, later - 1);
    }
}

/// Once the retiring thread has seen the counter at zero, no invocation of the
/// callback runs at any later time, in any order of the threads' steps.
pub proof fn law_no_callback_after_retirement(events: Seq<GateEvent>, drained: int, later: int)
    requires
        0 <= drained <= later <= events.len(),
        gate_runs(events, later),
        gate_run(events, drained).drained,
    ensures
        gate_run(events, later).running == 0,
{
    lemma_drained_stays(events, drained, later);
    law_gate_counts_what_is_under_way(events, later);
}

/// A cleaned text is the text without its NUL characters: all others stand in it, in
/// order.
pub proof fn law_cleaning_removes_just_nul(text: Seq<char>)
    ensures
        without_nul(text) == text.filter(|c: char| c != '\0'),
    decreases text.len(),
{
    reveal(Seq::filter);
    if text.len() > 0 {
        law_cleaning_removes_just_nul(text.drop_last());
    }
}

/// An entry is counted if and only if the callback was not retired, as one more under
/// way; an exit as one less. Neither retires the callback.
pub proof fn law_entries_and_exits_are_counted(gate: ProgressCallbackGate)
    ensures
        gate.retired ==> entered(gate).in_flight == gate.in_flight,
        !gate.retired && gate.in_flight < usize::MAX ==> entered(gate).in_flight == gate.in_flight
            + 1,
        gate.in_flight > 0 ==> exited(gate).in_flight == gate.in_flight - 1,
        entered(gate).retired == gate.retired && exited(gate).retired == gate.retired,
{
}

} // verus!
