//! Processes by id: opening them, and quitting a list of them.
//!
//! Process ids travel as `usize`, while Windows takes a 32-bit id. An id
//! that does not fit names no process, so it is never opened.
//!
//! Quitting a list of processes opens each one for termination, terminates
//! it and closes the handle again. `QuitProcesses` says which call comes
//! next and keeps the outcome of each process; the caller makes the calls.
use vstd::prelude::*;

verus! {

/// Access right to terminate a process.
pub const PROCESS_TERMINATE: u32 = 0x0001u32;

/// Access right to read the memory of a process.
pub const PROCESS_VM_READ: u32 = 0x0010u32;

/// Access right to duplicate the handles of a process.
pub const PROCESS_DUP_HANDLE: u32 = 0x0040u32;

/// Access right to query a process.
pub const PROCESS_QUERY_INFORMATION: u32 = 0x0400u32;

/// The access with which a process is opened to read the path of its main
/// module.
pub const PROCESS_PATH_ACCESS: u32 = PROCESS_QUERY_INFORMATION | PROCESS_VM_READ;

/// `bInheritHandle` for handles that child processes do not inherit.
pub const INHERIT_NONE: i32 = 0i32;

/// The exit code given to a process that is quit.
pub const QUIT_EXIT_CODE: u32 = 0u32;

/// The 32-bit id under which Windows knows the process `pid`, if there is one.
pub fn process_id(pid: usize) -> (r: Option<u32>)
    ensures
        r is Some <==> pid <= u32::MAX,
        r matches Some(id) ==> id == pid,
{
    if pid <= 0xFFFF_FFFFusize {
        Some(pid as u32)
    } else {
        None
    }
}

/// The next system call in quitting processes, or the answer.
pub enum ProcessAction {
    /// `OpenProcess` with this id, access and `bInheritHandle`.
    Open { process_id: u32, desired_access: u32, inherit_handle: i32 },
    /// `TerminateProcess` on the open process with this exit code.
    Terminate { exit_code: u32 },
    /// `CloseHandle` on the open process.
    Close,
    /// All processes have been dealt with; the answer is whether every one
    /// of them was quit.
    Finish { all_quit: bool },
}

/// The outcome of the last system call.
pub enum ProcessEvent {
    /// `OpenProcess` returned `handle` (null for failure).
    Opened { handle: isize },
    /// `TerminateProcess` returned `status` (zero for failure).
    Terminated { status: i32 },
    /// The process handle was closed.
    Closed,
}

/// Where the current process of the list stands.
#[derive(Clone, Copy)]
pub enum QuitStage {
    Opening,
    Terminating,
    Closing { terminated: bool },
    Finished,
}

/// The abstract state of quitting a list of processes: the list, whether
/// each process dealt with so far was quit, and the stage of the next one.
pub struct QuitView {
    pub pids: Seq<usize>,
    pub outcomes: Seq<bool>,
    pub stage: QuitStage,
}

/// The first position at or after `from` whose process id fits in 32 bits,
/// or the end of the list.
pub open spec fn next_openable(pids: Seq<usize>, from: int) -> int
    decreases pids.len() - from,
{
    if from >= pids.len() {
        from
    } else if pids[from] <= u32::MAX {
        from
    } else {
        next_openable(pids, from + 1)
    }
}

/// Every process in the list was quit.
pub open spec fn all_quit(outcomes: Seq<bool>) -> bool {
    forall|i: int| 0 <= i < outcomes.len() ==> #[trigger] outcomes[i]
}

/// Moves on from position `done`: processes whose id does not fit are
/// counted as not quit, and the next one is opened, if any is left.
pub open spec fn move_on(pids: Seq<usize>, outcomes: Seq<bool>) -> QuitView {
    let n = outcomes.len() as int;
    let m = next_openable(pids, n);
    QuitView {
        pids,
        outcomes: outcomes + Seq::new((m - n) as nat, |i: int| false),
        stage: if m < pids.len() {
            QuitStage::Opening
        } else {
            QuitStage::Finished
        },
    }
}

/// The state in which quitting `pids` begins.
pub open spec fn quit_start(pids: Seq<usize>) -> QuitView {
    move_on(pids, Seq::empty())
}

/// One step of quitting processes: a process that does not open is not
/// quit; one that opens is terminated and closed, and is quit when the
/// termination succeeded. An event that the state does not wait on changes
/// nothing.
pub open spec fn quit_next(v: QuitView, e: ProcessEvent) -> QuitView {
    match (v.stage, e) {
        (QuitStage::Opening, ProcessEvent::Opened { handle }) => if handle == 0 {
            move_on(v.pids, v.outcomes.push(false))
        } else {
            QuitView { stage: QuitStage::Terminating, ..v }
        },
        (QuitStage::Terminating, ProcessEvent::Terminated { status }) => QuitView {
            stage: QuitStage::Closing { terminated: status != 0 },
            ..v
        },
        (QuitStage::Closing { terminated }, ProcessEvent::Closed) => move_on(
            v.pids,
            v.outcomes.push(terminated),
        ),
        _ => v,
    }
}

/// The call that state `v` waits on.
pub open spec fn quit_action(v: QuitView) -> ProcessAction {
    match v.stage {
        QuitStage::Opening => ProcessAction::Open {
            process_id: v.pids[v.outcomes.len() as int] as u32,
            desired_access: PROCESS_TERMINATE,
            inherit_handle: INHERIT_NONE,
        },
        QuitStage::Terminating => ProcessAction::Terminate { exit_code: QUIT_EXIT_CODE },
        QuitStage::Closing { .. } => ProcessAction::Close,
        QuitStage::Finished => ProcessAction::Finish { all_quit: all_quit(v.outcomes) },
    }
}

/// The state is consistent: the processes dealt with come first, a process
/// whose id does not fit was not quit, the process at hand has an id that
/// fits, and the task is finished exactly when all are dealt with.
pub open spec fn quit_view_wf(v: QuitView) -> bool {
    &&& v.outcomes.len() <= v.pids.len()
    &&& forall|i: int| 0 <= i < v.outcomes.len() && v.pids[i] > u32::MAX ==> !v.outcomes[i]
    &&& (v.stage is Finished <==> v.outcomes.len() == v.pids.len())
    &&& (!(v.stage is Finished) ==> v.pids[v.outcomes.len() as int] <= u32::MAX)
}

/// `next_openable` stops at an id that fits or at the end, past ids that do
/// not fit.
pub proof fn lemma_next_openable(pids: Seq<usize>, from: int)
    requires
        0 <= from <= pids.len(),
    ensures
        from <= next_openable(pids, from) <= pids.len(),
        forall|j: int| from <= j < next_openable(pids, from) ==> pids[j] > u32::MAX,
        next_openable(pids, from) < pids.len() ==> pids[next_openable(pids, from)] <= u32::MAX,
    decreases pids.len() - from,
{
    if from < pids.len() && pids[from] > u32::MAX {
        lemma_next_openable(pids, from + 1);
    }
}

/// Moving on keeps the state consistent.
pub proof fn lemma_move_on_wf(pids: Seq<usize>, outcomes: Seq<bool>)
    requires
        outcomes.len() <= pids.len(),
        forall|i: int| 0 <= i < outcomes.len() && pids[i] > u32::MAX ==> !outcomes[i],
    ensures
        quit_view_wf(move_on(pids, outcomes)),
{
    lemma_next_openable(pids, outcomes.len() as int);
    let v = move_on(pids, outcomes);
    assert forall|i: int| 0 <= i < v.outcomes.len() && v.pids[i] > u32::MAX implies !v.outcomes[i] by {
        if i >= outcomes.len() {
            assert(v.outcomes[i] == false);
        } else {
            assert(v.outcomes[i] == outcomes[i]);
        }
    }
}

/// Every step keeps the state consistent.
pub proof fn lemma_quit_next_wf(v: QuitView, e: ProcessEvent)
    requires
        quit_view_wf(v),
    ensures
        quit_view_wf(quit_next(v, e)),
{
    match (v.stage, e) {
        (QuitStage::Opening, ProcessEvent::Opened { handle }) => {
            if handle == 0 {
                lemma_move_on_wf(v.pids, v.outcomes.push(false));
            }
        },
        (QuitStage::Closing { terminated }, ProcessEvent::Closed) => {
            lemma_move_on_wf(v.pids, v.outcomes.push(terminated));
        },
        _ => {},
    }
}

/// Whether every process was quit is the conjunction of the outcomes: true
/// of no outcome at all, and adding an outcome conjoins it. So a single
/// process that was not quit, wherever it stands, makes the answer false.
pub proof fn lemma_all_quit_is_conjunction(outcomes: Seq<bool>, last: bool, k: int)
    ensures
        all_quit(Seq::empty()),
        all_quit(outcomes.push(last)) == (all_quit(outcomes) && last),
        0 <= k < outcomes.len() && !outcomes[k] ==> !all_quit(outcomes),
{
    let o = outcomes.push(last);
    if all_quit(outcomes) && last {
        assert forall|i: int| 0 <= i < o.len() implies #[trigger] o[i] by {
            if i < outcomes.len() {
                assert(o[i] == outcomes[i]);
            }
        }
    }
    if !last {
        assert(!o[o.len() - 1]);
    }
    if !all_quit(outcomes) {
        let j = choose|j: int| 0 <= j < outcomes.len() && !outcomes[j];
        assert(o[j] == outcomes[j]);
    }
}

/// With nothing to quit, the answer is `true` at once.
pub proof fn lemma_quit_nothing()
    ensures
        quit_action(quit_start(Seq::empty())) == (ProcessAction::Finish { all_quit: true }),
{
    let v = quit_start(Seq::<usize>::empty());
    assert(v.outcomes =~= Seq::<bool>::empty());
}

/// A finished task answers whether every process of the list was quit, and
/// a process whose id does not fit counts as not quit.
pub proof fn lemma_quit_answer(v: QuitView)
    requires
        quit_view_wf(v),
        v.stage is Finished,
    ensures
        v.outcomes.len() == v.pids.len(),
        quit_action(v) == (ProcessAction::Finish { all_quit: all_quit(v.outcomes) }),
        quit_action(v) matches ProcessAction::Finish { all_quit: b } && (b <==> forall|i: int|
            0 <= i < v.pids.len() ==> #[trigger] v.outcomes[i]),
        forall|i: int| 0 <= i < v.pids.len() && v.pids[i] > u32::MAX ==> !v.outcomes[i],
{
}

/// Quitting one process: it is opened for termination; if that fails the
/// answer is `false` and nothing is closed. Otherwise it is terminated and
/// then its handle is closed, and the answer is whether the termination
/// succeeded. A process whose id does not fit is never opened.
pub proof fn lemma_quit_one_process(pid: usize, handle: isize, status: i32)
    ensures
        ({
            let v0 = quit_start(seq![pid]);
            let v1 = quit_next(v0, ProcessEvent::Opened { handle });
            let v2 = quit_next(v1, ProcessEvent::Terminated { status });
            let v3 = quit_next(v2, ProcessEvent::Closed);
            if pid > u32::MAX {
                quit_action(v0) == ProcessAction::Finish { all_quit: false }
            } else {
                &&& quit_action(v0) == ProcessAction::Open {
                    process_id: pid as u32,
                    desired_access: PROCESS_TERMINATE,
                    inherit_handle: INHERIT_NONE,
                }
                &&& if handle == 0 {
                    quit_action(v1) == ProcessAction::Finish { all_quit: false }
                } else {
                    &&& quit_action(v1) == ProcessAction::Terminate { exit_code: QUIT_EXIT_CODE }
                    &&& quit_action(v2) == ProcessAction::Close
                    &&& quit_action(v3) == ProcessAction::Finish { all_quit: status != 0 }
                }
            }
        }),
{
    let pids = seq![pid];
    let v0 = quit_start(pids);
    assert(next_openable(pids, 1) == 1);
    if pid > u32::MAX {
        assert(next_openable(pids, 0) == 1);
        assert(v0.outcomes[0] == false);
    } else {
        assert(next_openable(pids, 0) == 0);
        assert(v0.outcomes =~= Seq::<bool>::empty());
        let v1 = quit_next(v0, ProcessEvent::Opened { handle });
        if handle == 0 {
            assert(v1.outcomes =~= seq![false]);
            assert(!v1.outcomes[0]);
        } else {
            let v2 = quit_next(v1, ProcessEvent::Terminated { status });
            let v3 = quit_next(v2, ProcessEvent::Closed);
            assert(v3.outcomes =~= seq![status != 0]);
            assert(all_quit(v3.outcomes) == v3.outcomes[0]);
        }
    }
}

/// Quitting a list of processes, one after the other.
pub struct QuitProcesses {
    pids: Vec<usize>,
    next: usize,
    all_ok: bool,
    stage: QuitStage,
    outcomes: Ghost<Seq<bool>>,
}

impl View for QuitProcesses {
    type V = QuitView;

    closed spec fn view(&self) -> QuitView {
        QuitView { pids: self.pids@, outcomes: self.outcomes@, stage: self.stage }
    }
}

impl QuitProcesses {
    /// The machine is consistent and its fields agree with its view.
    pub closed spec fn wf(&self) -> bool {
        &&& quit_view_wf(self@)
        &&& self.next == self.outcomes@.len()
        &&& self.all_ok == all_quit(self.outcomes@)
    }

    fn move_on(&mut self)
        requires
            old(self).next == old(self).outcomes@.len(),
            old(self).all_ok == all_quit(old(self).outcomes@),
            old(self).outcomes@.len() <= old(self).pids@.len(),
            forall|i: int|
                0 <= i < old(self).outcomes@.len() && old(self).pids@[i] > u32::MAX
                    ==> !old(self).outcomes@[i],
        ensures
            final(self)@ == move_on(old(self).pids@, old(self).outcomes@),
            final(self).wf(),
    {
        let ghost start = self.outcomes@;
        let ghost n = start.len() as int;
        proof {
            lemma_next_openable(self.pids@, n);
        }
        while self.next < self.pids.len() && self.pids[self.next] > 0xFFFF_FFFFusize
            invariant
                n <= self.next <= next_openable(self.pids@, n) <= self.pids@.len(),
                forall|j: int| n <= j < next_openable(self.pids@, n) ==> self.pids@[j] > u32::MAX,
                next_openable(self.pids@, n) < self.pids@.len() ==> self.pids@[next_openable(
                    self.pids@,
                    n,
                )] <= u32::MAX,
                self.pids@ == old(self).pids@,
                self.next == self.outcomes@.len(),
                self.outcomes@ == start + Seq::new((self.next - n) as nat, |i: int| false),
                self.all_ok == all_quit(self.outcomes@),
            decreases self.pids@.len() - self.next,
        {
            proof {
                assert(start + Seq::new((self.next + 1 - n) as nat, |i: int| false) =~= self.outcomes@.push(false));
                let o = self.outcomes@.push(false);
                assert(!o[o.len() - 1]);
            }
            self.outcomes = Ghost(self.outcomes@.push(false));
            self.all_ok = false;
            self.next = self.next + 1;
        }
        if self.next < self.pids.len() {
            self.stage = QuitStage::Opening;
        } else {
            self.stage = QuitStage::Finished;
        }
        proof {
            lemma_move_on_wf(old(self).pids@, old(self).outcomes@);
        }
    }

    fn record(&mut self, quit: bool)
        requires
            old(self).wf(),
            !(old(self)@.stage is Finished),
        ensures
            final(self)@ == move_on(old(self).pids@, old(self).outcomes@.push(quit)),
            final(self).wf(),
    {
        proof {
            assert(all_quit(self.outcomes@.push(quit)) == (self.all_ok && quit)) by {
                let o = self.outcomes@.push(quit);
                if self.all_ok && quit {
                    assert forall|i: int| 0 <= i < o.len() implies #[trigger] o[i] by {
                        if i < self.outcomes@.len() {
                            assert(o[i] == self.outcomes@[i]);
                        }
                    }
                }
                if !quit {
                    assert(!o[o.len() - 1]);
                }
                if !self.all_ok {
                    let k = choose|k: int| 0 <= k < self.outcomes@.len() && !self.outcomes@[k];
                    assert(o[k] == self.outcomes@[k]);
                }
            }
        }
        proof {
            assert(self.pids@.len() == self.pids.len());
        }
        self.outcomes = Ghost(self.outcomes@.push(quit));
        self.all_ok = self.all_ok && quit;
        self.next = self.next + 1;
        self.move_on();
    }

    fn pending_action(&self) -> (a: ProcessAction)
        requires
            self.wf(),
        ensures
            a == quit_action(self@),
    {
        match self.stage {
            QuitStage::Opening => ProcessAction::Open {
                process_id: self.pids[self.next] as u32,
                desired_access: PROCESS_TERMINATE,
                inherit_handle: INHERIT_NONE,
            },
            QuitStage::Terminating => ProcessAction::Terminate { exit_code: QUIT_EXIT_CODE },
            QuitStage::Closing { .. } => ProcessAction::Close,
            QuitStage::Finished => ProcessAction::Finish { all_quit: self.all_ok },
        }
    }

    /// Starts quitting `pids`, in order.
    pub fn new(pids: Vec<usize>) -> (r: (QuitProcesses, ProcessAction))
        ensures
            r.0.wf(),
            r.0@ == quit_start(pids@),
            r.1 == quit_action(r.0@),
    {
        let mut q = QuitProcesses {
            pids,
            next: 0,
            all_ok: true,
            stage: QuitStage::Finished,
            outcomes: Ghost(Seq::empty()),
        };
        q.move_on();
        let a = q.pending_action();
        (q, a)
    }

    /// Takes the outcome of the last call and says what comes next.
    pub fn step(&mut self, event: ProcessEvent) -> (a: ProcessAction)
        requires
            old(self).wf(),
        ensures
            final(self).wf(),
            final(self)@ == quit_next(old(self)@, event),
            a == quit_action(final(self)@),
    {
        match (self.stage, event) {
            (QuitStage::Opening, ProcessEvent::Opened { handle }) => {
                if handle == 0 {
                    self.record(false);
                } else {
                    self.stage = QuitStage::Terminating;
                }
            },
            (QuitStage::Terminating, ProcessEvent::Terminated { status }) => {
                self.stage = QuitStage::Closing { terminated: status != 0 };
            },
            (QuitStage::Closing { terminated }, ProcessEvent::Closed) => {
                self.record(terminated);
            },
            _ => {},
        }
        self.pending_action()
    }
}

} // verus!
