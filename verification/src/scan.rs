//! Naming the files that the handles of the system table refer to.
//!
//! A handle of another process can only be looked at through a duplicate in
//! this process. For each entry of the handle table, the owning process is
//! opened to duplicate handles, the handle is duplicated, and the owner is
//! closed again. A duplicate that refers to a disk file is asked for the name
//! of its file object; every duplicate is closed. `HandleScan` says which
//! call comes next and collects the named handles; the caller makes the calls.
use vstd::prelude::*;
use crate::locking::OpenFileHandle;
use crate::process::{INHERIT_NONE, PROCESS_DUP_HANDLE};
use crate::system_info::{SystemHandleTableEntryInfoEx, FILE_TYPE_DISK};

verus! {

/// `DUPLICATE_SAME_ACCESS`: the duplicate gets the access of the source.
/// (`DUPLICATE_CLOSE_SOURCE`, which would close the owner's handle, is `1`.)
pub const DUPLICATE_SAME_ACCESS: u32 = 2u32;

/// The next system call of a scan, or its end.
pub enum ScanAction {
    /// `OpenProcess` on the owner of the current entry with this access and
    /// `bInheritHandle`.
    OpenOwner { process_id: u32, desired_access: u32, inherit_handle: i32 },
    /// `DuplicateHandle` of this handle of the owner, into the current
    /// process when `into_current_process` holds, with this access,
    /// `bInheritHandle` and options.
    Duplicate {
        handle_value: u64,
        into_current_process: bool,
        desired_access: u32,
        inherit_handle: i32,
        options: u32,
    },
    /// `CloseHandle` on the owner.
    CloseOwner,
    /// `GetFileType` on the duplicate.
    QueryFileType,
    /// `NtQueryObject` for the name of the duplicate's object.
    QueryName,
    /// `CloseHandle` on the duplicate.
    CloseDuplicate,
    /// Every entry has been looked at.
    Finish,
}

/// The outcome of the last system call of a scan.
pub enum ScanEvent {
    /// `OpenProcess` returned `handle` (null for failure).
    OwnerOpened { handle: isize },
    /// `DuplicateHandle` returned `status` (zero for failure).
    Duplicated { status: i32 },
    /// The owner was closed.
    OwnerClosed,
    /// `GetFileType` returned `file_type`.
    FileTypeQueried { file_type: u32 },
    /// The name of the object, or `None` where it could not be read.
    NameQueried { name: Option<Vec<u16>> },
    /// The duplicate was closed.
    DuplicateClosed,
}

/// Where the scan of the current entry stands.
#[derive(Clone, Copy)]
pub enum ScanStage {
    OpeningOwner,
    Duplicating,
    ClosingOwner { duplicated: bool },
    QueryingFileType,
    QueryingName,
    ClosingDuplicate,
    Finished,
}

/// The abstract state of a scan: the entries, the position of the current
/// one, its stage, the name read for it, and the named handles so far (each
/// as its owner's id and its name).
pub struct ScanView {
    pub entries: Seq<SystemHandleTableEntryInfoEx>,
    pub current: int,
    pub stage: ScanStage,
    pub pending_name: Option<Seq<u16>>,
    pub named: Seq<(usize, Seq<u16>)>,
}

/// An entry can be looked at: its owner's id fits in 32 bits.
pub open spec fn scannable(e: SystemHandleTableEntryInfoEx) -> bool {
    e.unique_process_id <= u32::MAX
}

/// The first position at or after `from` whose entry can be looked at, or the
/// end of the table.
pub open spec fn next_scannable(entries: Seq<SystemHandleTableEntryInfoEx>, from: int) -> int
    decreases entries.len() - from,
{
    if from >= entries.len() {
        from
    } else if scannable(entries[from]) {
        from
    } else {
        next_scannable(entries, from + 1)
    }
}

/// Goes on with the first entry at or after `from` that can be looked at.
pub open spec fn scan_from(
    entries: Seq<SystemHandleTableEntryInfoEx>,
    from: int,
    named: Seq<(usize, Seq<u16>)>,
) -> ScanView {
    let m = next_scannable(entries, from);
    ScanView {
        entries,
        current: m,
        stage: if m < entries.len() {
            ScanStage::OpeningOwner
        } else {
            ScanStage::Finished
        },
        pending_name: None,
        named,
    }
}

/// The state in which a scan of `entries` begins.
pub open spec fn scan_start(entries: Seq<SystemHandleTableEntryInfoEx>) -> ScanView {
    scan_from(entries, 0, Seq::empty())
}

/// One step of a scan. An owner that does not open, or a handle that does
/// not duplicate, ends the look at that entry; the owner is closed right
/// after the duplication either way. Only a duplicate on a disk file is
/// asked for its name; the duplicate is closed in either case, and the
/// handle is named when its name was read. An event that the state does not
/// wait on changes nothing.
pub open spec fn scan_next(v: ScanView, e: ScanEvent) -> ScanView {
    match (v.stage, e) {
        (ScanStage::OpeningOwner, ScanEvent::OwnerOpened { handle }) => if handle == 0 {
            scan_from(v.entries, v.current + 1, v.named)
        } else {
            ScanView { stage: ScanStage::Duplicating, ..v }
        },
        (ScanStage::Duplicating, ScanEvent::Duplicated { status }) => ScanView {
            stage: ScanStage::ClosingOwner { duplicated: status != 0 },
            ..v
        },
        (ScanStage::ClosingOwner { duplicated }, ScanEvent::OwnerClosed) => if duplicated {
            ScanView { stage: ScanStage::QueryingFileType, ..v }
        } else {
            scan_from(v.entries, v.current + 1, v.named)
        },
        (ScanStage::QueryingFileType, ScanEvent::FileTypeQueried { file_type }) => if file_type
            == FILE_TYPE_DISK {
            ScanView { stage: ScanStage::QueryingName, ..v }
        } else {
            ScanView { stage: ScanStage::ClosingDuplicate, pending_name: None, ..v }
        },
        (ScanStage::QueryingName, ScanEvent::NameQueried { name }) => ScanView {
            stage: ScanStage::ClosingDuplicate,
            pending_name: match name {
                Some(n) => Some(n@),
                None => None,
            },
            ..v
        },
        (ScanStage::ClosingDuplicate, ScanEvent::DuplicateClosed) => {
            let named = match v.pending_name {
                Some(n) => v.named.push(
                    (v.entries[v.current].unique_process_id as usize, n),
                ),
                None => v.named,
            };
            scan_from(v.entries, v.current + 1, named)
        },
        _ => v,
    }
}

/// The call that state `v` waits on.
pub open spec fn scan_action(v: ScanView) -> ScanAction {
    match v.stage {
        ScanStage::OpeningOwner => ScanAction::OpenOwner {
            process_id: v.entries[v.current].unique_process_id as u32,
            desired_access: PROCESS_DUP_HANDLE,
            inherit_handle: INHERIT_NONE,
        },
        ScanStage::Duplicating => ScanAction::Duplicate {
            handle_value: v.entries[v.current].handle_value,
            into_current_process: true,
            desired_access: 0,
            inherit_handle: INHERIT_NONE,
            options: DUPLICATE_SAME_ACCESS,
        },
        ScanStage::ClosingOwner { .. } => ScanAction::CloseOwner,
        ScanStage::QueryingFileType => ScanAction::QueryFileType,
        ScanStage::QueryingName => ScanAction::QueryName,
        ScanStage::ClosingDuplicate => ScanAction::CloseDuplicate,
        ScanStage::Finished => ScanAction::Finish,
    }
}

/// The state is consistent: the current entry can be looked at unless the
/// scan is finished, a name is held only while the duplicate is being
/// closed, and every named handle belongs to an entry of the table.
pub open spec fn scan_view_wf(v: ScanView) -> bool {
    &&& 0 <= v.current <= v.entries.len()
    &&& (v.stage is Finished <==> v.current == v.entries.len())
    &&& (!(v.stage is Finished) ==> scannable(v.entries[v.current]))
    &&& (v.pending_name is Some ==> v.stage is ClosingDuplicate)
    &&& named_in_table(v.entries, v.named)
}

/// Every named handle belongs to the owner of some entry of the table.
pub open spec fn named_in_table(
    entries: Seq<SystemHandleTableEntryInfoEx>,
    named: Seq<(usize, Seq<u16>)>,
) -> bool {
    forall|k: int|
        0 <= k < named.len() ==> exists|j: int|
            0 <= j < entries.len() && #[trigger] entries[j].unique_process_id == (
            #[trigger] named[k]).0 as u64
}

/// `next_scannable` stops at an entry that can be looked at, or at the end.
pub proof fn lemma_next_scannable(entries: Seq<SystemHandleTableEntryInfoEx>, from: int)
    requires
        0 <= from <= entries.len(),
    ensures
        from <= next_scannable(entries, from) <= entries.len(),
        next_scannable(entries, from) < entries.len() ==> scannable(
            entries[next_scannable(entries, from)],
        ),
    decreases entries.len() - from,
{
    if from < entries.len() && !scannable(entries[from]) {
        lemma_next_scannable(entries, from + 1);
    }
}

/// Every step keeps a scan consistent.
pub proof fn lemma_scan_next_wf(v: ScanView, e: ScanEvent)
    requires
        scan_view_wf(v),
    ensures
        scan_view_wf(scan_next(v, e)),
{
    if v.current < v.entries.len() {
        lemma_next_scannable(v.entries, v.current + 1);
    }
    let n = scan_next(v, e);
    if let (ScanStage::ClosingDuplicate, ScanEvent::DuplicateClosed) = (v.stage, e) {
        if let Some(name) = v.pending_name {
            let pid = v.entries[v.current].unique_process_id;
            assert forall|k: int| 0 <= k < n.named.len() implies exists|j: int|
                0 <= j < n.entries.len() && #[trigger] n.entries[j].unique_process_id
                    == (#[trigger] n.named[k]).0 as u64 by {
                if k < v.named.len() {
                    assert(n.named[k] == v.named[k]);
                } else {
                    assert(n.named[k].0 as u64 == pid);
                    assert(n.entries[v.current].unique_process_id == pid);
                }
            }
        }
    }
}

/// No entry of the table is passed over. Whenever a step ends the look at
/// the current entry, the scan goes on with the very next entry that can be
/// looked at: every entry in between has an owner whose id does not fit, and
/// the new entry is opened, unless the table is done. A step that does not
/// end the look stays at the current entry. A handle is named only at the
/// end of the look at its entry, with that entry's owner.
pub proof fn lemma_scan_visits_every_entry(v: ScanView, e: ScanEvent)
    requires
        scan_view_wf(v),
    ensures
        ({
            let n = scan_next(v, e);
            &&& v.current <= n.current <= v.entries.len()
            &&& n.current != v.current ==> {
                &&& forall|j: int| v.current < j < n.current ==> !scannable(#[trigger] v.entries[j])
                &&& n.current < v.entries.len() ==> scannable(v.entries[n.current])
                    && n.stage is OpeningOwner
                &&& n.current == v.entries.len() ==> n.stage is Finished
            }
            &&& n.named.len() <= v.named.len() + 1
            &&& n.named.subrange(0, v.named.len() as int) == v.named
            &&& n.named.len() == v.named.len() + 1 ==> n.current != v.current && n.named.last().0
                as u64 == v.entries[v.current].unique_process_id
        }),
{
    if v.current < v.entries.len() {
        lemma_next_scannable(v.entries, v.current + 1);
        lemma_next_scannable_between(v.entries, v.current + 1);
    }
    let n = scan_next(v, e);
    assert(n.named.subrange(0, v.named.len() as int) =~= v.named);
}

/// Entries before the one where `next_scannable` stops cannot be looked at.
proof fn lemma_next_scannable_between(entries: Seq<SystemHandleTableEntryInfoEx>, from: int)
    requires
        0 <= from <= entries.len(),
    ensures
        forall|j: int| from <= j < next_scannable(entries, from) ==> !scannable(#[trigger] entries[j]),
    decreases entries.len() - from,
{
    if from < entries.len() && !scannable(entries[from]) {
        lemma_next_scannable_between(entries, from + 1);
    }
}

/// Looking at one entry whose owner's id fits: the owner is opened for
/// duplicating handles, not inheritable; if that fails the scan ends with nothing to close.
/// Otherwise the handle is duplicated into the current process with the
/// same access and without closing the source, and the owner is closed
/// whatever the duplication gave. A duplicate on a disk file is asked for its name and
/// then closed, and the handle is named when the name was read; a duplicate
/// on anything else is closed without being asked.
pub proof fn lemma_scan_one_entry(
    entry: SystemHandleTableEntryInfoEx,
    owner: isize,
    dup_status: i32,
    file_type: u32,
    name: Option<Vec<u16>>,
)
    requires
        scannable(entry),
    ensures
        ({
            let v0 = scan_start(seq![entry]);
            let v1 = scan_next(v0, ScanEvent::OwnerOpened { handle: owner });
            let v2 = scan_next(v1, ScanEvent::Duplicated { status: dup_status });
            let v3 = scan_next(v2, ScanEvent::OwnerClosed);
            let v4 = scan_next(v3, ScanEvent::FileTypeQueried { file_type });
            let v5 = scan_next(v4, ScanEvent::NameQueried { name });
            let v6 = scan_next(v5, ScanEvent::DuplicateClosed);
            &&& scan_action(v0) == ScanAction::OpenOwner {
                process_id: entry.unique_process_id as u32,
                desired_access: PROCESS_DUP_HANDLE,
                inherit_handle: INHERIT_NONE,
            }
            &&& if owner == 0 {
                scan_action(v1) == ScanAction::Finish && v1.named.len() == 0
            } else {
                &&& scan_action(v1) == ScanAction::Duplicate {
                    handle_value: entry.handle_value,
                    into_current_process: true,
                    desired_access: 0,
                    inherit_handle: INHERIT_NONE,
                    options: DUPLICATE_SAME_ACCESS,
                }
                &&& scan_action(v2) == ScanAction::CloseOwner
                &&& if dup_status == 0 {
                    scan_action(v3) == ScanAction::Finish && v3.named.len() == 0
                } else if file_type == FILE_TYPE_DISK {
                    &&& scan_action(v3) == ScanAction::QueryFileType
                    &&& scan_action(v4) == ScanAction::QueryName
                    &&& scan_action(v5) == ScanAction::CloseDuplicate
                    &&& scan_action(v6) == ScanAction::Finish
                    &&& v6.named == match name {
                        Some(n) => seq![(entry.unique_process_id as usize, n@)],
                        None => Seq::<(usize, Seq<u16>)>::empty(),
                    }
                } else {
                    &&& scan_action(v3) == ScanAction::QueryFileType
                    &&& scan_action(v4) == ScanAction::CloseDuplicate
                    &&& scan_action(scan_next(v4, ScanEvent::DuplicateClosed)) == ScanAction::Finish
                    &&& scan_next(v4, ScanEvent::DuplicateClosed).named.len() == 0
                }
            }
        }),
{
    let entries = seq![entry];
    assert(next_scannable(entries, 0) == 0);
    assert(next_scannable(entries, 1) == 1);
    let v0 = scan_start(entries);
    let v1 = scan_next(v0, ScanEvent::OwnerOpened { handle: owner });
    let v2 = scan_next(v1, ScanEvent::Duplicated { status: dup_status });
    let v3 = scan_next(v2, ScanEvent::OwnerClosed);
    let v4 = scan_next(v3, ScanEvent::FileTypeQueried { file_type });
    let v5 = scan_next(v4, ScanEvent::NameQueried { name });
    let v6 = scan_next(v5, ScanEvent::DuplicateClosed);
    if owner != 0 && dup_status != 0 && file_type == FILE_TYPE_DISK {
        match name {
            Some(n) => {
                assert(v6.named =~= seq![(entry.unique_process_id as usize, n@)]);
            },
            None => {
                assert(v6.named =~= Seq::<(usize, Seq<u16>)>::empty());
            },
        }
    }
}

/// Scanning the handle table, one entry after the other.
pub struct HandleScan {
    entries: Vec<SystemHandleTableEntryInfoEx>,
    current: usize,
    stage: ScanStage,
    pending_name: Option<Vec<u16>>,
    named: Vec<OpenFileHandle>,
}

/// The named handles, each as its owner's id and its name.
pub open spec fn named_view(named: Seq<OpenFileHandle>) -> Seq<(usize, Seq<u16>)> {
    named.map_values(|h: OpenFileHandle| (h.pid, h.name@))
}

impl View for HandleScan {
    type V = ScanView;

    closed spec fn view(&self) -> ScanView {
        ScanView {
            entries: self.entries@,
            current: self.current as int,
            stage: self.stage,
            pending_name: match self.pending_name {
                Some(n) => Some(n@),
                None => None,
            },
            named: named_view(self.named@),
        }
    }
}

impl HandleScan {
    /// The scan is consistent.
    pub closed spec fn wf(&self) -> bool {
        scan_view_wf(self@)
    }

    fn go_on(&mut self, from: usize)
        requires
            from <= old(self).entries@.len(),
            named_in_table(old(self).entries@, named_view(old(self).named@)),
        ensures
            final(self)@ == scan_from(old(self).entries@, from as int, named_view(old(self).named@)),
            final(self).wf(),
    {
        proof {
            lemma_next_scannable(self.entries@, from as int);
        }
        let mut i = from;
        while i < self.entries.len() && self.entries[i].unique_process_id > 0xFFFF_FFFFu64
            invariant
                from <= i <= next_scannable(self.entries@, from as int) <= self.entries@.len(),
                forall|j: int|
                    from <= j < i ==> !scannable(#[trigger] self.entries@[j]),
                next_scannable(self.entries@, from as int) < self.entries@.len() ==> scannable(
                    self.entries@[next_scannable(self.entries@, from as int)],
                ),
                self.entries@ == old(self).entries@,
                self.named@ == old(self).named@,
            decreases self.entries@.len() - i,
        {
            proof {
                lemma_next_scannable_skips(self.entries@, from as int, i as int);
            }
            i = i + 1;
        }
        proof {
            lemma_next_scannable_stops(self.entries@, from as int, i as int);
        }
        self.current = i;
        self.pending_name = None;
        if i < self.entries.len() {
            self.stage = ScanStage::OpeningOwner;
        } else {
            self.stage = ScanStage::Finished;
        }
    }

    fn pending_action(&self) -> (a: ScanAction)
        requires
            self.wf(),
        ensures
            a == scan_action(self@),
    {
        match self.stage {
            ScanStage::OpeningOwner => ScanAction::OpenOwner {
                process_id: self.entries[self.current].unique_process_id as u32,
                desired_access: PROCESS_DUP_HANDLE,
                inherit_handle: INHERIT_NONE,
            },
            ScanStage::Duplicating => ScanAction::Duplicate {
                handle_value: self.entries[self.current].handle_value,
            into_current_process: true,
            desired_access: 0,
            inherit_handle: INHERIT_NONE,
            options: DUPLICATE_SAME_ACCESS,
            },
            ScanStage::ClosingOwner { .. } => ScanAction::CloseOwner,
            ScanStage::QueryingFileType => ScanAction::QueryFileType,
            ScanStage::QueryingName => ScanAction::QueryName,
            ScanStage::ClosingDuplicate => ScanAction::CloseDuplicate,
            ScanStage::Finished => ScanAction::Finish,
        }
    }

    /// Starts a scan of the handle table's entries.
    pub fn new(entries: Vec<SystemHandleTableEntryInfoEx>) -> (r: (HandleScan, ScanAction))
        ensures
            r.0.wf(),
            r.0@ == scan_start(entries@),
            r.1 == scan_action(r.0@),
    {
        let mut s = HandleScan {
            entries,
            current: 0,
            stage: ScanStage::Finished,
            pending_name: None,
            named: Vec::new(),
        };
        proof {
            assert(named_view(s.named@) =~= Seq::<(usize, Seq<u16>)>::empty());
        }
        s.go_on(0);
        let a = s.pending_action();
        (s, a)
    }

    /// Takes the outcome of the last call and says what comes next.
    pub fn step(&mut self, event: ScanEvent) -> (a: ScanAction)
        requires
            old(self).wf(),
        ensures
            final(self).wf(),
            final(self)@ == scan_next(old(self)@, event),
            a == scan_action(final(self)@),
    {
        proof {
            assert(self.entries@.len() == self.entries.len());
        }
        let ghost v = self@;
        let ghost e = event;
        proof {
            lemma_scan_next_wf(v, e);
        }
        match (self.stage, event) {
            (ScanStage::OpeningOwner, ScanEvent::OwnerOpened { handle }) => {
                if handle == 0 {
                    let from = self.current + 1;
                    self.go_on(from);
                } else {
                    self.stage = ScanStage::Duplicating;
                }
            },
            (ScanStage::Duplicating, ScanEvent::Duplicated { status }) => {
                self.stage = ScanStage::ClosingOwner { duplicated: status != 0 };
            },
            (ScanStage::ClosingOwner { duplicated }, ScanEvent::OwnerClosed) => {
                if duplicated {
                    self.stage = ScanStage::QueryingFileType;
                } else {
                    let from = self.current + 1;
                    self.go_on(from);
                }
            },
            (ScanStage::QueryingFileType, ScanEvent::FileTypeQueried { file_type }) => {
                if file_type == FILE_TYPE_DISK {
                    self.stage = ScanStage::QueryingName;
                } else {
                    self.stage = ScanStage::ClosingDuplicate;
                    self.pending_name = None;
                }
            },
            (ScanStage::QueryingName, ScanEvent::NameQueried { name }) => {
                self.stage = ScanStage::ClosingDuplicate;
                self.pending_name = name;
            },
            (ScanStage::ClosingDuplicate, ScanEvent::DuplicateClosed) => {
                let pending = self.pending_name.take();
                match pending {
                    Some(name) => {
                        let pid = self.entries[self.current].unique_process_id as usize;
                        let ghost before = self.named@;
                        self.named.push(OpenFileHandle { pid, name });
                        proof {
                            assert(named_view(self.named@) =~= named_view(before).push(
                                (pid, name@),
                            ));
                        }
                    },
                    None => {},
                }
                let from = self.current + 1;
                self.go_on(from);
            },
            _ => {},
        }
        self.pending_action()
    }

    /// The named handles that the scan collected.
    pub fn into_handles(self) -> (r: Vec<OpenFileHandle>)
        ensures
            named_view(r@) == self@.named,
    {
        self.named
    }
}

/// Entries before the one where `next_scannable` stops cannot be looked at.
proof fn lemma_next_scannable_skips(entries: Seq<SystemHandleTableEntryInfoEx>, from: int, i: int)
    requires
        0 <= from <= i < entries.len(),
        i < next_scannable(entries, from),
    ensures
        !scannable(entries[i]),
    decreases i - from,
{
    if from < i {
        lemma_next_scannable_skips(entries, from + 1, i);
    }
}

/// `next_scannable` stops at the first entry that can be looked at.
proof fn lemma_next_scannable_stops(entries: Seq<SystemHandleTableEntryInfoEx>, from: int, i: int)
    requires
        0 <= from <= i <= entries.len(),
        forall|j: int| from <= j < i ==> !scannable(#[trigger] entries[j]),
        i == entries.len() || scannable(entries[i]),
    ensures
        next_scannable(entries, from) == i,
    decreases i - from,
{
    if from < i {
        lemma_next_scannable_stops(entries, from + 1, i);
    }
}

} // verus!
