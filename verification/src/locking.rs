//! Which processes lock a path, given the open file handles of the system.
//!
//! Each open handle is reported with the process that owns it and the name of
//! the file object it refers to (an NT path, as UTF-16 code units). A handle
//! locks a path when it names that path, or names something inside it when
//! the path is a folder. Names are compared as Windows compares file names:
//! without regard to the case of ASCII letters.
use vstd::prelude::*;

verus! {

/// The path separator `\`.
pub const BACKSLASH: u16 = 0x5Cu16;

/// `FILE_SHARE_READ`: others may read.
pub const FILE_SHARE_READ: u32 = 0x0000_0001u32;

/// `FILE_SHARE_WRITE`: others may write.
pub const FILE_SHARE_WRITE: u32 = 0x0000_0002u32;

/// `FILE_SHARE_DELETE`: others may delete or rename.
pub const FILE_SHARE_DELETE: u32 = 0x0000_0004u32;

/// `OPEN_EXISTING`: open only what exists, never create.
pub const OPEN_EXISTING: u32 = 3u32;

/// `FILE_FLAG_BACKUP_SEMANTICS`, which lets a folder be opened too.
pub const FILE_FLAG_BACKUP_SEMANTICS: u32 = 0x0200_0000u32;

/// The arguments of the `CreateFileW` call that opens the target to learn
/// the name of its file object (no security attributes, no template).
pub struct FileOpenRequest {
    pub desired_access: u32,
    pub share_mode: u32,
    pub creation_disposition: u32,
    pub flags_and_attributes: u32,
}

/// How the target is opened: with no access to its data, sharing
/// everything, only if it exists, and with backup semantics so that a
/// folder opens as well as a file. Such an open neither creates nor changes
/// the target.
pub fn target_open_request() -> (r: FileOpenRequest)
    ensures
        r.desired_access == 0,
        r.share_mode == FILE_SHARE_READ | FILE_SHARE_WRITE | FILE_SHARE_DELETE,
        r.creation_disposition == OPEN_EXISTING,
        r.flags_and_attributes == FILE_FLAG_BACKUP_SEMANTICS,
{
    FileOpenRequest {
        desired_access: 0,
        share_mode: FILE_SHARE_READ | FILE_SHARE_WRITE | FILE_SHARE_DELETE,
        creation_disposition: OPEN_EXISTING,
        flags_and_attributes: FILE_FLAG_BACKUP_SEMANTICS,
    }
}

/// An open file handle held by some process.
pub struct OpenFileHandle {
    /// The id of the process that holds the handle.
    pub pid: usize,
    /// The name of the file object the handle refers to.
    pub name: Vec<u16>,
}

/// A code unit with ASCII lower-case letters mapped to upper case.
pub open spec fn fold_case(u: u16) -> u16 {
    if 0x61 <= u && u <= 0x7A {
        (u - 0x20) as u16
    } else {
        u
    }
}

/// `prefix` is a prefix of `name`, up to the case of ASCII letters.
pub open spec fn starts_with_path(name: Seq<u16>, prefix: Seq<u16>) -> bool {
    &&& prefix.len() <= name.len()
    &&& forall|i: int| 0 <= i < prefix.len() ==> fold_case(#[trigger] name[i]) == fold_case(prefix[i])
}

/// `a` and `b` are the same name, up to the case of ASCII letters.
pub open spec fn same_path(a: Seq<u16>, b: Seq<u16>) -> bool {
    a.len() == b.len() && starts_with_path(a, b)
}

/// `name` lies inside the folder `folder`: it continues the folder's name
/// past a separator.
pub open spec fn lies_inside(name: Seq<u16>, folder: Seq<u16>) -> bool {
    &&& folder.len() > 0
    &&& name.len() > folder.len()
    &&& starts_with_path(name, folder)
    &&& (folder.last() == BACKSLASH || name[folder.len() as int] == BACKSLASH)
}

/// A handle on `name` locks `target`: it is the target itself, or lies inside
/// it. An empty target is locked by nothing.
pub open spec fn locks_path(name: Seq<u16>, target: Seq<u16>) -> bool {
    target.len() > 0 && (same_path(name, target) || lies_inside(name, target))
}

/// The processes that lock `target`, each once, in the order in which their
/// first locking handle appears.
pub open spec fn locking_pids(handles: Seq<OpenFileHandle>, target: Seq<u16>) -> Seq<usize>
    decreases handles.len(),
{
    if handles.len() == 0 {
        Seq::empty()
    } else {
        let earlier = locking_pids(handles.drop_last(), target);
        let h = handles.last();
        if locks_path(h.name@, target) && !earlier.contains(h.pid) {
            earlier.push(h.pid)
        } else {
            earlier
        }
    }
}

/// Some handle among `handles` is held by `pid` and locks `target`.
pub open spec fn holds_lock(handles: Seq<OpenFileHandle>, target: Seq<u16>, pid: usize) -> bool {
    exists|i: int|
        0 <= i < handles.len() && (#[trigger] handles[i]).pid == pid && locks_path(
            handles[i].name@,
            target,
        )
}

/// The list of locking processes has no repetition, and holds exactly the
/// processes that hold a handle locking the target.
pub proof fn lemma_locking_pids(handles: Seq<OpenFileHandle>, target: Seq<u16>)
    ensures
        locking_pids(handles, target).no_duplicates(),
        forall|pid: usize|
            #[trigger] locking_pids(handles, target).contains(pid) <==> holds_lock(
                handles,
                target,
                pid,
            ),
    decreases handles.len(),
{
    if handles.len() > 0 {
        let rest = handles.drop_last();
        lemma_locking_pids(rest, target);
        let earlier = locking_pids(rest, target);
        let all = locking_pids(handles, target);
        let h = handles.last();
        assert(handles[handles.len() - 1] == h);
        assert forall|pid: usize| #[trigger] all.contains(pid) implies holds_lock(handles, target, pid) by {
            if earlier.contains(pid) {
                let i = choose|i: int|
                    0 <= i < rest.len() && (#[trigger] rest[i]).pid == pid && locks_path(
                        rest[i].name@,
                        target,
                    );
                assert(handles[i] == rest[i]);
            } else {
                let k = choose|k: int| 0 <= k < all.len() && all[k] == pid;
                assert(k == all.len() - 1);
            }
        }
        assert forall|pid: usize| holds_lock(handles, target, pid) implies #[trigger] all.contains(pid) by {
            let i = choose|i: int|
                0 <= i < handles.len() && (#[trigger] handles[i]).pid == pid && locks_path(
                    handles[i].name@,
                    target,
                );
            if earlier.contains(pid) {
                let k = choose|k: int| 0 <= k < earlier.len() && earlier[k] == pid;
                assert(all[k] == pid);
            } else if i < handles.len() - 1 {
                assert(rest[i] == handles[i]);
                assert(holds_lock(rest, target, pid));
            } else {
                assert(all[all.len() - 1] == pid);
            }
        }
    }
}

/// Two code units are the same up to ASCII case exactly when they are equal
/// or are the upper- and lower-case forms of one ASCII letter.
pub proof fn lemma_fold_case(a: u16, b: u16)
    ensures
        fold_case(a) == fold_case(b) <==> (a == b || (0x41 <= a <= 0x5A && b == a + 0x20) || (
        0x41 <= b <= 0x5A && a == b + 0x20)),
{
}

/// A handle locks the target exactly when its name begins with the whole
/// target, up to ASCII case, and then either ends, or goes on past a
/// separator (one that ends the target or one that follows it). In
/// particular a shorter name, such as that of a folder holding the target,
/// never locks it, and neither does a name that merely shares a beginning
/// with it.
pub proof fn lemma_what_locks(name: Seq<u16>, target: Seq<u16>)
    ensures
        locks_path(name, target) <==> {
            &&& 0 < target.len() <= name.len()
            &&& forall|i: int| 0 <= i < target.len() ==> fold_case(#[trigger] name[i]) == fold_case(target[i])
            &&& (name.len() == target.len() || target[target.len() - 1] == 0x5Cu16 || name[target.len() as int] == 0x5Cu16)
        },
        name.len() < target.len() ==> !locks_path(name, target),
{
}

/// A handle on something inside a folder locks that folder.
pub proof fn lemma_inside_folder_locks_folder(folder: Seq<u16>, rest: Seq<u16>)
    requires
        folder.len() > 0,
    ensures
        locks_path(folder + seq![BACKSLASH] + rest, folder),
{
    let name = folder + seq![BACKSLASH] + rest;
    assert(name[folder.len() as int] == BACKSLASH);
    assert forall|i: int| 0 <= i < folder.len() implies fold_case(#[trigger] name[i]) == fold_case(
        folder[i],
    ) by {
        assert(name[i] == folder[i]);
    }
}

/// A handle on a path locks that path.
pub proof fn lemma_path_locks_itself(target: Seq<u16>)
    requires
        target.len() > 0,
    ensures
        locks_path(target, target),
{
}

/// Whether a handle locks a path does not depend on the case of the ASCII
/// letters of either name.
pub proof fn lemma_locking_ignores_case(
    name: Seq<u16>,
    target: Seq<u16>,
    name2: Seq<u16>,
    target2: Seq<u16>,
)
    requires
        same_path(name, name2),
        same_path(target, target2),
    ensures
        locks_path(name, target) == locks_path(name2, target2),
{
    assert(forall|u: u16, v: u16|
        #![trigger fold_case(u), fold_case(v)]
        fold_case(u) == fold_case(v) && v == BACKSLASH ==> u == v);
    assert(starts_with_path(name, target) == starts_with_path(name2, target2)) by {
        if target.len() <= name.len() {
            assert forall|i: int| 0 <= i < target.len() implies (fold_case(#[trigger] name[i]) == fold_case(target[i])) == (fold_case(name2[i]) == fold_case(target2[i])) by {
                assert(fold_case(name[i]) == fold_case(name2[i]));
                assert(fold_case(target[i]) == fold_case(target2[i]));
            }
            if starts_with_path(name2, target2) {
                assert forall|i: int| 0 <= i < target.len() implies fold_case(#[trigger] name[i]) == fold_case(target[i]) by {
                    assert(fold_case(name2[i]) == fold_case(target2[i]));
                }
            }
            if starts_with_path(name, target) {
                assert forall|i: int| 0 <= i < target2.len() implies fold_case(#[trigger] name2[i]) == fold_case(target2[i]) by {
                    assert(fold_case(name[i]) == fold_case(target[i]));
                    assert(fold_case(name[i]) == fold_case(name2[i]));
                    assert(fold_case(target[i]) == fold_case(target2[i]));
                }
            }
        }
    }
    if target.len() > 0 {
        assert(fold_case(target[target.len() - 1]) == fold_case(target2[target.len() - 1]));
        assert((target.last() == BACKSLASH) == (target2.last() == BACKSLASH));
    }
    if name.len() > target.len() && target.len() > 0 {
        assert(fold_case(name[target.len() as int]) == fold_case(name2[target.len() as int]));
        assert((name[target.len() as int] == BACKSLASH) == (name2[target.len() as int] == BACKSLASH));
    }
}

fn fold_case_unit(u: u16) -> (r: u16)
    ensures
        r == fold_case(u),
{
    if 0x61u16 <= u && u <= 0x7Au16 {
        u - 0x20u16
    } else {
        u
    }
}

fn starts_with_units(name: &[u16], prefix: &[u16]) -> (r: bool)
    ensures
        r == starts_with_path(name@, prefix@),
{
    if prefix.len() > name.len() {
        return false;
    }
    let mut i: usize = 0;
    while i < prefix.len()
        invariant
            prefix@.len() <= name@.len(),
            i <= prefix@.len(),
            forall|j: int| 0 <= j < i ==> fold_case(#[trigger] name@[j]) == fold_case(prefix@[j]),
        decreases prefix@.len() - i,
    {
        if fold_case_unit(name[i]) != fold_case_unit(prefix[i]) {
            return false;
        }
        i = i + 1;
    }
    true
}

/// Whether a handle on `name` locks `target`.
pub fn path_locks(name: &[u16], target: &[u16]) -> (r: bool)
    ensures
        r == locks_path(name@, target@),
{
    if target.len() == 0 {
        return false;
    }
    if !starts_with_units(name, target) {
        return false;
    }
    if name.len() == target.len() {
        return true;
    }
    target[target.len() - 1] == BACKSLASH || name[target.len()] == BACKSLASH
}

fn contains_pid(pids: &Vec<usize>, pid: usize) -> (r: bool)
    ensures
        r == pids@.contains(pid),
{
    let mut i: usize = 0;
    while i < pids.len()
        invariant
            i <= pids@.len(),
            forall|j: int| 0 <= j < i ==> pids@[j] != pid,
        decreases pids@.len() - i,
    {
        if pids[i] == pid {
            return true;
        }
        i = i + 1;
    }
    false
}

/// The processes that lock `target` (a file, or a folder and everything in
/// it), among the open file handles of the system.
///
/// Each process comes once, in the order in which the first handle by which
/// it locks the target appears in `handles`.
pub fn find_processes_locking_path(target: &[u16], handles: &[OpenFileHandle]) -> (pids: Vec<usize>)
    ensures
        pids@ == locking_pids(handles@, target@),
        pids@.no_duplicates(),
        forall|pid: usize| #[trigger] pids@.contains(pid) <==> holds_lock(handles@, target@, pid),
        forall|k: int|
            0 <= k < pids@.len() ==> exists|i: int|
                0 <= i < handles@.len() && (#[trigger] handles@[i]).pid == #[trigger] pids@[k]
                    && 0 < target@.len() <= handles@[i].name@.len() && forall|j: int|
                    0 <= j < target@.len() ==> #[trigger] fold_case(handles@[i].name@[j])
                        == fold_case(target@[j]),
{
    let mut pids: Vec<usize> = Vec::new();
    let mut i: usize = 0;
    while i < handles.len()
        invariant
            i <= handles@.len(),
            pids@ == locking_pids(handles@.take(i as int), target@),
        decreases handles@.len() - i,
    {
        let h = &handles[i];
        assert(handles@.take(i + 1).drop_last() == handles@.take(i as int));
        assert(handles@.take(i + 1).last() == handles@[i as int]);
        if path_locks(h.name.as_slice(), target) && !contains_pid(&pids, h.pid) {
            pids.push(h.pid);
        }
        i = i + 1;
    }
    assert(handles@.take(handles@.len() as int) == handles@);
    proof {
        lemma_locking_pids(handles@, target@);
        assert forall|k: int| 0 <= k < pids@.len() implies exists|i: int|
            0 <= i < handles@.len() && (#[trigger] handles@[i]).pid == #[trigger] pids@[k]
                && 0 < target@.len() <= handles@[i].name@.len() && forall|j: int|
                0 <= j < target@.len() ==> #[trigger] fold_case(handles@[i].name@[j]) == fold_case(
                    target@[j],
                ) by {
            assert(pids@.contains(pids@[k]));
            let i = choose|i: int|
                0 <= i < handles@.len() && (#[trigger] handles@[i]).pid == pids@[k] && locks_path(
                    handles@[i].name@,
                    target@,
                );
            lemma_what_locks(handles@[i].name@, target@);
        }
    }
    pids
}

} // verus!
