use filelocksmith::locking::{path_locks, target_open_request, BACKSLASH};
use filelocksmith::{find_processes_locking_path, OpenFileHandle};

fn w(s: &str) -> Vec<u16> {
    s.encode_utf16().collect()
}

fn handle(pid: usize, name: &str) -> OpenFileHandle {
    OpenFileHandle { pid, name: w(name) }
}

#[test]
fn locked_file_is_found() {
    let target = w(r"\Device\HarddiskVolume3\work\locked.txt");
    let handles = vec![
        handle(4, r"\Device\HarddiskVolume3\Windows\System32\config\SYSTEM"),
        handle(1234, r"\Device\HarddiskVolume3\work\locked.txt"),
    ];
    assert_eq!(find_processes_locking_path(&target, &handles), vec![1234]);
}

#[test]
fn folder_reports_processes_holding_files_inside() {
    let target = w(r"\Device\HarddiskVolume3\work");
    let handles = vec![
        handle(10, r"\Device\HarddiskVolume3\work\locked.txt"),
        handle(11, r"\Device\HarddiskVolume3\workshop\other.txt"),
        handle(12, r"\Device\HarddiskVolume3\work"),
        handle(13, r"\Device\HarddiskVolume3\wor"),
    ];
    assert_eq!(find_processes_locking_path(&target, &handles), vec![10, 12]);
}

#[test]
fn process_no_longer_locking_after_it_quit() {
    let target = w(r"\Device\HarddiskVolume3\work\locked.txt");
    let before = vec![handle(77, r"\Device\HarddiskVolume3\work\locked.txt")];
    assert!(find_processes_locking_path(&target, &before).contains(&77));
    let after = vec![handle(5, r"\Device\HarddiskVolume3\work\unrelated.txt")];
    assert!(!find_processes_locking_path(&target, &after).contains(&77));
}

#[test]
fn each_process_is_reported_once_in_first_seen_order() {
    let target = w(r"\Device\HarddiskVolume1\data");
    let handles = vec![
        handle(30, r"\Device\HarddiskVolume1\data\b"),
        handle(20, r"\Device\HarddiskVolume1\data\a"),
        handle(30, r"\Device\HarddiskVolume1\data\c"),
        handle(20, r"\Device\HarddiskVolume1\data"),
    ];
    assert_eq!(find_processes_locking_path(&target, &handles), vec![30, 20]);
}

#[test]
fn names_compare_without_ascii_case() {
    let target = w(r"\Device\HarddiskVolume3\Work\Locked.TXT");
    let handles = vec![handle(9, r"\device\harddiskvolume3\WORK\locked.txt")];
    assert_eq!(find_processes_locking_path(&target, &handles), vec![9]);
    assert!(path_locks(&w("ab"), &w("AB")));
    assert!(!path_locks(&w("a|"), &w("A\\")));
}

#[test]
fn folder_with_trailing_separator_covers_its_contents() {
    let target = w(r"\Device\HarddiskVolume2\");
    let handles = vec![handle(3, r"\Device\HarddiskVolume2\x.txt"), handle(4, r"\Device\HarddiskVolume20\y")];
    assert_eq!(find_processes_locking_path(&target, &handles), vec![3]);
}

#[test]
fn empty_target_or_no_handles_gives_nothing() {
    let handles = vec![handle(1, r"\Device\HarddiskVolume3\a")];
    assert!(find_processes_locking_path(&[], &handles).is_empty());
    assert!(find_processes_locking_path(&w(r"\Device\HarddiskVolume3\a"), &[]).is_empty());
    assert_eq!(BACKSLASH, '\\' as u16);
}

#[test]
fn target_is_opened_without_access_and_sharing_everything() {
    let r = target_open_request();
    assert_eq!(r.desired_access, 0);
    assert_eq!(r.share_mode, 7);
    assert_eq!(r.creation_disposition, 3);
    assert_eq!(r.flags_and_attributes, 0x0200_0000);
}
