use winops::process::{collect_process_tree, process_name_matches, termination_order, ProcessRecord, DISCORD_PROCESS_NAME};

fn record(pid: u32, parent_pid: u32, name: &str) -> ProcessRecord {
    ProcessRecord { pid, parent_pid, name: name.into() }
}

#[test]
fn process_name_match_is_case_insensitive() {
    assert!(process_name_matches("Discord.exe", DISCORD_PROCESS_NAME));
    assert!(process_name_matches("discord.exe", DISCORD_PROCESS_NAME));
    assert!(process_name_matches("DISCORD.EXE", DISCORD_PROCESS_NAME));
    assert!(!process_name_matches("chrome.exe", DISCORD_PROCESS_NAME));
}

#[test]
fn process_tree_includes_descendants() {
    let entries = vec![
        record(10, 1, "Discord.exe"),
        record(11, 10, "Discord.exe"),
        record(12, 11, "Update.exe"),
        record(20, 1, "unrelated.exe"),
    ];

    let tree = collect_process_tree(&entries, &[10]);
    assert_eq!(tree, vec![10, 11, 12]);
}

#[test]
fn process_names_are_file_names_of_paths() {
    assert!(process_name_matches(r"C:\Users\a\AppData\Local\Discord\Discord.exe", "discord.exe"));
    assert!(process_name_matches("C:Discord.exe", "Discord.exe"));
    assert!(process_name_matches("dir/Discord.exe/", "Discord.exe"));
    assert!(process_name_matches(r"dir\Discord.exe\.", "Discord.exe"));
    assert!(!process_name_matches(r"dir\..", ".."));
    assert!(!process_name_matches("", ""));
    assert!(!process_name_matches("Discord.exe.bak", "Discord.exe"));
}

#[test]
fn process_tree_finds_children_listed_before_parents() {
    let entries = vec![
        record(30, 21, "grandchild.exe"),
        record(21, 20, "child.exe"),
        record(20, 1, "Discord.exe"),
        record(40, 2, "other.exe"),
    ];
    let tree = collect_process_tree(&entries, &[20]);
    assert_eq!(tree, vec![20, 21, 30]);
    let none = collect_process_tree(&entries, &[]);
    assert!(none.is_empty());
}

#[test]
fn termination_order_ends_children_first_and_spares_the_caller() {
    let entries = vec![
        record(10, 1, "Discord.exe"),
        record(11, 10, "Discord.exe"),
        record(12, 11, "Update.exe"),
        record(99, 10, "me.exe"),
        record(20, 1, "unrelated.exe"),
    ];
    assert_eq!(termination_order(&entries, DISCORD_PROCESS_NAME, 99), Some(vec![12, 11, 10]));
    assert_eq!(termination_order(&entries, "obs64.exe", 99), None);
}

#[test]
fn process_tree_follows_snapshot_order_pass_by_pass() {
    let entries = vec![
        record(5, 3, "grandchild.exe"),
        record(3, 1, "first.exe"),
        record(4, 1, "second.exe"),
        record(3, 1, "first.exe"),
    ];
    assert_eq!(collect_process_tree(&entries, &[1]), vec![1, 3, 4, 5]);
    assert_eq!(collect_process_tree(&entries, &[1, 1]), vec![1, 1, 3, 4, 5]);
    let named = vec![
        record(1, 0, "Root.exe"),
        record(5, 3, "grandchild.exe"),
        record(3, 1, "first.exe"),
        record(4, 1, "second.exe"),
    ];
    assert_eq!(termination_order(&named, "root.exe", 4), Some(vec![5, 3, 1]));
}

#[test]
fn server_and_verbatim_prefixes_are_not_file_names() {
    assert!(!process_name_matches(r"\\server\share", "share"));
    assert!(!process_name_matches("//server/share", "share"));
    assert!(process_name_matches(r"\\server\share\Discord.exe", "discord.exe"));
    assert!(process_name_matches(r"\\server", "server"));
    assert!(!process_name_matches(r"\\.\COM1", "COM1"));
    assert!(process_name_matches(r"\\?\C:\x\Discord.exe", "Discord.exe"));
    assert!(!process_name_matches(r"\\?\C:\x\Discord.exe\.", "Discord.exe"));
    assert!(process_name_matches(r"\\?\C:\x/Discord.exe", "x/Discord.exe"));
    assert!(!process_name_matches(r"\\?\C:\x/Discord.exe", "Discord.exe"));
    assert!(!process_name_matches(r"\\?\UNC\server\share", "share"));
    assert!(process_name_matches(r"\\?\UNC\server\share\a.exe", "a.exe"));
    assert!(!process_name_matches(r"\\?\C:", "C:"));
    assert!(process_name_matches("//?/C:/x.exe", "x.exe"));
}
