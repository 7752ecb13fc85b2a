use gallery_sorter::os::{
    elevation_args, elevation_command_line, has_admin_privileges, is_root_uid, needs_elevation_for_symlink,
    request_elevation, symlink_needs_elevation, symlink_needs_elevation_for, to_filetime, was_started_for_elevation, EpochTime,
};

fn ticks(secs: u64, nanos: u32) -> u64 {
    let ft = to_filetime(EpochTime { seconds: secs, nanos });
    (u64::from(ft.high_date_time) << 32) | u64::from(ft.low_date_time)
}

#[test]
fn test_to_filetime_known_values() {
    assert_eq!(ticks(0, 0), 116_444_736_000_000_000);
    assert_eq!(ticks(1_577_836_800, 0), 132_223_104_000_000_000);
}

#[test]
fn filetime_counts_hundreds_of_nanoseconds() {
    assert_eq!(ticks(0, 999), 116_444_736_000_000_009);
    assert_eq!(ticks(1, 150), 116_444_736_010_000_001);
}

#[test]
fn privileges_follow_the_effective_user() {
    assert!(is_root_uid(0));
    assert!(!is_root_uid(1000));
    assert_eq!(has_admin_privileges(), nix::unistd::geteuid().is_root());
    assert_eq!(symlink_needs_elevation(false), !nix::unistd::geteuid().is_root());
    assert!(!symlink_needs_elevation(true));
    assert!(symlink_needs_elevation_for(false, false));
    assert!(!symlink_needs_elevation_for(true, false));
    assert!(!symlink_needs_elevation_for(false, true));
    assert!(!symlink_needs_elevation_for(true, true));
    assert!(!needs_elevation_for_symlink());
    assert!(request_elevation(&["x".to_string()]).is_ok());
}

#[test]
fn elevation_command_lines() {
    let args = vec!["--input".to_string(), "C:/My Photos".to_string(), "say \"hi\"".to_string()];
    assert_eq!(elevation_command_line(&args), "--input \"C:/My Photos\" \"say \"\"hi\"\"\"");
    assert_eq!(elevation_command_line(&[]), "");
    let argv = vec!["gs".to_string(), "".to_string(), "-i".to_string()];
    let elevated = elevation_args(&argv);
    assert_eq!(elevated, vec!["--elevated-for-symlink".to_string(), "-i".to_string()]);
    assert!(was_started_for_elevation(&elevated));
    assert!(!was_started_for_elevation(&argv));
}
