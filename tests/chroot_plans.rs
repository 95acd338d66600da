use chrootmanager::chroot::{check_chroot_exit, check_command_output, check_mount_results, join_spaced, parse_profile_info, ChrootUnit};
use chrootmanager::config::Config;
use chrootmanager::elevation::{AuthPlan, CommandOutput, SecureElevation};
use chrootmanager::error::{ChrootError, ElevationError};
use chrootmanager::profile::selected::SelectedProfile;

fn unit(path: &str) -> ChrootUnit {
    ChrootUnit::load(path, Some("amd64-openrc")).unwrap()
}

fn session() -> SecureElevation {
    let mut g = SecureElevation::new(true);
    g.complete_authentication(0, true).unwrap();
    g
}

fn args_of(q: &chrootmanager::elevation::CommandRequest) -> Vec<&str> {
    q.arguments.iter().map(|s| s.as_str()).collect()
}

#[test]
fn load_reads_name_and_profile() {
    let u = ChrootUnit::load("/home/me/chroots/gentoo", Some("amd64-desktop-openrc")).unwrap();
    assert_eq!(u.name, "gentoo");
    assert_eq!(u.chroot_path, "/home/me/chroots/gentoo");
    let p = u.profile.unwrap();
    assert_eq!(p.architecture, "amd64");
    assert_eq!(p.profile, "desktop-openrc");
    let u = ChrootUnit::load("box", Some("nodash")).unwrap();
    assert_eq!(u.name, "box");
    assert!(u.profile.is_none());
    let u = ChrootUnit::load("/a/b", None).unwrap();
    assert!(u.profile.is_none());
}

#[test]
fn parse_profile_info_splits_at_first_dash() {
    let p = parse_profile_info("arm64-musl-llvm").unwrap();
    assert_eq!(p.arch(), "arm64");
    assert_eq!(p.profile(), "musl-llvm");
    let p = parse_profile_info("-x").unwrap();
    assert_eq!(p.arch(), "");
    assert_eq!(p.profile(), "x");
    assert!(parse_profile_info("").is_none());
}

#[test]
fn new_joins_base_dir_and_name() {
    let config = Config::with_home("/home/me");
    let sel = SelectedProfile::new("amd64".to_string(), "systemd".to_string());
    let u = ChrootUnit::new("dev".to_string(), Some(&sel), &config).unwrap();
    assert_eq!(u.chroot_path, "/home/me/.local/share/chrootmanager/chroots/dev");
    assert_eq!(u.profile.as_ref().unwrap().profile, "systemd");
    assert_eq!(u.profile_info_text().unwrap(), "amd64-systemd");
    let bare = ChrootUnit::new("x".to_string(), None, &config).unwrap();
    assert!(matches!(bare.profile_info_text(), Err(ChrootError::NoProfile)));
}

#[test]
fn mount_plan_needs_session_and_lists_mounts() {
    let u = unit("/c");
    let fresh = SecureElevation::new(true);
    assert!(matches!(
        u.mount_filesystems(&fresh, 0),
        Err(ChrootError::Elevation(ElevationError::AuthenticationRequired))
    ));
    let g = session();
    let mut batch = u.mount_filesystems(&g, 1).unwrap();
    let mut seen = Vec::new();
    while let Some(q) = batch.next_request() {
        assert_eq!(q.program, "mount");
        seen.push(args_of(q).join(" "));
        batch.record(Ok(CommandOutput { success: true, stdout: Vec::new(), stderr: String::new() }));
    }
    assert_eq!(
        seen,
        vec![
            "-t proc /proc /c/proc",
            "--rbind /sys /c/sys",
            "--rbind /dev /c/dev",
            "--rbind /dev/pts /c/dev/pts",
            "--rbind /dev/shm /c/dev/shm",
            "--make-slave /c/sys",
            "--make-slave /c/dev",
        ]
    );
}

#[test]
fn unmount_plan_lists_unmounts() {
    let u = unit("/c/");
    assert!(matches!(
        u.unmount_filesystems(&SecureElevation::new(true), 0),
        Err(ChrootError::Elevation(ElevationError::AuthenticationRequired))
    ));
    let reqs = u.unmount_filesystems(&session(), 1).unwrap();
    let lines: Vec<String> = reqs.iter().map(|q| format!("{} {}", q.program, args_of(q).join(" "))).collect();
    assert_eq!(
        lines,
        vec![
            "umount -l -R /c/",
            "umount -l /c/dev/shm",
            "umount -l /c/dev/pts",
            "umount -l /c/dev",
            "umount -l /c/sys",
            "umount -l /c/proc",
        ]
    );
}

#[test]
fn mount_results_report_first_failure() {
    let ok = CommandOutput { success: true, stdout: Vec::new(), stderr: String::new() };
    let bad1 = CommandOutput { success: false, stdout: Vec::new(), stderr: "busy".to_string() };
    let bad2 = CommandOutput { success: false, stdout: Vec::new(), stderr: "gone".to_string() };
    assert!(check_mount_results(&vec![]).is_ok());
    match check_mount_results(&vec![ok, bad1, bad2]) {
        Err(ChrootError::Command(m)) => assert_eq!(m, "Mount operation failed: busy"),
        other => panic!("unexpected {:?}", other),
    }
}

#[test]
fn command_output_check_names_operation() {
    let bad = CommandOutput { success: false, stdout: Vec::new(), stderr: "no space".to_string() };
    match check_command_output(bad, "Stage3 extraction") {
        Err(ChrootError::Command(m)) => assert_eq!(m, "Stage3 extraction failed: no space"),
        other => panic!("unexpected {:?}", other),
    }
    let good = CommandOutput { success: true, stdout: b"x".to_vec(), stderr: String::new() };
    assert_eq!(check_command_output(good, "copy").unwrap().stdout, b"x".to_vec());
    assert!(check_chroot_exit(true).is_ok());
    match check_chroot_exit(false) {
        Err(ChrootError::ElevationError(m)) => assert_eq!(m, "Chroot execution failed"),
        other => panic!("unexpected {:?}", other),
    }
}

#[test]
fn dns_copy_only_when_source_exists() {
    let u = unit("/c");
    assert!(u.copy_dns_info(false).is_none());
    let q = u.copy_dns_info(true).unwrap();
    assert_eq!(q.program, "cp");
    assert_eq!(args_of(&q), vec!["/etc/resolv.conf", "/c/etc/resolv.conf"]);
}

#[test]
fn interactive_entry_builds_elevated_shell() {
    let u = unit("/c");
    assert!(matches!(
        u.enter_chroot_interactive(&SecureElevation::new(true), 0),
        Err(ChrootError::Elevation(ElevationError::AuthenticationRequired))
    ));
    let q = u.enter_chroot_interactive(&session(), 1).unwrap();
    assert_eq!(q.program, "sudo");
    assert_eq!(args_of(&q), vec!["-n", "chroot", "/c", "/bin/bash", "--rcfile", "/tmp/chroot_bashrc", "-i"]);
}

#[test]
fn terminal_command_uses_path_inside_chroot() {
    let u = unit("/srv/c");
    let bashrc = u.bashrc_path();
    assert_eq!(bashrc, "/srv/c/tmp/chroot_bashrc");
    assert_eq!(
        u.get_chroot_command_args(&bashrc),
        vec!["/srv/c", "/bin/bash", "--rcfile", "/tmp/chroot_bashrc", "-i"]
    );
    assert_eq!(u.get_chroot_command_args("/elsewhere/rc")[3], "/tmp/chroot_bashrc");
    assert_eq!(u.get_chroot_command_args("/srv/cc/rc")[3], "/tmp/chroot_bashrc");
    let (cmd, path) = u.get_chroot_command_for_terminal(&bashrc).unwrap();
    assert_eq!(cmd, "sudo chroot /srv/c /bin/bash --rcfile /tmp/chroot_bashrc -i");
    assert_eq!(path, bashrc);
    assert_eq!(u.profile_info_path(), "/srv/c/etc/arch-chroot-profile");
}

#[test]
fn join_spaced_joins_with_single_spaces() {
    assert_eq!(join_spaced(&vec![]), "");
    assert_eq!(join_spaced(&vec!["a".to_string()]), "a");
    assert_eq!(join_spaced(&vec!["a".to_string(), "b c".to_string()]), "a b c");
}

#[test]
fn chroot_auth_helpers_follow_gateway() {
    let u = unit("/c");
    let mut g = SecureElevation::new(true);
    assert_eq!(u.pre_authenticate_operations(&g, 0).unwrap(), AuthPlan::Prompt);
    g.complete_authentication(0, true).unwrap();
    assert!(u.is_authenticated(&g, 5));
    assert!(u.is_elevation_cached(&g, 5));
    assert_eq!(u.pre_authenticate_operations(&g, 5).unwrap(), AuthPlan::Cached);
    u.invalidate_authentication(&mut g);
    assert!(!u.is_authenticated(&g, 5));
    g.complete_authentication(6, true).unwrap();
    u.invalidate_elevation_cache(&mut g);
    assert!(!u.is_elevation_cached(&g, 6));
    let none = SecureElevation::new(false);
    assert!(matches!(
        u.pre_authenticate_operations(&none, 0),
        Err(ChrootError::Elevation(ElevationError::SudoNotAvailable))
    ));
}
