use chrootmanager::elevation::{
    classify_diagnostic, AuthPlan, BatchExecution, CommandOutput, CommandRequest, Diagnostic,
    KeeperStep, SecureElevation,
};
use chrootmanager::error::ElevationError;
use chrootmanager::session::ElevationCache;

const MINUTE: u64 = 60;

fn failed(stderr: &str) -> CommandOutput {
    CommandOutput { success: false, stdout: Vec::new(), stderr: stderr.to_string() }
}

fn ok_output(stdout: &str) -> CommandOutput {
    CommandOutput { success: true, stdout: stdout.as_bytes().to_vec(), stderr: String::new() }
}

fn request(program: &str, args: &[&str]) -> CommandRequest {
    CommandRequest {
        program: program.to_string(),
        arguments: args.iter().map(|a| a.to_string()).collect(),
    }
}

fn authenticated_at(now: u64) -> SecureElevation {
    let mut g = SecureElevation::new(true);
    assert_eq!(g.pre_authenticate(now).unwrap(), AuthPlan::Prompt);
    g.complete_authentication(now, true).unwrap();
    g
}

#[test]
fn cache_starts_invalid_and_expires_after_its_lifetime() {
    let mut c = ElevationCache::new(45);
    assert!(!c.is_authenticated(0));
    assert_eq!(c.cache_duration_secs(), 2700);
    c.confirm(100);
    assert!(c.is_authenticated(100));
    assert!(c.is_authenticated(100 + 2699));
    assert!(!c.is_authenticated(100 + 2700));
    c.invalidate();
    assert!(!c.is_authenticated(100));
}

#[test]
fn lost_session_flag_invalidates_cache() {
    let mut c = ElevationCache::new(1);
    c.confirm(0);
    c.mark_session_lost();
    assert!(!c.is_authenticated(1));
}

#[test]
fn execute_within_ttl_succeeds_and_after_ttl_requires_authentication() {
    let g = authenticated_at(0);
    let args = vec!["-t".to_string(), "proc".to_string()];
    let q = g.execute_command(44 * MINUTE, "mount", &args).unwrap();
    assert_eq!(q.program, "sudo");
    assert_eq!(q.arguments, vec!["-n", "mount", "-t", "proc"]);
    // no prompt is needed at 44 minutes
    assert_eq!(g.pre_authenticate(44 * MINUTE).unwrap(), AuthPlan::Cached);
    let late = g.execute_command(46 * MINUTE, "mount", &args);
    assert!(matches!(late, Err(ElevationError::AuthenticationRequired)));
    assert!(!g.is_authenticated(46 * MINUTE));
}

#[test]
fn session_expired_diagnostic_invalidates_cache() {
    let mut g = authenticated_at(0);
    assert!(g.is_authenticated(10));
    let r = g.finish_execute(failed("sudo: a password is required\n"));
    assert!(matches!(r, Err(ElevationError::AccessDenied)));
    assert!(!g.is_authenticated(10));
    let again = g.execute_command(11, "true", &Vec::new());
    assert!(matches!(again, Err(ElevationError::AuthenticationRequired)));
}

#[test]
fn sorry_try_again_also_means_expired() {
    let mut g = authenticated_at(0);
    let r = g.finish_execute(failed("Sorry, try again.\nsudo: sorry, try again"));
    assert!(matches!(r, Err(ElevationError::AccessDenied)));
    assert!(!g.is_authenticated(1));
}

#[test]
fn permission_denied_keeps_session() {
    let mut g = authenticated_at(0);
    let r = g.finish_execute(failed("mount: /x: Permission denied."));
    assert!(matches!(r, Err(ElevationError::PermissionDenied)));
    assert!(g.is_authenticated(1));
    let r = g.finish_execute(failed("cp: cannot open: permission denied"));
    assert!(matches!(r, Err(ElevationError::PermissionDenied)));
}

#[test]
fn other_failures_are_returned_as_output() {
    let mut g = authenticated_at(0);
    let r = g.finish_execute(failed("umount: /x: not mounted.")).unwrap();
    assert!(!r.success);
    assert_eq!(r.stderr, "umount: /x: not mounted.");
    let r = g.finish_execute(ok_output("done")).unwrap();
    assert!(r.success);
    assert_eq!(r.stdout, b"done".to_vec());
    assert!(g.is_authenticated(1));
}

#[test]
fn classify_diagnostic_recognises_phrases() {
    assert_eq!(classify_diagnostic("sudo: a password is required"), Diagnostic::SessionExpired);
    assert_eq!(classify_diagnostic("Permission denied"), Diagnostic::PermissionDenied);
    assert_eq!(classify_diagnostic("no such file"), Diagnostic::Other);
    assert_eq!(classify_diagnostic(""), Diagnostic::Other);
    // expiry wins over permission when both appear
    assert_eq!(
        classify_diagnostic("permission denied; a password is required"),
        Diagnostic::SessionExpired
    );
}

#[test]
fn second_authentication_takes_cached_path() {
    let mut g = SecureElevation::new(true);
    let mut prompts = 0;
    for now in [0u64, 5 * MINUTE] {
        if g.pre_authenticate(now).unwrap() == AuthPlan::Prompt {
            prompts += 1;
            g.complete_authentication(now, true).unwrap();
        }
    }
    assert_eq!(prompts, 1);
}

#[test]
fn execute_before_authentication_requires_it() {
    let g = SecureElevation::new(true);
    for now in [0u64, 1, 45 * MINUTE, u64::MAX] {
        let r = g.execute_command(now, "mount", &vec!["-a".to_string()]);
        assert!(matches!(r, Err(ElevationError::AuthenticationRequired)));
        let r = g.execute_command_interactive(now, "chroot", &Vec::new());
        assert!(matches!(r, Err(ElevationError::AuthenticationRequired)));
    }
}

#[test]
fn missing_sudo_is_reported_first() {
    let mut g = SecureElevation::new(false);
    assert!(matches!(g.pre_authenticate(0), Err(ElevationError::SudoNotAvailable)));
    g.complete_authentication(0, true).unwrap();
    assert!(matches!(g.execute_command(1, "ls", &Vec::new()), Err(ElevationError::SudoNotAvailable)));
    assert!(matches!(g.execute_batch_commands(Vec::new()), Err(ElevationError::SudoNotAvailable)));
}

#[test]
fn rejected_authentication_is_access_denied() {
    let mut g = SecureElevation::new(true);
    let r = g.complete_authentication(0, false);
    assert!(matches!(r, Err(ElevationError::AccessDenied)));
    assert!(!g.is_authenticated(0));
}

#[test]
fn invalidate_is_idempotent() {
    let mut never = SecureElevation::new(true);
    never.invalidate_cache();
    never.invalidate_cache();
    assert!(!never.is_authenticated(0));
    let mut g = authenticated_at(0);
    g.invalidate_cache();
    assert!(!g.is_authenticated(1));
    g.invalidate_cache();
    assert!(!g.is_authenticated(1));
}

#[test]
fn batch_stops_at_first_failure() {
    let g = authenticated_at(0);
    let reqs = vec![request("mount", &["a"]), request("mount", &["b"]), request("mount", &["c"])];
    let mut batch = g.execute_batch_commands(reqs).unwrap();
    let mut ran = Vec::new();
    while let Some(q) = batch.next_request() {
        let arg = q.arguments[0].clone();
        ran.push(arg.clone());
        if arg == "b" {
            batch.record(Err(ElevationError::PermissionDenied));
        } else {
            batch.record(Ok(ok_output(&arg)));
        }
    }
    assert_eq!(ran, vec!["a", "b"]);
    assert!(matches!(batch.into_result(), Err(ElevationError::PermissionDenied)));
}

#[test]
fn batch_returns_all_outputs_in_order() {
    let mut batch = BatchExecution::new(vec![request("x", &["1"]), request("x", &["2"])]);
    while let Some(q) = batch.next_request() {
        let arg = q.arguments[0].clone();
        batch.record(Ok(ok_output(&arg)));
    }
    let outs = batch.into_result().unwrap();
    assert_eq!(outs.len(), 2);
    assert_eq!(outs[0].stdout, b"1".to_vec());
    assert_eq!(outs[1].stdout, b"2".to_vec());
    let mut empty = BatchExecution::new(Vec::new());
    assert!(empty.next_request().is_none());
    empty = BatchExecution::new(Vec::new());
    assert_eq!(empty.into_result().unwrap().len(), 0);
}

#[test]
fn keeper_renews_until_its_budget_is_spent() {
    let mut g = SecureElevation::new(true);
    let mut k = g.complete_authentication(0, true).unwrap();
    let mut renewals = 0;
    while g.keeper_tick(&k) == KeeperStep::Renew {
        renewals += 1;
        if g.keeper_record_renewal(&mut k, true) == KeeperStep::Stop {
            break;
        }
    }
    assert_eq!(renewals, 45);
    // renewals never move the confirmation time
    assert!(!g.is_authenticated(45 * MINUTE));
    assert!(g.is_authenticated(44 * MINUTE));
}

#[test]
fn keeper_failure_marks_session_lost() {
    let mut g = SecureElevation::new(true);
    let mut k = g.complete_authentication(0, true).unwrap();
    assert_eq!(g.keeper_tick(&k), KeeperStep::Renew);
    assert_eq!(g.keeper_record_renewal(&mut k, false), KeeperStep::Stop);
    assert!(!g.is_authenticated(1));
    assert_eq!(g.keeper_tick(&k), KeeperStep::Stop);
}

#[test]
fn keeper_stops_after_invalidation_and_replacement() {
    let mut g = SecureElevation::new(true);
    let old = g.complete_authentication(0, true).unwrap();
    g.invalidate_cache();
    assert_eq!(g.keeper_tick(&old), KeeperStep::Stop);
    let fresh = g.complete_authentication(10, true).unwrap();
    assert_eq!(g.keeper_tick(&old), KeeperStep::Stop);
    assert_eq!(g.keeper_tick(&fresh), KeeperStep::Renew);
}

#[test]
fn error_messages() {
    assert_eq!(ElevationError::AccessDenied.message(), "Access denied by a user");
    assert_eq!(ElevationError::IoError("boom".to_string()).message(), "IO Error: boom");
    assert_eq!(ElevationError::SudoNotAvailable.message(), "Sudo not available");
    assert_eq!(ElevationError::PermissionDenied.message(), "Permission Denied");
    assert_eq!(
        ElevationError::FailedToAcquireElevationLock.message(),
        "Failed to acquire elevation lock"
    );
}
