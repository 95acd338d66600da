//! A chroot on disk and the privileged commands that set it up, enter it and
//! tear it down. The commands are planned here and run by the caller through
//! the elevation gateway.
use vstd::prelude::*;

use crate::config::Config;
use crate::elevation::{
    elevated_invocation, request_view, AuthPlan, BatchExecution, CommandOutput, CommandRequest,
    SecureElevation,
};
use crate::error::{elevation_message, ChrootError, ElevationError};
use crate::mirror::parser::{lowercase, lowercase_of};
use crate::profile::selected::SelectedProfile;
use crate::text::{
    chars_of, concat2, concat3, file_name, file_name_of, find_exec, has_file_name, join_path,
    occurs_at, path_join, relative_to, seq_contains, strip_path_prefix, trim_text, trimmed_of, views,
};

verus! {

/// Where the shell start-up file is written inside a chroot.
pub const CHROOT_BASHRC: &'static str = "tmp/chroot_bashrc";

/// Where the architecture and profile of a chroot are recorded inside it.
pub const PROFILE_INFO_FILE: &'static str = "etc/arch-chroot-profile";

/// The name resolution file copied into a chroot.
pub const RESOLV_CONF: &'static str = "/etc/resolv.conf";

/// A chroot: its name, its directory and the profile it was built from.
#[derive(Debug)]
pub struct ChrootUnit {
    pub name: String,
    pub chroot_path: String,
    pub profile: Option<SelectedProfile>,
}

/// A list of strings holding `a` and `b`.
fn strings2(a: &str, b: &str) -> (r: Vec<String>)
    ensures
        views(r@) == seq![a@, b@],
{
    let mut v: Vec<String> = Vec::new();
    v.push(String::from_str(a));
    v.push(String::from_str(b));
    assert(views(v@) =~= seq![a@, b@]);
    v
}

/// A list of strings holding `a`, `b` and `c`.
fn strings3(a: &str, b: &str, c: &str) -> (r: Vec<String>)
    ensures
        views(r@) == seq![a@, b@, c@],
{
    let mut v: Vec<String> = Vec::new();
    v.push(String::from_str(a));
    v.push(String::from_str(b));
    v.push(String::from_str(c));
    assert(views(v@) =~= seq![a@, b@, c@]);
    v
}

/// A list of strings holding `a`, `b`, `c` and `d`.
fn strings4(a: &str, b: &str, c: &str, d: &str) -> (r: Vec<String>)
    ensures
        views(r@) == seq![a@, b@, c@, d@],
{
    let mut v: Vec<String> = Vec::new();
    v.push(String::from_str(a));
    v.push(String::from_str(b));
    v.push(String::from_str(c));
    v.push(String::from_str(d));
    assert(views(v@) =~= seq![a@, b@, c@, d@]);
    v
}

/// A list of strings holding `a` to `e`.
fn strings5(a: &str, b: &str, c: &str, d: &str, e: &str) -> (r: Vec<String>)
    ensures
        views(r@) == seq![a@, b@, c@, d@, e@],
{
    let mut v: Vec<String> = Vec::new();
    v.push(String::from_str(a));
    v.push(String::from_str(b));
    v.push(String::from_str(c));
    v.push(String::from_str(d));
    v.push(String::from_str(e));
    assert(views(v@) =~= seq![a@, b@, c@, d@, e@]);
    v
}

/// The views of a sequence of requests.
pub open spec fn request_views(s: Seq<CommandRequest>) -> Seq<(Seq<char>, Seq<Seq<char>>)> {
    s.map_values(|q: CommandRequest| request_view(q))
}

/// The mounts that make a chroot at `p` usable, in order.
pub open spec fn mount_plan(p: Seq<char>) -> Seq<(Seq<char>, Seq<Seq<char>>)> {
    let proc_dir = path_join(p, "proc"@);
    let sys_dir = path_join(p, "sys"@);
    let dev_dir = path_join(p, "dev"@);
    let pts_dir = path_join(p, "dev/pts"@);
    let shm_dir = path_join(p, "dev/shm"@);
    seq![
        ("mount"@, seq!["-t"@, "proc"@, "/proc"@, proc_dir]),
        ("mount"@, seq!["--rbind"@, "/sys"@, sys_dir]),
        ("mount"@, seq!["--rbind"@, "/dev"@, dev_dir]),
        ("mount"@, seq!["--rbind"@, "/dev/pts"@, pts_dir]),
        ("mount"@, seq!["--rbind"@, "/dev/shm"@, shm_dir]),
        ("mount"@, seq!["--make-slave"@, sys_dir]),
        ("mount"@, seq!["--make-slave"@, dev_dir]),
    ]
}

/// The unmounts that release a chroot at `p`: everything below it lazily and
/// recursively, then each mount point on its own (to run where it exists).
pub open spec fn unmount_plan(p: Seq<char>) -> Seq<(Seq<char>, Seq<Seq<char>>)> {
    seq![
        ("umount"@, seq!["-l"@, "-R"@, p]),
        ("umount"@, seq!["-l"@, path_join(p, "dev/shm"@)]),
        ("umount"@, seq!["-l"@, path_join(p, "dev/pts"@)]),
        ("umount"@, seq!["-l"@, path_join(p, "dev"@)]),
        ("umount"@, seq!["-l"@, path_join(p, "sys"@)]),
        ("umount"@, seq!["-l"@, path_join(p, "proc"@)]),
    ]
}

/// The arguments of `chroot` that start an interactive shell in `p` reading
/// `rcfile` at start-up.
pub open spec fn shell_args(p: Seq<char>, rcfile: Seq<char>) -> Seq<Seq<char>> {
    seq![p, "/bin/bash"@, "--rcfile"@, rcfile, "-i"@]
}

/// The start-up file as seen from inside a chroot at `p`, given its path outside.
pub open spec fn rcfile_inside(p: Seq<char>, bashrc_path: Seq<char>) -> Seq<char> {
    match relative_to(bashrc_path, p) {
        Some(r) => "/"@ + r,
        None => "/tmp/chroot_bashrc"@,
    }
}

/// Strings joined with single spaces.
pub open spec fn spaced(s: Seq<Seq<char>>) -> Seq<char>
    decreases s.len(),
{
    if s.len() == 0 {
        Seq::empty()
    } else if s.len() == 1 {
        s[0]
    } else {
        spaced(s.drop_last()) + " "@ + s.last()
    }
}

/// The index of the first failed output, if any.
pub open spec fn first_failure(s: Seq<CommandOutput>) -> Option<int> {
    if exists|i: int| 0 <= i < s.len() && !s[i].success {
        Some(choose|i: int| 0 <= i < s.len() && !s[i].success && forall|j: int| 0 <= j < i ==> s[j].success)
    } else {
        None
    }
}

/// An architecture-profile record split at its first `-`.
pub open spec fn profile_parts(info: Seq<char>) -> Option<(Seq<char>, Seq<char>)> {
    if seq_contains(info, seq!['-']) {
        let i = choose|i: int| occurs_at(info, seq!['-'], i) && forall|k: int| 0 <= k < i ==> !occurs_at(info, seq!['-'], k);
        Some((info.subrange(0, i), info.subrange(i + 1, info.len() as int)))
    } else {
        None
    }
}

/// Reads an architecture-profile record (`amd64-desktop-openrc` is
/// architecture `amd64`, profile `desktop-openrc`).
pub fn parse_profile_info(info: &str) -> (r: Option<SelectedProfile>)
    ensures
        match r {
            Some(p) => profile_parts(info@) == Some((p.architecture@, p.profile@)),
            None => profile_parts(info@) is None,
        },
{
    let chars = chars_of(info);
    let mut dash: Vec<char> = Vec::new();
    dash.push('-');
    assert(dash@ =~= seq!['-']);
    match find_exec(&chars, &dash) {
        Some(i) => {
            let n = chars.len();
            let architecture = String::from_str(info.substring_char(0, i));
            let profile = String::from_str(info.substring_char(i + 1, n));
            proof {
                let j = choose|j: int| occurs_at(info@, seq!['-'], j) && forall|k: int| 0 <= k < j ==> !occurs_at(info@, seq!['-'], k);
                if j < i {
                    assert(!occurs_at(info@, seq!['-'], j));
                } else if i < j {
                    assert(!occurs_at(info@, seq!['-'], i as int));
                }
                assert(j == i);
            }
            Some(SelectedProfile::new(architecture, profile))
        },
        None => None,
    }
}

/// Reads the outputs of a mount batch: every mount must have succeeded.
pub fn check_mount_results(results: &Vec<CommandOutput>) -> (r: Result<(), ChrootError>)
    ensures
        match r {
            Ok(()) => first_failure(results@) is None,
            Err(ChrootError::Command(m)) => (first_failure(results@) matches Some(i) && m@
                == "Mount operation failed: "@ + results@[i].stderr@),
            Err(_) => false,
        },
{
    let mut i: usize = 0;
    while i < results.len()
        invariant
            i <= results@.len(),
            forall|j: int| 0 <= j < i ==> results@[j].success,
        decreases results@.len() - i,
    {
        if !results[i].success {
            let m = concat2("Mount operation failed: ", results[i].stderr.as_str());
            proof {
                assert(0 <= i < results@.len() && !results@[i as int].success);
                let k = choose|k: int| 0 <= k < results@.len() && !results@[k].success && forall|j: int| 0 <= j < k ==> results@[j].success;
                if k < i {
                    assert(results@[k].success);
                } else if i < k {
                    assert(results@[i as int].success);
                }
            }
            return Err(ChrootError::Command(m));
        }
        i = i + 1;
    }
    Ok(())
}

/// Reads the output of an elevated command run for `operation_desc`: a
/// failed command becomes a `Command` error naming the operation and
/// carrying its diagnostic text.
pub fn check_command_output(output: CommandOutput, operation_desc: &str) -> (r: Result<
    CommandOutput,
    ChrootError,
>)
    ensures
        match r {
            Ok(o) => output.success && o == output,
            Err(ChrootError::Command(m)) => !output.success && m@ == operation_desc@
                + " failed: "@ + output.stderr@,
            Err(_) => false,
        },
{
    if output.success {
        Ok(output)
    } else {
        let m = concat3(operation_desc, " failed: ", output.stderr.as_str());
        Err(ChrootError::Command(m))
    }
}

/// Reads how the interactive shell in a chroot ended.
pub fn check_chroot_exit(success: bool) -> (r: Result<(), ChrootError>)
    ensures
        match r {
            Ok(()) => success,
            Err(ChrootError::ElevationError(m)) => !success && m@ == "Chroot execution failed"@,
            Err(_) => false,
        },
{
    if success {
        Ok(())
    } else {
        Err(ChrootError::ElevationError(String::from_str("Chroot execution failed")))
    }
}

impl ChrootUnit {
    /// A chroot named `name` under the configured base directory.
    pub fn new(name: String, profile: Option<&SelectedProfile>, config: &Config) -> (r: Result<
        Self,
        ChrootError,
    >)
        ensures
            match r {
                Ok(u) => u.name == name && u.chroot_path@ == path_join(
                    config.chroot_base_dir@,
                    name@,
                ) && match (profile, u.profile) {
                    (Some(p), Some(q)) => q.architecture == p.architecture && q.profile
                        == p.profile,
                    (None, None) => true,
                    _ => false,
                },
                Err(_) => false,
            },
    {
        let chroot_path = join_path(config.chroot_base_dir.as_str(), name.as_str());
        let profile = match profile {
            Some(p) => Some(p.copied()),
            None => None,
        };
        Ok(ChrootUnit { name, chroot_path, profile })
    }

    /// The chroot in directory `path`, named after its last component.
    /// `profile_info` is the recorded architecture-profile text, if one
    /// could be read; a record without `-` leaves the profile unknown.
    pub fn load(path: &str, profile_info: Option<&str>) -> (r: Result<ChrootUnit, ChrootError>)
        requires
            has_file_name(path@),
        ensures
            match r {
                Ok(u) => u.name@ == file_name_of(path@) && u.chroot_path@ == path@ && match (
                    profile_info,
                    u.profile,
                ) {
                    (Some(info), Some(p)) => profile_parts(info@) == Some(
                        (p.architecture@, p.profile@),
                    ),
                    (Some(info), None) => profile_parts(info@) is None,
                    (None, p) => p is None,
                },
                Err(_) => false,
            },
    {
        let name = file_name(path);
        let profile = match profile_info {
            Some(info) => parse_profile_info(info),
            None => None,
        };
        Ok(ChrootUnit { name, chroot_path: String::from_str(path), profile })
    }

    /// Whether the shared session is authenticated at `now`.
    pub fn is_authenticated(&self, gateway: &SecureElevation, now: u64) -> (r: bool)
        ensures
            r == gateway@.is_authenticated(now),
    {
        gateway.is_authenticated(now)
    }

    /// Whether the shared session is cached at `now`.
    pub fn is_elevation_cached(&self, gateway: &SecureElevation, now: u64) -> (r: bool)
        ensures
            r == gateway@.is_authenticated(now),
    {
        gateway.is_authenticated(now)
    }

    /// First half of authenticating ahead of the privileged operations on
    /// this chroot (see [`SecureElevation::pre_authenticate`]).
    pub fn pre_authenticate_operations(&self, gateway: &SecureElevation, now: u64) -> (r: Result<
        AuthPlan,
        ChrootError,
    >)
        ensures
            match r {
                Ok(p) => gateway@.auth_plan(now) == Ok::<AuthPlan, ElevationError>(p),
                Err(ChrootError::Elevation(e)) => gateway@.auth_plan(now) == Err::<
                    AuthPlan,
                    ElevationError,
                >(e),
                Err(_) => false,
            },
    {
        match gateway.pre_authenticate(now) {
            Ok(p) => Ok(p),
            Err(e) => Err(ChrootError::Elevation(e)),
        }
    }

    /// Forgets the shared session once the privileged work is done.
    pub fn invalidate_authentication(&self, gateway: &mut SecureElevation)
        ensures
            final(gateway)@ == old(gateway)@.invalidated(),
    {
        gateway.invalidate_cache();
    }

    /// Forgets the shared session.
    pub fn invalidate_elevation_cache(&self, gateway: &mut SecureElevation)
        ensures
            final(gateway)@ == old(gateway)@.invalidated(),
    {
        gateway.invalidate_cache();
    }

    /// The batch of mounts that makes the chroot usable; refused without a
    /// valid session at `now`.
    pub fn mount_filesystems(&self, gateway: &SecureElevation, now: u64) -> (r: Result<
        BatchExecution,
        ChrootError,
    >)
        ensures
            match r {
                Ok(b) => gateway@.is_authenticated(now) && gateway@.sudo_available && b@.outputs.len()
                    == 0 && b@.failure is None && request_views(b@.requests) == mount_plan(
                    self.chroot_path@,
                ),
                Err(ChrootError::Elevation(e)) => if !gateway@.is_authenticated(now) {
                    e == ElevationError::AuthenticationRequired
                } else {
                    !gateway@.sudo_available && e == ElevationError::SudoNotAvailable
                },
                Err(_) => false,
            },
    {
        if !gateway.is_authenticated(now) {
            return Err(ChrootError::Elevation(ElevationError::AuthenticationRequired));
        }
        let p = self.chroot_path.as_str();
        let proc_dir = join_path(p, "proc");
        let sys_dir = join_path(p, "sys");
        let dev_dir = join_path(p, "dev");
        let pts_dir = join_path(p, "dev/pts");
        let shm_dir = join_path(p, "dev/shm");
        let mut requests: Vec<CommandRequest> = Vec::new();
        requests.push(
            CommandRequest {
                program: String::from_str("mount"),
                arguments: strings4("-t", "proc", "/proc", proc_dir.as_str()),
            },
        );
        requests.push(
            CommandRequest {
                program: String::from_str("mount"),
                arguments: strings3("--rbind", "/sys", sys_dir.as_str()),
            },
        );
        requests.push(
            CommandRequest {
                program: String::from_str("mount"),
                arguments: strings3("--rbind", "/dev", dev_dir.as_str()),
            },
        );
        requests.push(
            CommandRequest {
                program: String::from_str("mount"),
                arguments: strings3("--rbind", "/dev/pts", pts_dir.as_str()),
            },
        );
        requests.push(
            CommandRequest {
                program: String::from_str("mount"),
                arguments: strings3("--rbind", "/dev/shm", shm_dir.as_str()),
            },
        );
        requests.push(
            CommandRequest {
                program: String::from_str("mount"),
                arguments: strings2("--make-slave", sys_dir.as_str()),
            },
        );
        requests.push(
            CommandRequest {
                program: String::from_str("mount"),
                arguments: strings2("--make-slave", dev_dir.as_str()),
            },
        );
        assert(request_views(requests@) =~= mount_plan(self.chroot_path@));
        match gateway.execute_batch_commands(requests) {
            Ok(b) => Ok(b),
            Err(e) => Err(ChrootError::Elevation(e)),
        }
    }

    /// The unmounts that release the chroot; refused without a valid
    /// session at `now`. The first runs in any case; each later one names
    /// its mount point last and runs only where that path exists. Their
    /// failures are not errors.
    pub fn unmount_filesystems(&self, gateway: &SecureElevation, now: u64) -> (r: Result<
        Vec<CommandRequest>,
        ChrootError,
    >)
        ensures
            match r {
                Ok(v) => gateway@.is_authenticated(now) && request_views(v@) == unmount_plan(
                    self.chroot_path@,
                ),
                Err(ChrootError::Elevation(e)) => !gateway@.is_authenticated(now) && e
                    == ElevationError::AuthenticationRequired,
                Err(_) => false,
            },
    {
        if !gateway.is_authenticated(now) {
            return Err(ChrootError::Elevation(ElevationError::AuthenticationRequired));
        }
        let p = self.chroot_path.as_str();
        let shm_dir = join_path(p, "dev/shm");
        let pts_dir = join_path(p, "dev/pts");
        let dev_dir = join_path(p, "dev");
        let sys_dir = join_path(p, "sys");
        let proc_dir = join_path(p, "proc");
        let mut requests: Vec<CommandRequest> = Vec::new();
        requests.push(
            CommandRequest { program: String::from_str("umount"), arguments: strings3("-l", "-R", p) },
        );
        requests.push(
            CommandRequest {
                program: String::from_str("umount"),
                arguments: strings2("-l", shm_dir.as_str()),
            },
        );
        requests.push(
            CommandRequest {
                program: String::from_str("umount"),
                arguments: strings2("-l", pts_dir.as_str()),
            },
        );
        requests.push(
            CommandRequest {
                program: String::from_str("umount"),
                arguments: strings2("-l", dev_dir.as_str()),
            },
        );
        requests.push(
            CommandRequest {
                program: String::from_str("umount"),
                arguments: strings2("-l", sys_dir.as_str()),
            },
        );
        requests.push(
            CommandRequest {
                program: String::from_str("umount"),
                arguments: strings2("-l", proc_dir.as_str()),
            },
        );
        assert(request_views(requests@) =~= unmount_plan(self.chroot_path@));
        Ok(requests)
    }

    /// The copy of the host's name resolution file into the chroot, when
    /// the host has one.
    pub fn copy_dns_info(&self, source_exists: bool) -> (r: Option<CommandRequest>)
        ensures
            match r {
                Some(q) => source_exists && request_view(q) == ("cp"@, seq![
                    RESOLV_CONF@,
                    path_join(self.chroot_path@, "etc/resolv.conf"@),
                ]),
                None => !source_exists,
            },
    {
        if !source_exists {
            return None;
        }
        let dst = join_path(self.chroot_path.as_str(), "etc/resolv.conf");
        Some(CommandRequest { program: String::from_str("cp"), arguments: strings2(RESOLV_CONF, dst.as_str()) })
    }

    /// The interactive shell in the chroot, to run with the operator's
    /// terminal attached; refused without a valid session at `now`.
    pub fn enter_chroot_interactive(&self, gateway: &SecureElevation, now: u64) -> (r: Result<
        CommandRequest,
        ChrootError,
    >)
        ensures
            match r {
                Ok(q) => gateway@.execution_check(now) is Ok && request_view(q)
                    == elevated_invocation(
                    "chroot"@,
                    shell_args(self.chroot_path@, "/tmp/chroot_bashrc"@),
                ),
                Err(ChrootError::Elevation(e)) => !gateway@.is_authenticated(now) && e
                    == ElevationError::AuthenticationRequired,
                Err(ChrootError::ElevationError(m)) => gateway@.is_authenticated(now) && (
                gateway@.execution_check(now) matches Err(e) && m@ == "Failed to enter chroot: "@
                    + elevation_message(e)),
                Err(_) => false,
            },
    {
        if !gateway.is_authenticated(now) {
            return Err(ChrootError::Elevation(ElevationError::AuthenticationRequired));
        }
        let args = strings5(
            self.chroot_path.as_str(),
            "/bin/bash",
            "--rcfile",
            "/tmp/chroot_bashrc",
            "-i",
        );
        match gateway.execute_command_interactive(now, "chroot", &args) {
            Ok(q) => Ok(q),
            Err(e) => {
                let m = concat2("Failed to enter chroot: ", e.message().as_str());
                Err(ChrootError::ElevationError(m))
            },
        }
    }

    /// Path of the shell start-up file inside the chroot directory.
    pub fn bashrc_path(&self) -> (r: String)
        ensures
            r@ == path_join(self.chroot_path@, CHROOT_BASHRC@),
    {
        join_path(self.chroot_path.as_str(), CHROOT_BASHRC)
    }

    /// Path of the architecture-profile record inside the chroot directory.
    pub fn profile_info_path(&self) -> (r: String)
        ensures
            r@ == path_join(self.chroot_path@, PROFILE_INFO_FILE@),
    {
        join_path(self.chroot_path.as_str(), PROFILE_INFO_FILE)
    }

    /// The architecture-profile record to write into the chroot.
    pub fn profile_info_text(&self) -> (r: Result<String, ChrootError>)
        ensures
            match (r, self.profile) {
                (Ok(s), Some(p)) => s@ == p.architecture@ + "-"@ + p.profile@,
                (Err(ChrootError::NoProfile), None) => true,
                _ => false,
            },
    {
        match &self.profile {
            Some(p) => Ok(p.to_display()),
            None => Err(ChrootError::NoProfile),
        }
    }

    /// The arguments of `chroot` for an interactive shell that reads the
    /// start-up file at `bashrc_path` (a path outside the chroot).
    pub fn get_chroot_command_args(&self, bashrc_path: &str) -> (r: Vec<String>)
        ensures
            views(r@) == shell_args(self.chroot_path@, rcfile_inside(self.chroot_path@, bashrc_path@)),
    {
        let rcfile = match strip_path_prefix(bashrc_path, self.chroot_path.as_str()) {
            Some(rest) => concat2("/", rest.as_str()),
            None => String::from_str("/tmp/chroot_bashrc"),
        };
        strings5(self.chroot_path.as_str(), "/bin/bash", "--rcfile", rcfile.as_str(), "-i")
    }

    /// The command line that enters the chroot from an external terminal,
    /// with the path of the start-up file it relies on.
    pub fn get_chroot_command_for_terminal(&self, bashrc_path: &str) -> (r: Result<
        (String, String),
        ChrootError,
    >)
        ensures
            match r {
                Ok((cmd, path)) => cmd@ == "sudo chroot "@ + spaced(
                    shell_args(self.chroot_path@, rcfile_inside(self.chroot_path@, bashrc_path@)),
                ) && path@ == bashrc_path@,
                Err(_) => false,
            },
    {
        let args = self.get_chroot_command_args(bashrc_path);
        let joined = join_spaced(&args);
        Ok((concat2("sudo chroot ", joined.as_str()), String::from_str(bashrc_path)))
    }
}

/// The strings of `v` joined with single spaces.
pub fn join_spaced(v: &Vec<String>) -> (r: String)
    ensures
        r@ == spaced(views(v@)),
{
    let mut r = String::new();
    let mut i: usize = 0;
    while i < v.len()
        invariant
            i <= v@.len(),
            r@ == spaced(views(v@.subrange(0, i as int))),
        decreases v@.len() - i,
    {
        proof {
            let s = views(v@.subrange(0, i + 1));
            assert(s.drop_last() =~= views(v@.subrange(0, i as int)));
            assert(s.last() == v@[i as int]@);
        }
        if i == 0 {
            r = String::from_str(v[i].as_str());
            proof {
                assert(views(v@.subrange(0, 1)) =~= seq![v@[0]@]);
            }
        } else {
            r.append(" ");
            r.append(v[i].as_str());
        }
        i = i + 1;
    }
    assert(v@.subrange(0, v@.len() as int) =~= v@);
    r
}

/// The start-up file of a chroot shell, before the chroot's name.
pub const BASHRC_HEAD: &'static str = "#!/bin/bash\nexport ENV=\"/tmp/chroot_env.sh\"\ncat > /tmp/chroot_env.sh << 'EOF'\nsource /etc/profile 2>/dev/null || true\nexport TERM=xterm-256color\neval \"$(dircolors -b 2>/dev/null || true)\"\nalias ls='ls --color=auto'\nalias ll='ls -l --color=auto'\nalias la='ls -la --color=auto'\nalias grep='grep --color=auto'\nexport PS1='\\[\\e[1;32m\\](chroot) \\[\\e[01;31m\\]";

/// The start-up file of a chroot shell, after the chroot's name.
pub const BASHRC_TAIL: &'static str = "\\[\\e[01;34m\\] \\w \\$\\[\\e[00m\\] '\nEOF\nexec bash --posix -i\n";

impl ChrootUnit {
    /// The extraction of the cached archive at `cached_stage3_path` into the
    /// chroot directory, keeping owners and extended attributes.
    pub fn extract_stage3(&self, cached_stage3_path: &str) -> (r: CommandRequest)
        ensures
            request_view(r) == ("tar"@, seq![
                "xpvf"@,
                cached_stage3_path@,
                "--xattrs-include=*.*"@,
                "--numeric-owner"@,
                "-C"@,
                self.chroot_path@,
            ]),
    {
        let mut arguments = strings4(
            "xpvf",
            cached_stage3_path,
            "--xattrs-include=*.*",
            "--numeric-owner",
        );
        let ghost before = arguments@;
        arguments.push(String::from_str("-C"));
        arguments.push(self.chroot_path.clone());
        proof {
            assert(views(arguments@) =~= views(before).push("-C"@).push(self.chroot_path@));
            assert(views(arguments@) =~= seq![
                "xpvf"@,
                cached_stage3_path@,
                "--xattrs-include=*.*"@,
                "--numeric-owner"@,
                "-C"@,
                self.chroot_path@,
            ]);
        }
        CommandRequest { program: String::from_str("tar"), arguments }
    }

    /// The move of the architecture-profile record, written first to
    /// `temp_file`, into its place in the chroot.
    pub fn write_arch_profile_info(&self, temp_file: &str) -> (r: Result<
        CommandRequest,
        ChrootError,
    >)
        ensures
            match r {
                Ok(q) => self.profile is Some && request_view(q) == ("mv"@, seq![
                    temp_file@,
                    path_join(self.chroot_path@, PROFILE_INFO_FILE@),
                ]),
                Err(ChrootError::NoProfile) => self.profile is None,
                Err(_) => false,
            },
    {
        if self.profile.is_none() {
            return Err(ChrootError::NoProfile);
        }
        let target = self.profile_info_path();
        Ok(
            CommandRequest {
                program: String::from_str("mv"),
                arguments: strings2(temp_file, target.as_str()),
            },
        )
    }

    /// The start-up file of a shell in this chroot: a coloured prompt
    /// naming the chroot and the usual aliases.
    pub fn bashrc_content(&self) -> (r: String)
        ensures
            r@ == BASHRC_HEAD@ + self.name@ + BASHRC_TAIL@,
    {
        concat3(BASHRC_HEAD, self.name.as_str(), BASHRC_TAIL)
    }
}

/// The operator's answer accepts: trimmed and in lower case, it begins with `y`.
pub open spec fn accepts(answer: Seq<char>) -> bool {
    let a = lowercase_of(trimmed_of(answer));
    a.len() > 0 && a[0] == 'y'
}

/// Whether the operator's answer to a yes/no question (default no) is yes.
pub fn confirms(answer: &str) -> (r: bool)
    ensures
        r == accepts(answer@),
{
    let t = trim_text(answer);
    let l = lowercase(t.as_str());
    let s = l.as_str();
    s.unicode_len() > 0 && s.get_char(0) == 'y'
}

} // verus!
