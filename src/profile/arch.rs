//! The fixed catalogue of amd64 and arm64 stage3 flavours.
use vstd::prelude::*;

use crate::text::{
    concat2, concat3, dash_slashes, dashed, find_in, first_index, seq_contains, str_eq,
    trim_end_text, trimmed_end_of,
};

verus! {

/// The stage3 flavours published for amd64.
#[derive(Debug, Clone, Copy, PartialEq, Eq, Structural)]
pub enum Amd64Profile {
    DesktopOpenrc,
    DesktopSystemd,
    HardenedSelinuxOpenrc,
    HardenedOpenrc,
    HardenedSystemd,
    LlvmOpenrc,
    LlvmSystemd,
    MuslHardened,
    MuslLlvm,
    Musl,
    NoMultilibOpenrc,
    NoMultilibSystemd,
    OpenrcSplitusr,
    Openrc,
    Systemd,
    X32Openrc,
    X32Systemd,
}

/// The stage3 flavours published for arm64.
#[derive(Debug, Clone, Copy, PartialEq, Eq, Structural)]
pub enum Arm64Profile {
    Aarch64beOpenrc,
    Aarch64beSystemd,
    DesktopOpenrc,
    DesktopSystemd,
    LlvmOpenrc,
    LlvmSystemd,
    MuslHardened,
    MuslLlvm,
    Musl,
    OpenrcSplitusr,
    Openrc,
    Systemd,
}

/// An architecture together with its flavour.
#[derive(Debug, Clone, Copy, PartialEq, Eq, Structural)]
pub enum Arch {
    Amd64(Amd64Profile),
    Arm64(Arm64Profile),
}

/// The target of a chroot's `make.profile` link.
pub struct ProfileLink(pub String);

pub open spec fn amd64_name(p: Amd64Profile) -> Seq<char> {
    match p {
        Amd64Profile::DesktopOpenrc => "desktop-openrc"@,
        Amd64Profile::DesktopSystemd => "desktop-systemd"@,
        Amd64Profile::HardenedSelinuxOpenrc => "hardened-selinux-openrc"@,
        Amd64Profile::HardenedOpenrc => "hardened-openrc"@,
        Amd64Profile::HardenedSystemd => "hardened-systemd"@,
        Amd64Profile::LlvmOpenrc => "llvm-openrc"@,
        Amd64Profile::LlvmSystemd => "llvm-systemd"@,
        Amd64Profile::MuslHardened => "musl-hardened"@,
        Amd64Profile::MuslLlvm => "musl-llvm"@,
        Amd64Profile::Musl => "musl"@,
        Amd64Profile::NoMultilibOpenrc => "no-multilib-openrc"@,
        Amd64Profile::NoMultilibSystemd => "no-multilib-systemd"@,
        Amd64Profile::OpenrcSplitusr => "openrc-splitusr"@,
        Amd64Profile::Openrc => "openrc"@,
        Amd64Profile::Systemd => "systemd"@,
        Amd64Profile::X32Openrc => "x32-openrc"@,
        Amd64Profile::X32Systemd => "x32-systemd"@,
    }
}

pub open spec fn arm64_name(p: Arm64Profile) -> Seq<char> {
    match p {
        Arm64Profile::Aarch64beOpenrc => "aarch64be-openrc"@,
        Arm64Profile::Aarch64beSystemd => "aarch64be-systemd"@,
        Arm64Profile::DesktopOpenrc => "desktop-openrc"@,
        Arm64Profile::DesktopSystemd => "desktop-systemd"@,
        Arm64Profile::LlvmOpenrc => "llvm-openrc"@,
        Arm64Profile::LlvmSystemd => "llvm-systemd"@,
        Arm64Profile::MuslHardened => "musl-hardened"@,
        Arm64Profile::MuslLlvm => "musl-llvm"@,
        Arm64Profile::Musl => "musl"@,
        Arm64Profile::OpenrcSplitusr => "openrc-splitusr"@,
        Arm64Profile::Openrc => "openrc"@,
        Arm64Profile::Systemd => "systemd"@,
    }
}

/// The full name of an architecture and flavour, as stage3 archives use it.
pub open spec fn arch_name(a: Arch) -> Seq<char> {
    match a {
        Arch::Amd64(p) => "amd64-"@ + amd64_name(p),
        Arch::Arm64(Arm64Profile::Aarch64beOpenrc) => "aarch64_be-openrc"@,
        Arch::Arm64(Arm64Profile::Aarch64beSystemd) => "aarch64_be-systemd"@,
        Arch::Arm64(p) => "arm64-"@ + arm64_name(p),
    }
}

impl Amd64Profile {
    /// The flavour's name.
    pub fn as_str(&self) -> (r: &'static str)
        ensures
            r@ == amd64_name(*self),
    {
        match self {
            Amd64Profile::DesktopOpenrc => "desktop-openrc",
            Amd64Profile::DesktopSystemd => "desktop-systemd",
            Amd64Profile::HardenedSelinuxOpenrc => "hardened-selinux-openrc",
            Amd64Profile::HardenedOpenrc => "hardened-openrc",
            Amd64Profile::HardenedSystemd => "hardened-systemd",
            Amd64Profile::LlvmOpenrc => "llvm-openrc",
            Amd64Profile::LlvmSystemd => "llvm-systemd",
            Amd64Profile::MuslHardened => "musl-hardened",
            Amd64Profile::MuslLlvm => "musl-llvm",
            Amd64Profile::Musl => "musl",
            Amd64Profile::NoMultilibOpenrc => "no-multilib-openrc",
            Amd64Profile::NoMultilibSystemd => "no-multilib-systemd",
            Amd64Profile::OpenrcSplitusr => "openrc-splitusr",
            Amd64Profile::Openrc => "openrc",
            Amd64Profile::Systemd => "systemd",
            Amd64Profile::X32Openrc => "x32-openrc",
            Amd64Profile::X32Systemd => "x32-systemd",
        }
    }
}

impl Default for Amd64Profile {
    fn default() -> (r: Self)
        ensures
            r == Amd64Profile::Openrc,
    {
        Amd64Profile::Openrc
    }
}

impl Arm64Profile {
    /// The flavour's name.
    pub fn as_str(&self) -> (r: &'static str)
        ensures
            r@ == arm64_name(*self),
    {
        match self {
            Arm64Profile::Aarch64beOpenrc => "aarch64be-openrc",
            Arm64Profile::Aarch64beSystemd => "aarch64be-systemd",
            Arm64Profile::DesktopOpenrc => "desktop-openrc",
            Arm64Profile::DesktopSystemd => "desktop-systemd",
            Arm64Profile::LlvmOpenrc => "llvm-openrc",
            Arm64Profile::LlvmSystemd => "llvm-systemd",
            Arm64Profile::MuslHardened => "musl-hardened",
            Arm64Profile::MuslLlvm => "musl-llvm",
            Arm64Profile::Musl => "musl",
            Arm64Profile::OpenrcSplitusr => "openrc-splitusr",
            Arm64Profile::Openrc => "openrc",
            Arm64Profile::Systemd => "systemd",
        }
    }
}

impl Default for Arm64Profile {
    fn default() -> (r: Self)
        ensures
            r == Arm64Profile::Openrc,
    {
        Arm64Profile::Openrc
    }
}

impl Arch {
    /// The architecture's name.
    pub fn arch(&self) -> (r: &'static str)
        ensures
            r@ == match *self {
                Arch::Amd64(_) => "amd64"@,
                Arch::Arm64(_) => "arm64"@,
            },
    {
        match self {
            Arch::Amd64(_) => "amd64",
            Arch::Arm64(_) => "arm64",
        }
    }

    /// The full name of the architecture and flavour (see [`arch_name`]).
    pub fn to_display(&self) -> (r: String)
        ensures
            r@ == arch_name(*self),
    {
        match self {
            Arch::Amd64(p) => concat2("amd64-", p.as_str()),
            Arch::Arm64(Arm64Profile::Aarch64beOpenrc) => String::from_str("aarch64_be-openrc"),
            Arch::Arm64(Arm64Profile::Aarch64beSystemd) => String::from_str("aarch64_be-systemd"),
            Arch::Arm64(p) => concat2("arm64-", p.as_str()),
        }
    }
}

impl ProfileLink {
    /// The link target.
    pub fn get(&self) -> (r: &str)
        ensures
            r@ == self.0@,
    {
        self.0.as_str()
    }
}

/// The part of a link target that names the profile: after its first
/// `linux/`, up to the next `linux/` if there is one.
pub open spec fn link_segment(t: Seq<char>) -> Option<Seq<char>> {
    let pat = "linux/"@;
    if !seq_contains(t, pat) {
        None
    } else {
        let rest = t.subrange(first_index(t, pat) + pat.len(), t.len() as int);
        if seq_contains(rest, pat) {
            Some(rest.subrange(0, first_index(rest, pat)))
        } else {
            Some(rest)
        }
    }
}

/// The variant components of what follows the architecture in a profile
/// path (`version/variant...`), joined by `-`; none without a variant.
pub open spec fn variant_part(after: Seq<char>) -> Option<Seq<char>> {
    if seq_contains(after, "/"@) {
        Some(dashed(after.subrange(first_index(after, "/"@) + "/"@.len(), after.len() as int)))
    } else {
        None
    }
}

/// The key of a profile path `arch/version[/variant...]`: the
/// architecture, then the variant components, joined by `-` (the version
/// is left out). A path without a version has no key.
pub open spec fn link_key(seg: Seq<char>) -> Option<Seq<char>> {
    if !seq_contains(seg, "/"@) {
        None
    } else {
        let i1 = first_index(seg, "/"@);
        let head = seg.subrange(0, i1);
        match variant_part(seg.subrange(i1 + "/"@.len(), seg.len() as int)) {
            Some(v) => Some(head + "-"@ + v),
            None => Some(head),
        }
    }
}

/// The flavour a profile key stands for.
pub open spec fn arch_of_key(k: Seq<char>) -> Option<Arch> {
    if k == "amd64-desktop"@ || k == "amd64-desktop-gnome"@ || k == "amd64-desktop-plasma"@ {
        Some(Arch::Amd64(Amd64Profile::DesktopOpenrc))
    } else if k == "amd64-desktop-systemd"@ || k == "amd64-desktop-gnome-systemd"@ || k
        == "amd64-desktop-plasma-systemd"@ {
        Some(Arch::Amd64(Amd64Profile::DesktopSystemd))
    } else if k == "amd64-systemd"@ {
        Some(Arch::Amd64(Amd64Profile::Systemd))
    } else if k == "amd64"@ {
        Some(Arch::Amd64(Amd64Profile::Openrc))
    } else if k == "amd64-split-usr"@ {
        Some(Arch::Amd64(Amd64Profile::OpenrcSplitusr))
    } else if k == "amd64-hardened"@ {
        Some(Arch::Amd64(Amd64Profile::HardenedOpenrc))
    } else if k == "amd64-hardened-systemd"@ {
        Some(Arch::Amd64(Amd64Profile::HardenedSystemd))
    } else if k == "amd64-selinux"@ || k == "amd64-hardened-selinux"@ {
        Some(Arch::Amd64(Amd64Profile::HardenedSelinuxOpenrc))
    } else {
        None
    }
}

/// The flavour a `make.profile` link target names, if it names a known one.
pub open spec fn arch_of_link(t: Seq<char>) -> Option<Arch> {
    match link_segment(trimmed_end_of(t)) {
        Some(seg) => match link_key(seg) {
            Some(k) => arch_of_key(k),
            None => None,
        },
        None => None,
    }
}

fn find_link_segment(t: &str) -> (r: Option<String>)
    ensures
        match r {
            Some(s) => link_segment(t@) == Some(s@),
            None => link_segment(t@) is None,
        },
{
    let pat = "linux/";
    match find_in(t, pat) {
        None => None,
        Some(i) => {
            let n = t.unicode_len();
            let rest = t.substring_char(i + pat.unicode_len(), n);
            match find_in(rest, pat) {
                Some(j) => Some(String::from_str(rest.substring_char(0, j))),
                None => Some(String::from_str(rest)),
            }
        },
    }
}

fn find_variant_part(after: &str) -> (r: Option<String>)
    ensures
        match r {
            Some(v) => variant_part(after@) == Some(v@),
            None => variant_part(after@) is None,
        },
{
    let slash = "/";
    match find_in(after, slash) {
        Some(i) => {
            let n = after.unicode_len();
            Some(dash_slashes(after.substring_char(i + slash.unicode_len(), n)))
        },
        None => None,
    }
}

#[verifier::rlimit(40)]
fn find_link_key(seg: &str) -> (r: Option<String>)
    ensures
        match r {
            Some(k) => link_key(seg@) == Some(k@),
            None => link_key(seg@) is None,
        },
{
    let slash = "/";
    match find_in(seg, slash) {
        None => None,
        Some(i1) => {
            let n = seg.unicode_len();
            let head = seg.substring_char(0, i1);
            let after = seg.substring_char(i1 + slash.unicode_len(), n);
            let ghost key_head = seg@.subrange(0, i1 as int);
            assert(head@ == key_head);
            match find_variant_part(after) {
                Some(v) => Some(concat3(head, "-", v.as_str())),
                None => Some(String::from_str(head)),
            }
        },
    }
}

fn key_to_arch(k: &str) -> (r: Option<Arch>)
    ensures
        r == arch_of_key(k@),
{
    if str_eq(k, "amd64-desktop") || str_eq(k, "amd64-desktop-gnome") || str_eq(k, "amd64-desktop-plasma") {
        Some(Arch::Amd64(Amd64Profile::DesktopOpenrc))
    } else if str_eq(k, "amd64-desktop-systemd") || str_eq(k, "amd64-desktop-gnome-systemd")
        || str_eq(k, "amd64-desktop-plasma-systemd") {
        Some(Arch::Amd64(Amd64Profile::DesktopSystemd))
    } else if str_eq(k, "amd64-systemd") {
        Some(Arch::Amd64(Amd64Profile::Systemd))
    } else if str_eq(k, "amd64") {
        Some(Arch::Amd64(Amd64Profile::Openrc))
    } else if str_eq(k, "amd64-split-usr") {
        Some(Arch::Amd64(Amd64Profile::OpenrcSplitusr))
    } else if str_eq(k, "amd64-hardened") {
        Some(Arch::Amd64(Amd64Profile::HardenedOpenrc))
    } else if str_eq(k, "amd64-hardened-systemd") {
        Some(Arch::Amd64(Amd64Profile::HardenedSystemd))
    } else if str_eq(k, "amd64-selinux") || str_eq(k, "amd64-hardened-selinux") {
        Some(Arch::Amd64(Amd64Profile::HardenedSelinuxOpenrc))
    } else {
        None
    }
}

impl Arch {
    /// The flavour that a chroot's `make.profile` link target names (such
    /// as `.../profiles/default/linux/amd64/23.0/desktop/plasma`); `None`
    /// when the target names no known flavour.
    pub fn from_link(link: &ProfileLink) -> (r: Option<Arch>)
        ensures
            r == arch_of_link(link.0@),
    {
        let t = trim_end_text(link.get());
        match find_link_segment(t.as_str()) {
            None => None,
            Some(seg) => match find_link_key(seg.as_str()) {
                None => None,
                Some(k) => key_to_arch(k.as_str()),
            },
        }
    }
}

} // verus!
