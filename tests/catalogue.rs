use chrootmanager::profile::arch::{Amd64Profile, Arch, Arm64Profile, ProfileLink};
use chrootmanager::config::Config;
use chrootmanager::mirror::parser::{Mirror, MirrorGroup, Protocol, UriInfo};
use chrootmanager::mirror::Mirrors;
use chrootmanager::profile::architecture::Architecture;
use chrootmanager::profile::manager::ProfileManager;
use chrootmanager::profile::selected::SelectedProfile;

fn strings(v: &[&str]) -> Vec<String> {
    v.iter().map(|s| s.to_string()).collect()
}

fn uri(p: Protocol, u: &str) -> UriInfo {
    UriInfo { protocol: p, ipv4: true, ipv6: false, partial: false, uri: u.to_string() }
}

fn mirror(name: &str, region: &str, country: &str, uris: Vec<UriInfo>) -> Mirror {
    Mirror {
        name: name.to_string(),
        group: MirrorGroup {
            name: name.to_string(),
            region: region.to_string(),
            country_code: String::new(),
            country_name: country.to_string(),
            mirrors: uris,
        },
    }
}

fn sample() -> Mirrors {
    Mirrors::new(vec![
        mirror("Zeta", "Europe", "Germany", vec![uri(Protocol::Https, "https://z/"), uri(Protocol::Http, "http://z/")]),
        mirror("Alpha", "Europe", "France", vec![uri(Protocol::Rsync, "rsync://a/")]),
        mirror("Beta", "Asia", "Japan", vec![uri(Protocol::Ftp, "ftp://b/")]),
        mirror("Gamma", "Europe", "Germany", vec![uri(Protocol::Http, "http://g/"), uri(Protocol::Http, "http://g2/")]),
        mirror("Delta", "Europe", "Germany", vec![]),
    ])
}

#[test]
fn architecture_default_profile_rules() {
    let a = Architecture::new("amd64".to_string(), strings(&["desktop-openrc", "hardened-openrc", "openrc-splitusr", "openrc"]));
    assert_eq!(a.get_default_profile(), "openrc-splitusr");
    let b = Architecture::new("x".to_string(), strings(&["systemd", "musl"]));
    assert_eq!(b.get_default_profile(), "systemd");
    let c = Architecture::new("y".to_string(), Vec::new());
    assert_eq!(c.get_default_profile(), "openrc");
    assert!(a.has_profile("openrc"));
    assert!(!a.has_profile("systemd"));
    assert_eq!(a.get_profiles().len(), 4);
}

#[test]
fn manager_lookup_and_replace() {
    let mut m = ProfileManager::new();
    m.insert(Architecture::new("arm64".to_string(), strings(&["openrc"])));
    m.insert(Architecture::new("amd64".to_string(), strings(&["systemd"])));
    m.insert(Architecture::new("arm64".to_string(), strings(&["musl", "systemd"])));
    assert_eq!(m.get_architectures().len(), 2);
    assert_eq!(m.get_architecture_names(), vec!["amd64", "arm64"]);
    assert!(m.has_architecture("arm64"));
    assert!(!m.has_architecture("sparc"));
    assert_eq!(m.get_architecture("arm64").unwrap().get_profiles().len(), 2);
    assert!(m.get_architecture("x86").is_none());
    assert_eq!(m.get_profiles_for_arch("amd64").unwrap(), &strings(&["systemd"]));
    assert!(m.get_profiles_for_arch("ppc").is_none());
    assert!(m.validate_arch_profile("arm64", "musl"));
    assert!(!m.validate_arch_profile("arm64", "openrc"));
    assert!(!m.validate_arch_profile("ppc", "openrc"));
}

#[test]
fn fallback_architectures() {
    let m = ProfileManager::fallback();
    assert_eq!(m.get_architecture_names(), vec!["amd64", "arm64", "sparc"]);
    assert_eq!(m.get_profiles_for_arch("amd64").unwrap().len(), 17);
    assert_eq!(m.get_profiles_for_arch("arm64").unwrap().len(), 12);
    assert_eq!(m.get_architecture("amd64").unwrap().get_default_profile(), "llvm-openrc");
    assert_eq!(m.get_architecture("arm64").unwrap().get_default_profile(), "aarch64be-openrc");
    assert_eq!(m.get_architecture("sparc").unwrap().get_default_profile(), "openrc");
    assert!(m.validate_arch_profile("arm64", "aarch64be-openrc"));
}

#[test]
fn selected_profile_texts() {
    let p = SelectedProfile::new("amd64".to_string(), "desktop-systemd".to_string());
    assert_eq!(p.get_stage3_pattern(), "stage3-amd64-desktop-systemd");
    assert_eq!(p.to_display(), "amd64-desktop-systemd");
    let d = SelectedProfile::default();
    assert_eq!(d.arch(), "amd64");
    assert_eq!(d.profile(), "openrc");
    let c = p.copied();
    assert_eq!(c.architecture, "amd64");
}

#[test]
fn mirror_regions_countries_locations() {
    let m = sample();
    assert_eq!(m.len(), 5);
    assert_eq!(m.get_regions(), vec!["Asia", "Europe"]);
    assert_eq!(m.get_countries("Europe"), vec!["France", "Germany"]);
    assert!(m.get_countries("Mars").is_empty());
    assert_eq!(m.get_locations("Europe", "Germany"), vec!["Delta", "Gamma", "Zeta"]);
    assert!(m.get_locations("Asia", "Germany").is_empty());
}

#[test]
fn mirror_protocols_and_urls() {
    let m = sample();
    assert!(m.knows_location("Zeta"));
    assert!(!m.knows_location("Omega"));
    assert_eq!(m.get_uris_info("Zeta").len(), 2);
    assert_eq!(m.get_protocols("Zeta"), vec!["http", "https"]);
    assert_eq!(m.get_protocols("Gamma"), vec!["http", "http"]);
    assert_eq!(m.get_url("Zeta", "HTTP").unwrap(), "http://z/");
    assert_eq!(m.get_url("Zeta", "https").unwrap(), "https://z/");
    assert_eq!(m.get_url("Gamma", "http").unwrap(), "http://g/");
    assert!(m.get_url("Zeta", "ftp").is_none());
    assert_eq!(m.get_url_with("Beta", Protocol::Ftp), "ftp://b/");
}

#[test]
fn protocol_names() {
    assert_eq!(Protocol::from_name("RSYNC"), Protocol::Rsync);
    assert_eq!(Protocol::from_name("Https"), Protocol::Https);
    assert_eq!(Protocol::from_name("gopher"), Protocol::Unknown);
    assert_eq!(Protocol::Ftp.as_str(), "ftp");
    assert_eq!(Protocol::Unknown.as_str(), "unknown");
    let u = UriInfo::new();
    assert_eq!(u.protocol, Protocol::Unknown);
    assert!(Mirror::new().name.is_empty());
}

#[test]
fn config_paths_and_mirrors() {
    let mut c = Config::with_home("/home/me");
    assert_eq!(c.stage3_cache_dir, "/home/me/.cache/chrootmanager/stage3");
    assert_eq!(Config::default_config_path("/home/me"), "/home/me/.config/chrootmanager/config.toml");
    assert_eq!(c.get_cache_path("stage3.tar.xz"), "/home/me/.cache/chrootmanager/stage3/stage3.tar.xz");
    assert!(!c.has_mirrors());
    c.add_mirror("https://a/");
    c.add_mirror("https://b/");
    c.add_mirror("https://a/");
    assert_eq!(c.mirrors_url, vec!["https://a/", "https://b/"]);
    c.mirrors_url = strings(&["x", "x", "y"]);
    c.add_mirror("y");
    assert_eq!(c.mirrors_url, vec!["x", "y"]);
    c.use_default_mirror();
    assert_eq!(c.mirrors_url, vec!["https://distfiles.gentoo.org/"]);
    assert!(c.has_mirrors());
}

#[test]
fn fixed_flavour_names() {
    assert_eq!(Amd64Profile::default(), Amd64Profile::Openrc);
    assert_eq!(Arm64Profile::default(), Arm64Profile::Openrc);
    assert_eq!(Amd64Profile::HardenedSelinuxOpenrc.as_str(), "hardened-selinux-openrc");
    assert_eq!(Arm64Profile::Aarch64beOpenrc.as_str(), "aarch64be-openrc");
    assert_eq!(Arch::Amd64(Amd64Profile::X32Systemd).to_display(), "amd64-x32-systemd");
    assert_eq!(Arch::Arm64(Arm64Profile::Aarch64beSystemd).to_display(), "aarch64_be-systemd");
    assert_eq!(Arch::Arm64(Arm64Profile::MuslLlvm).to_display(), "arm64-musl-llvm");
    assert_eq!(Arch::Arm64(Arm64Profile::Musl).arch(), "arm64");
    assert_eq!(Arch::Amd64(Amd64Profile::Musl).arch(), "amd64");
    let link = ProfileLink("../../var/db/repos/gentoo/profiles/default/linux/amd64/23.0".to_string());
    assert!(link.get().ends_with("23.0"));
}

#[test]
fn profile_links_name_flavours() {
    let link = |s: &str| ProfileLink(s.to_string());
    assert_eq!(
        Arch::from_link(&link("../../var/db/repos/gentoo/profiles/default/linux/amd64/23.0/desktop/plasma\n")),
        Some(Arch::Amd64(Amd64Profile::DesktopOpenrc))
    );
    assert_eq!(
        Arch::from_link(&link("/var/db/repos/gentoo/profiles/default/linux/amd64/23.0/desktop/gnome/systemd")),
        Some(Arch::Amd64(Amd64Profile::DesktopSystemd))
    );
    assert_eq!(
        Arch::from_link(&link("profiles/default/linux/amd64/23.0")),
        Some(Arch::Amd64(Amd64Profile::Openrc))
    );
    assert_eq!(
        Arch::from_link(&link("profiles/default/linux/amd64/23.0/hardened/selinux")),
        Some(Arch::Amd64(Amd64Profile::HardenedSelinuxOpenrc))
    );
    assert_eq!(
        Arch::from_link(&link("profiles/default/linux/amd64/23.0/split-usr")),
        Some(Arch::Amd64(Amd64Profile::OpenrcSplitusr))
    );
    assert_eq!(Arch::from_link(&link("profiles/default/linux/arm64/23.0")), None);
    assert_eq!(Arch::from_link(&link("profiles/default/linux/amd64")), None);
    assert_eq!(Arch::from_link(&link("no-linux-here")), None);
}
