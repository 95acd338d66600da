use chrootmanager::profile::parser::{
    autobuilds_url, extract_architecture_from_line, extract_profile_from_autobuilds_line,
    is_valid_architecture, parse_architecture_directories, parse_autobuilds_directories,
    releases_url,
};

const RELEASES: &str = "<html><body>\n<a href=\"../\">../</a>\n<a href=\"amd64/\">amd64/</a>\r\n<a href=\"arm64/\">arm64/</a>\n<a href=\"README.txt\">README</a>\n<a href=\"amd64/\">again</a>\n<a href=\"snapshots/\">snapshots/</a>\n</body></html>";

const AUTOBUILDS: &str = "<a href=\"current-stage3-amd64-systemd/\">current-stage3-amd64-systemd/</a>\n<a href=\"current-stage3-amd64-desktop-openrc/\">x</a>\n<a href=\"current-stage3-amd64-openrc/\">y</a>\n<a href=\"current-stage3-amd64-systemd/\">dup</a>\n<a href=\"current-install-amd64-minimal/\">z</a>";

#[test]
fn architecture_links() {
    assert_eq!(extract_architecture_from_line("<a href=\"amd64/\">amd64/</a>").unwrap(), "amd64");
    assert_eq!(extract_architecture_from_line("<a href=\"x86//\">").unwrap(), "x86");
    assert!(extract_architecture_from_line("<a href=\"notes.txt\">").is_none());
    assert!(extract_architecture_from_line("<a href=\"amd64/").is_none());
    assert!(extract_architecture_from_line("no link here").is_none());
}

#[test]
fn known_architectures() {
    for a in ["amd64", "arm64", "arm", "x86", "ppc64", "ppc", "sparc", "alpha", "hppa", "ia64", "mips", "riscv", "s390"] {
        assert!(is_valid_architecture(a));
    }
    assert!(!is_valid_architecture("snapshots"));
    assert!(!is_valid_architecture(""));
}

#[test]
fn releases_page_lists_architectures() {
    assert_eq!(parse_architecture_directories(RELEASES), vec!["amd64", "arm64"]);
    assert!(parse_architecture_directories("").is_empty());
}

#[test]
fn autobuild_profile_links() {
    assert_eq!(
        extract_profile_from_autobuilds_line("<a href=\"current-stage3-amd64-openrc/\">current-stage3-amd64-openrc/</a>", "amd64").unwrap(),
        "openrc"
    );
    assert_eq!(
        extract_profile_from_autobuilds_line("<a href=current-stage3-arm64-musl>musl", "arm64").unwrap(),
        "musl"
    );
    assert_eq!(
        extract_profile_from_autobuilds_line("<a href=current-stage3-arm64-musl>x</a>", "arm64").unwrap(),
        "musl x<"
    );
    assert!(extract_profile_from_autobuilds_line("<a href=\"current-stage3-amd64-openrc/\">", "arm64").is_none());
}

#[test]
fn autobuilds_page_lists_profiles() {
    assert_eq!(
        parse_autobuilds_directories(AUTOBUILDS, "amd64"),
        vec!["desktop-openrc", "openrc", "systemd"]
    );
    assert_eq!(parse_autobuilds_directories(AUTOBUILDS, "riscv"), vec!["openrc"]);
}

#[test]
fn mirror_urls() {
    assert_eq!(releases_url("https://distfiles.gentoo.org/"), "https://distfiles.gentoo.org/releases/");
    assert_eq!(releases_url("https://m.example/gentoo"), "https://m.example/gentoo/releases/");
    assert_eq!(
        autobuilds_url("https://m.example/releases/", "amd64"),
        "https://m.example/releases/amd64/autobuilds/"
    );
}
