use chrootmanager::config::Config;
use chrootmanager::downloader::{
    build_stage3_url, calculate_sha256, check_stage3_integrity, digests_match, get_stage3_url,
    latest_listing_name, sha256_from_listing, stage3_filename_from_listing, with_suffix,
};
use chrootmanager::profile::selected::SelectedProfile;

const ABC_SHA256: &str = "ba7816bf8f01cfea414140de5dae2223b00361a396177a9cb410ff61f20015ad";

fn openrc() -> SelectedProfile {
    SelectedProfile::new("amd64".to_string(), "openrc".to_string())
}

#[test]
fn stage3_directory_urls() {
    assert_eq!(
        build_stage3_url("https://m.example/gentoo", &openrc()),
        "https://m.example/gentoo/releases/amd64/autobuilds/current-stage3-amd64-openrc/"
    );
    assert_eq!(
        build_stage3_url("https://m.example/", &openrc()),
        "https://m.example/releases/amd64/autobuilds/current-stage3-amd64-openrc/"
    );
}

#[test]
fn stage3_urls_follow_configured_mirrors() {
    let mut c = Config::with_home("/h");
    assert_eq!(
        get_stage3_url(&openrc(), &c),
        vec!["https://distfiles.gentoo.org/releases/amd64/autobuilds/current-stage3-amd64-openrc/"]
    );
    c.mirrors_url = vec!["http://a".to_string(), "http://b/".to_string()];
    let urls = get_stage3_url(&openrc(), &c);
    assert_eq!(urls.len(), 2);
    assert!(urls[0].starts_with("http://a/releases/"));
    assert!(urls[1].starts_with("http://b/releases/"));
    let files = with_suffix(&urls, "x.tar.xz");
    assert!(files[1].ends_with("current-stage3-amd64-openrc/x.tar.xz"));
    assert_eq!(latest_listing_name("stage3-amd64-openrc"), "latest-stage3-amd64-openrc.txt");
}

#[test]
fn latest_listing_names_current_archive() {
    let listing = "# Latest as of Sun, 01 Dec 2024\n# ts=1733000000\n20241201T170504Z stage3-amd64-openrc-20241201T170504Z.tar.xz 281234567\n";
    assert_eq!(
        stage3_filename_from_listing(listing, "stage3-amd64-openrc").unwrap(),
        "stage3-amd64-openrc-20241201T170504Z.tar.xz"
    );
    let odd = "path/stage3-amd64-openrc-2024.tar.xz";
    assert_eq!(
        stage3_filename_from_listing(odd, "stage3-amd64-openrc").unwrap(),
        "stage3-amd64-openrc-2024.tar.xz"
    );
    assert!(stage3_filename_from_listing("# nothing\n\n", "stage3-amd64-openrc").is_none());
    assert!(stage3_filename_from_listing("x stage3-arm64-openrc.tar.xz", "stage3-amd64-openrc").is_none());
}

#[test]
fn checksum_listing_gives_hash_of_file() {
    let listing = "# SHA256 HASH\nabc123  stage3-amd64-openrc-1.tar.xz\nfff000  stage3-amd64-openrc-1.tar.xz.CONTENTS.gz\n";
    assert_eq!(sha256_from_listing(listing, "stage3-amd64-openrc-1.tar.xz").unwrap(), "abc123");
    assert_eq!(sha256_from_listing("deadbeef  ./dir/f.tar.xz", "f.tar.xz").unwrap(), "deadbeef");
    assert!(sha256_from_listing(listing, "other.tar.xz").is_none());
}

#[test]
fn sha256_and_integrity() {
    assert_eq!(calculate_sha256(b"abc"), ABC_SHA256);
    let (ok, expected, calculated) = check_stage3_integrity(b"abc", &ABC_SHA256.to_uppercase());
    assert!(ok);
    assert_eq!(expected, ABC_SHA256.to_uppercase());
    assert_eq!(calculated, ABC_SHA256);
    let (bad, _, _) = check_stage3_integrity(b"abd", ABC_SHA256);
    assert!(!bad);
    assert!(digests_match("AbC", "aBc"));
    assert!(!digests_match("abc", "abd"));
}
