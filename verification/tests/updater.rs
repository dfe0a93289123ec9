use yt_dlp_clipper::updater::{newer_release, parse_version, ReleaseResponse};

fn release(tag: &str) -> ReleaseResponse {
    ReleaseResponse { tag_name: tag.into(), body: String::new(), html_url: String::new() }
}

#[test]
fn parses_tags_with_and_without_prefix() {
    assert_eq!(parse_version("v0.1.4"), Some((0, 1, 4)));
    assert_eq!(parse_version("0.1.4"), Some((0, 1, 4)));
    assert_eq!(parse_version(" v0.1.4 "), Some((0, 1, 4)));
}

#[test]
fn absent_components_read_as_zero() {
    assert_eq!(parse_version("v1"), Some((1, 0, 0)));
    assert_eq!(parse_version("v1.2"), Some((1, 2, 0)));
}

#[test]
fn ignores_prerelease_and_build_suffixes() {
    assert_eq!(parse_version("v1.2.3-rc1"), Some((1, 2, 3)));
    assert_eq!(parse_version("v1.2.3+build7"), Some((1, 2, 3)));
}

#[test]
fn rejects_unparseable_tags() {
    assert_eq!(parse_version("nightly"), None);
    assert_eq!(parse_version(""), None);
}

#[test]
fn orders_components_numerically_not_lexically() {
    assert!(parse_version("v0.1.10") > parse_version("v0.1.9"));
    assert!(parse_version("v0.10.0") > parse_version("v0.9.9"));
}

#[test]
fn offers_only_releases_above_the_running_build() {
    assert!(newer_release(&release("v0.1.5"), "0.1.4").is_some());
    assert!(newer_release(&release("v0.1.4"), "0.1.4").is_none());
    assert!(newer_release(&release("v0.1.3"), "0.1.4").is_none());
}

#[test]
fn unparseable_tag_offers_nothing() {
    assert!(newer_release(&release("nightly"), "0.1.4").is_none());
}

#[test]
fn reported_version_drops_the_tag_prefix() {
    let offered = newer_release(&release("v0.2.0"), "0.1.4").expect("newer");
    assert_eq!(offered.version, "0.2.0");
}

#[test]
fn parses_a_github_release_payload() {
    let payload = r#"{
            "tag_name": "v0.2.0",
            "name": "v0.2.0",
            "body": "Adds self-update.",
            "html_url": "https://github.com/0xTheCrow/yt-dlp-clipper/releases/tag/v0.2.0",
            "draft": false,
            "prerelease": false,
            "assets": []
        }"#;
    let parsed: serde_json::Value = serde_json::from_str(payload).expect("parses");
    let text = |key: &str| parsed[key].as_str().expect("a string").to_owned();
    let release = ReleaseResponse {
        tag_name: text("tag_name"),
        body: text("body"),
        html_url: text("html_url"),
    };
    let offered = newer_release(&release, "0.1.4").expect("newer");
    assert_eq!(offered.version, "0.2.0");
    assert_eq!(offered.notes, "Adds self-update.");
    assert!(offered.page_url.ends_with("/tag/v0.2.0"));
}

#[test]
fn odd_tags_read_as_their_numbers() {
    assert_eq!(parse_version("vv2.0"), Some((2, 0, 0)));
    assert_eq!(parse_version("1.x.7"), Some((1, 0, 7)));
    assert_eq!(parse_version("1.2.3.4"), Some((1, 2, 3)));
    assert_eq!(parse_version("+1"), None);
    assert_eq!(parse_version("4294967295"), Some((4294967295, 0, 0)));
    assert_eq!(parse_version("4294967296"), None);
    assert_eq!(parse_version("\u{2003}v3.1\n"), Some((3, 1, 0)));
}

#[test]
fn offers_lead_upward() {
    let tags = ["0.1.4", "0.1.10", "0.2.0", "1.0.0"];
    for (i, older) in tags.iter().enumerate() {
        for (j, newer) in tags.iter().enumerate() {
            assert_eq!(newer_release(&release(newer), older).is_some(), j > i);
        }
    }
}
