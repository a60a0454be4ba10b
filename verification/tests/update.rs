use er_commander::update::{
    is_newer_version, latest_release_url, platform_release_asset_suffix, read_release, read_reply,
    Json, UpdateBox, UpdateCheckResult, UpdateReply, UpdateState,
};

const REPLY: &str = "{\"tag_name\": \"v2.1.0\", \"n\": 5, \"assets\": [\
    {\"name\": \"a.txt\"},\
    {\"name\": \"er.zip\", \"browser_download_url\": \"https://x/er.zip\"},\
    {\"name\": \"er.tar.gz\", \"browser_download_url\": \"https://x/er.tar.gz\"}]}";

#[test]
fn versions_are_compared_by_number() {
    assert!(is_newer_version("1.2.10", "1.2.9"));
    assert!(is_newer_version("2", "1.9.9"));
    assert!(!is_newer_version("1.2.0", "1.2"));
    assert!(!is_newer_version("1.2", "1.2.0"));
    assert!(!is_newer_version("x.y", "0.0.1"));
    assert!(is_newer_version("1.0.1.9", "1.0.0.99"));
    assert!(!is_newer_version("1.0.0.9", "1.0.0"));
}

#[test]
fn releases_are_read() {
    let bytes = REPLY.as_bytes().to_vec();
    let r = read_reply(&bytes, true).unwrap();
    assert_eq!((r.version.as_str(), r.download_url.as_str()), ("v2.1.0", "https://x/er.zip"));
    let r = read_reply(&bytes, false).unwrap();
    assert_eq!(r.download_url, "https://x/er.tar.gz");
    assert_eq!(platform_release_asset_suffix(true), ".zip");
    assert_eq!(platform_release_asset_suffix(false), ".tar.gz");
    assert_eq!(
        latest_release_url("a/b"),
        "https://api.github.com/repos/a/b/releases/latest"
    );
}

#[test]
fn releases_that_do_not_read() {
    let read = |s: &str| read_reply(&s.as_bytes().to_vec(), false).unwrap_err();
    assert_eq!(read("{"), "error decoding response body");
    assert_eq!(read(""), "error decoding response body");
    assert_eq!(read("{}"), "Nelze přečíst verzi");
    assert_eq!(read("[]"), "Nelze přečíst verzi");
    assert_eq!(read("{\"tag_name\": 5}"), "Nelze přečíst verzi");
    assert_eq!(read("{\"tag_name\": \"v1\"}"), "Žádné assets");
    assert_eq!(
        read("{\"tag_name\": \"v1\", \"assets\": []}"),
        "Žádný release asset pro tuto platformu"
    );
    assert_eq!(
        read("{\"tag_name\": \"v1\", \"assets\": [{\"name\": \"x.tar.gz\"}]}"),
        "Žádný release asset pro tuto platformu"
    );
    assert_eq!(read_release(&Json::Other, ".zip").unwrap_err(), "Nelze přečíst verzi");
}

fn release(version: &str) -> UpdateReply {
    UpdateReply::Came(Ok(UpdateCheckResult {
        version: version.to_string(),
        download_url: "u".to_string(),
    }))
}

#[test]
fn a_newer_version_is_offered() {
    let mut b = UpdateBox::new();
    assert!(b.check_for_update_silent());
    assert!(!b.show && b.awaited);
    assert!(!b.check_for_update());
    assert!(b.poll_update_check(UpdateReply::Nothing, "1.0.0").is_none());
    assert!(b.awaited);
    assert!(b.poll_update_check(release("v1.0.1"), "1.0.0").is_none());
    assert!(b.show && !b.awaited);
    assert!(matches!(&b.state, UpdateState::UpdateAvailable { version, .. } if version == "v1.0.1"));
    assert_eq!(b.download_and_replace(), Some("u".to_string()));
    assert!(matches!(b.state, UpdateState::Downloading));
    assert!(b.awaited);
    assert_eq!(b.download_and_replace(), None);
    assert_eq!(
        b.poll_update_check(UpdateReply::Came(Err("HTTP 404".to_string())), "1.0.0"),
        Some("Update selhal: HTTP 404".to_string())
    );
    assert!(!b.show);
}

#[test]
fn no_newer_version() {
    let mut b = UpdateBox::new();
    assert!(b.check_for_update());
    assert!(b.show);
    b.poll_update_check(release("v1.0.0"), "1.0.0");
    assert!(matches!(b.state, UpdateState::UpToDate));
    assert!(b.check_for_update());
    b.poll_update_check(UpdateReply::Lost, "1.0.0");
    assert!(matches!(b.state, UpdateState::Idle));
    assert!(b.poll_update_check(release("v9.0.0"), "1.0.0").is_none());
    assert!(matches!(b.state, UpdateState::Idle));
}
