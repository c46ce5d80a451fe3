use kozutsumi::entry::{classify, classify_with_home, expand_tilde, Entry};

#[test]
fn plain_name_is_app() {
    assert_eq!(classify("spotify", false), Entry::App("spotify".to_string()));
    assert_eq!(classify("Safari", true), Entry::App("Safari".to_string()));
}

#[test]
fn bare_domain_is_app() {
    assert_eq!(
        classify("example.com", false),
        Entry::App("example.com".to_string())
    );
}

#[test]
fn scheme_makes_url() {
    assert_eq!(
        classify("https://example.com", false),
        Entry::Url("https://example.com/".to_string())
    );
}

#[test]
fn scheme_only_uri_is_url() {
    assert_eq!(
        classify("spotify://", false),
        Entry::Url("spotify://".to_string())
    );
}

#[test]
fn url_with_path_kept_exactly() {
    assert_eq!(
        classify("https://example.com/inbox", false),
        Entry::Url("https://example.com/inbox".to_string())
    );
}

#[test]
fn shell_marker_with_capability() {
    assert_eq!(
        classify("sh:echo hi", true),
        Entry::Shell("echo hi".to_string())
    );
}

#[test]
fn shell_marker_without_capability_falls_through() {
    // With the capability off the first rule is skipped; `sh:` is a valid
    // URL scheme, so the string falls to the URL rule.
    assert_eq!(classify("sh:build", false), Entry::Url("sh:build".to_string()));
}

#[test]
fn absolute_path_is_file() {
    assert_eq!(
        classify("/tmp/notes.txt", false),
        Entry::File("/tmp/notes.txt".to_string())
    );
}

#[test]
fn tilde_expands_to_home() {
    let expected = shellexpand::tilde("~/notes").into_owned();
    assert_eq!(classify("~/notes", false), Entry::File(expected));
}

#[test]
fn tilde_expansion_with_explicit_home() {
    assert_eq!(
        classify_with_home("~/notes", Some("/home/alice"), false),
        Entry::File("/home/alice/notes".to_string())
    );
}

#[test]
fn bare_tilde_expands_to_home_itself() {
    assert_eq!(
        classify_with_home("~", Some("/home/alice"), false),
        Entry::File("/home/alice".to_string())
    );
}

#[test]
fn other_user_home_is_not_expanded() {
    assert_eq!(
        classify_with_home("~alice/notes", Some("/home/bob"), false),
        Entry::File("~alice/notes".to_string())
    );
}

#[test]
fn tilde_without_home_is_kept() {
    assert_eq!(
        classify_with_home("~/notes", None, false),
        Entry::File("~/notes".to_string())
    );
}

#[test]
fn expand_tilde_cases() {
    assert_eq!(
        expand_tilde("~/a/b", Some("/home/alice")),
        "/home/alice/a/b".to_string()
    );
    assert_eq!(expand_tilde("/a/b", Some("/home/alice")), "/a/b".to_string());
    assert_eq!(expand_tilde("plain", Some("/home/alice")), "plain".to_string());
    assert_eq!(expand_tilde("~", None), "~".to_string());
}

#[test]
fn display_round_trips_app_and_url() {
    assert_eq!(classify("spotify", false).display(), "spotify".to_string());
    assert_eq!(
        classify("https://example.com/inbox", false).display(),
        "https://example.com/inbox".to_string()
    );
}

#[test]
fn display_shows_expanded_path_and_bare_command() {
    assert_eq!(
        classify_with_home("~/notes", Some("/home/alice"), false).display(),
        "/home/alice/notes".to_string()
    );
    assert_eq!(classify("sh:echo hi", true).display(), "echo hi".to_string());
}
