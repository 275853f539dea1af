use ats::commands::build_config;
use ats::commands::is_affirmative;
use ats::commands::list_report;
use ats::commands::reset_decision;
use ats::commands::ListOutcome;
use ats::commands::ProviderAnswers;
use ats::commands::ResetAction;
use ats::config::Config;
use ats::config::Entry;
use ats::config::Section;
use ats::format::parse_config;
use ats::format::render_config;
use ats::messages::msg_missing_config;

fn answers(provider: &str, profile: &str, upload: &str, download: &str) -> ProviderAnswers {
    ProviderAnswers {
        provider: provider.to_string(),
        profile: profile.to_string(),
        upload: upload.to_string(),
        download: download.to_string(),
    }
}

fn entry(key: &str, value: &str) -> Entry {
    Entry { key: key.to_string(), value: value.to_string() }
}

#[test]
fn configure_writes_answered_providers_only() {
    let conf = build_config(&vec![
        answers("AWS", "p1", "b1", "b2"),
        answers("Google", "", "", ""),
    ]);
    let text = render_config(&conf);
    assert_eq!(text, "[AWS]\nprofile = p1\nupload = b1\ndownload = b2\n");
    assert!(!text.contains("[Google]"));
    match list_report(Some(&text)) {
        ListOutcome::Listing(listing) => {
            assert!(listing.contains("[AWS]"));
            assert!(listing.contains("profile = p1"));
            assert!(listing.contains("upload = b1"));
            assert!(listing.contains("download = b2"));
            assert!(!listing.contains("[Google]"));
        }
        other => panic!("expected a listing, got {:?}", other),
    }
}

#[test]
fn skipped_prompts_leave_no_key() {
    let conf = build_config(&vec![answers("AWS", "p1", "", "eu-west")]);
    let text = render_config(&conf);
    assert_eq!(text, "[AWS]\nprofile = p1\ndownload = eu-west\n");
    assert!(!text.contains("upload"));
}

#[test]
fn round_trip_preserves_every_section_key_and_value() {
    let conf = Config {
        sections: vec![
            Section {
                name: "AWS".to_string(),
                entries: vec![entry("profile", "p1"), entry("upload", "bucket a")],
            },
            Section {
                name: "Google".to_string(),
                entries: vec![entry("download", "eu west-1")],
            },
        ],
    };
    let text = render_config(&conf);
    let back = parse_config(&text).expect("rendered store must parse");
    assert_eq!(back, conf);
}

#[test]
fn round_trip_keeps_an_empty_section() {
    let conf = Config {
        sections: vec![Section { name: "AWS".to_string(), entries: vec![] }],
    };
    let back = parse_config(&render_config(&conf)).expect("rendered store must parse");
    assert_eq!(back, conf);
}

#[test]
fn configure_twice_fully_replaces_the_first_run() {
    let first = build_config(&vec![answers("AWS", "old-profile", "old-bucket", "")]);
    let second = build_config(&vec![answers("Google", "", "g-up", "g-down")]);
    // the store holds exactly what the last run wrote, wherever it started
    let mut store: Option<String> = None;
    store = Some(render_config(&first));
    store = Some(render_config(&second));
    let text = store.unwrap();
    assert_eq!(text, render_config(&second));
    assert!(!text.contains("AWS"));
    assert!(!text.contains("old-profile"));
    let back = parse_config(&text).expect("rendered store must parse");
    assert_eq!(back, second);
}

#[test]
fn list_without_a_store_asks_to_configure() {
    assert_eq!(list_report(None), ListOutcome::MissingStore);
    assert_eq!(
        msg_missing_config(),
        "Configuration file does not exist. Please run 'ats configure' to set up the application."
    );
}

#[test]
fn malformed_store_is_reported() {
    assert_eq!(list_report(Some("not a section\n")), ListOutcome::Malformed);
}

#[test]
fn reset_declined_keeps_the_store() {
    let store: Option<String> = Some("[AWS]\nprofile = p1\n".to_string());
    let decision = reset_decision(store.is_some(), "n");
    assert_eq!(decision, ResetAction::Keep);
    // the file is left untouched
    assert_eq!(store.unwrap(), "[AWS]\nprofile = p1\n");
}

#[test]
fn reset_confirmed_deletes_the_store() {
    for yes in ["y", "Y", "yes", "YES", "Yes", "yEs"] {
        let mut store: Option<String> = Some("[AWS]\nprofile = p1\n".to_string());
        let decision = reset_decision(store.is_some(), yes);
        assert_eq!(decision, ResetAction::Delete, "answer {:?} must confirm", yes);
        store = None;
        assert!(store.is_none());
    }
}

#[test]
fn reset_without_a_store_only_gives_guidance() {
    assert_eq!(reset_decision(false, "y"), ResetAction::Missing);
    assert_eq!(reset_decision(false, ""), ResetAction::Missing);
}

#[test]
fn a_confirmation_wrapped_in_exotic_whitespace_still_counts() {
    // the prompt trims the reply before it is judged, with the full
    // whitespace set str::trim uses
    let answer = ats::text::trimmed("\u{000B}y");
    assert_eq!(answer, "y");
    assert!(is_affirmative(&answer));
    assert_eq!(reset_decision(true, &answer), ResetAction::Delete);
}

#[test]
fn only_y_and_yes_confirm() {
    assert!(is_affirmative("y"));
    assert!(is_affirmative("Y"));
    assert!(is_affirmative("yes"));
    assert!(is_affirmative("YES"));
    assert!(!is_affirmative("n"));
    assert!(!is_affirmative("no"));
    assert!(!is_affirmative(""));
    assert!(!is_affirmative("yess"));
    assert!(!is_affirmative("ye"));
}
