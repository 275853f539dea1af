use ats::config::Config;
use ats::config::Entry;
use ats::config::Section;
use ats::format::parse_config;
use ats::format::render_config;
use ats::messages::config_dir_name;
use ats::messages::config_file_name;
use ats::messages::configuring_header;
use ats::messages::prompt_download;
use ats::messages::prompt_profile;
use ats::messages::prompt_reset;
use ats::messages::prompt_upload;
use ats::text::trimmed;

#[test]
fn empty_text_is_an_empty_store() {
    let conf = parse_config("").expect("empty text parses");
    assert_eq!(conf, Config { sections: vec![] });
}

#[test]
fn a_header_alone_is_an_empty_section() {
    let conf = parse_config("[AWS]\n").expect("a bare header parses");
    assert_eq!(
        conf,
        Config { sections: vec![Section { name: "AWS".to_string(), entries: vec![] }] }
    );
}

#[test]
fn blank_lines_are_skipped() {
    let conf = parse_config("\n[AWS]\n\nprofile = p1\n\n").expect("blank lines parse");
    assert_eq!(conf.sections.len(), 1);
    assert_eq!(conf.sections[0].entries.len(), 1);
}

#[test]
fn an_unterminated_last_line_still_counts() {
    let conf = parse_config("[AWS]\nprofile = p1").expect("missing final newline parses");
    assert_eq!(
        conf.sections[0].entries[0],
        Entry { key: "profile".to_string(), value: "p1".to_string() }
    );
}

#[test]
fn spaces_around_the_separator_are_trimmed() {
    let conf = parse_config("[AWS]\nprofile   =   p1  \n").expect("padded entry parses");
    assert_eq!(
        conf.sections[0].entries[0],
        Entry { key: "profile".to_string(), value: "p1".to_string() }
    );
}

#[test]
fn a_missing_value_is_an_empty_value() {
    let conf = parse_config("[AWS]\nprofile =\n").expect("empty value parses");
    assert_eq!(
        conf.sections[0].entries[0],
        Entry { key: "profile".to_string(), value: "".to_string() }
    );
}

#[test]
fn a_value_may_contain_the_separator() {
    let conf = parse_config("[AWS]\nprofile = a=b\n").expect("value with separator parses");
    assert_eq!(conf.sections[0].entries[0].value, "a=b");
}

#[test]
fn an_entry_before_any_section_is_malformed() {
    assert!(parse_config("profile = p1\n").is_none());
}

#[test]
fn an_unclosed_header_is_malformed() {
    assert!(parse_config("[AWS\n").is_none());
}

#[test]
fn a_line_without_a_separator_is_malformed() {
    assert!(parse_config("[AWS]\njust words\n").is_none());
}

#[test]
fn a_line_with_nothing_before_the_separator_is_malformed() {
    assert!(parse_config("[AWS]\n = p1\n").is_none());
}

#[test]
fn a_duplicate_key_in_a_section_is_malformed() {
    assert!(parse_config("[AWS]\nprofile = p1\nprofile = p2\n").is_none());
}

#[test]
fn a_repeated_section_name_is_malformed() {
    assert!(parse_config("[AWS]\n[Google]\n[AWS]\n").is_none());
}

#[test]
fn the_same_key_may_appear_in_different_sections() {
    let conf = parse_config("[AWS]\nprofile = p1\n[Google]\nprofile = p2\n")
        .expect("distinct sections may reuse a key");
    assert_eq!(conf.sections.len(), 2);
    assert_eq!(conf.sections[0].entries[0].value, "p1");
    assert_eq!(conf.sections[1].entries[0].value, "p2");
}

#[test]
fn rendering_is_exact() {
    let conf = Config {
        sections: vec![Section {
            name: "AWS".to_string(),
            entries: vec![Entry { key: "upload".to_string(), value: "b1".to_string() }],
        }],
    };
    assert_eq!(render_config(&conf), "[AWS]\nupload = b1\n");
}

#[test]
fn trimming_strips_both_ends_only() {
    assert_eq!(trimmed("  a b\t\r\n"), "a b");
    assert_eq!(trimmed("ab"), "ab");
    assert_eq!(trimmed(""), "");
    assert_eq!(trimmed(" \t\r\n"), "");
}

#[test]
fn trimming_matches_the_standard_whitespace_set() {
    // every character str::trim removes is removed here too
    assert_eq!(trimmed("\u{000B}y"), "\u{000B}y".trim());
    assert_eq!(trimmed("\u{000C}\u{0085}a\u{00A0}\u{3000}"), "a");
    assert_eq!(trimmed("\u{2000}\u{200A}b\u{2028}\u{2029}\u{202F}\u{205F}"), "b");
    assert_eq!(trimmed("\u{1680}\n"), "");
}

#[test]
fn prompts_match_the_tool_wording() {
    assert_eq!(configuring_header("AWS"), "Configuring AWS:");
    assert_eq!(
        prompt_profile("AWS"),
        "Enter profile name for AWS (press enter to skip): "
    );
    assert_eq!(
        prompt_upload("Google"),
        "Enter upload bucket for Google (press enter to skip): "
    );
    assert_eq!(
        prompt_download("AWS"),
        "Enter download bucket for AWS (press enter to skip): "
    );
    assert_eq!(prompt_reset(), "Delete config file? (y/N)");
}

#[test]
fn store_location_names_are_fixed() {
    assert_eq!(config_dir_name(), ".ats");
    assert_eq!(config_file_name(), "config");
}
