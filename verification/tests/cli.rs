use ats::commands::dispatch;
use ats::commands::Action;
use ats::messages::help_lines;
use ats::messages::msg_unknown_command;
use ats::commands::providers;

fn args(list: &[&str]) -> Vec<String> {
    list.iter().map(|s| s.to_string()).collect()
}

#[test]
fn no_arguments_and_help_pick_the_same_action() {
    let bare = dispatch(&args(&["ats"]));
    let help = dispatch(&args(&["ats", "help"]));
    assert_eq!(bare, Action::Help);
    assert_eq!(help, Action::Help);
    assert_eq!(bare, help);
}

#[test]
fn help_text_is_the_usage_text() {
    let lines = help_lines();
    assert_eq!(lines.len(), 6);
    assert_eq!(lines[0], "ATS CLI Help");
    assert_eq!(lines[1], "Usage:");
    assert_eq!(lines[2], "  ats help               Display this help message.");
    assert_eq!(lines[3], "  ats configure          Configure the application.");
    assert_eq!(lines[4], "  ats configure list     List current configuration.");
    assert_eq!(lines[5], "  ats reset              Reset (delete) the configuration.");
}

#[test]
fn configure_is_dispatched() {
    assert_eq!(dispatch(&args(&["ats", "configure"])), Action::Configure);
}

#[test]
fn configure_with_stray_argument_still_configures() {
    assert_eq!(dispatch(&args(&["ats", "configure", "now"])), Action::Configure);
}

#[test]
fn configure_list_is_dispatched() {
    assert_eq!(dispatch(&args(&["ats", "configure", "list"])), Action::ConfigureList);
}

#[test]
fn reset_is_dispatched() {
    assert_eq!(dispatch(&args(&["ats", "reset"])), Action::Reset);
}

#[test]
fn unknown_commands_are_reported() {
    assert_eq!(dispatch(&args(&["ats", "bogus"])), Action::Unknown);
    assert_eq!(
        msg_unknown_command(),
        "Unknown command. Use 'ats help' for usage information."
    );
}

#[test]
fn provider_list_is_fixed() {
    let ps = providers();
    assert_eq!(ps, vec!["AWS".to_string(), "Google".to_string()]);
}
