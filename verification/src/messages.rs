//! Every text the tool shows: the usage lines, the status and guidance
//! messages, and the prompts, each pinned to its exact wording.

use vstd::prelude::*;
use vstd::string::StringExecFns;
use crate::commands::strings_view;

verus! {

/// The usage text, line by line.
pub open spec fn spec_help_lines() -> Seq<Seq<char>> {
    seq![
        "ATS CLI Help"@,
        "Usage:"@,
        "  ats help               Display this help message."@,
        "  ats configure          Configure the application."@,
        "  ats configure list     List current configuration."@,
        "  ats reset              Reset (delete) the configuration."@,
    ]
}

/// The usage text that `help` — and a run with no arguments — prints.
pub fn help_lines() -> (out: Vec<String>)
    ensures
        strings_view(out@) == spec_help_lines(),
{
    let mut out: Vec<String> = Vec::new();
    out.push(String::from_str("ATS CLI Help"));
    out.push(String::from_str("Usage:"));
    out.push(String::from_str("  ats help               Display this help message."));
    out.push(String::from_str("  ats configure          Configure the application."));
    out.push(String::from_str("  ats configure list     List current configuration."));
    out.push(String::from_str("  ats reset              Reset (delete) the configuration."));
    proof {
        assert(strings_view(out@) =~~= spec_help_lines());
    }
    out
}

/// Shown when an unrecognized subcommand is given.
pub fn msg_unknown_command() -> (s: String)
    ensures
        s@ == "Unknown command. Use 'ats help' for usage information."@,
{
    String::from_str("Unknown command. Use 'ats help' for usage information.")
}

/// Shown after `configure` has written the store.
pub fn msg_saved() -> (s: String)
    ensures
        s@ == "Configuration saved."@,
{
    String::from_str("Configuration saved.")
}

/// Guidance when a command needs the store and none exists yet.
pub fn msg_missing_config() -> (s: String)
    ensures
        s@
            == "Configuration file does not exist. Please run 'ats configure' to set up the application."@,
{
    String::from_str(
        "Configuration file does not exist. Please run 'ats configure' to set up the application.",
    )
}

/// Shown after a confirmed `reset` has deleted the store.
pub fn msg_reset_done() -> (s: String)
    ensures
        s@ == "Configuration reset successfully."@,
{
    String::from_str("Configuration reset successfully.")
}

/// Shown when the `reset` confirmation was declined.
pub fn msg_reset_aborted() -> (s: String)
    ensures
        s@ == "Configuration reset aborted."@,
{
    String::from_str("Configuration reset aborted.")
}

/// The confirmation prompt of `reset`.
pub fn prompt_reset() -> (s: String)
    ensures
        s@ == "Delete config file? (y/N)"@,
{
    String::from_str("Delete config file? (y/N)")
}

/// The headline printed before one provider's prompts.
pub fn configuring_header(provider: &str) -> (s: String)
    ensures
        s@ == "Configuring "@ + provider@ + ":"@,
{
    let mut s = String::from_str("Configuring ");
    s.append(provider);
    s.append(":");
    s
}

/// The prompt for a provider's profile name.
pub fn prompt_profile(provider: &str) -> (s: String)
    ensures
        s@ == "Enter profile name for "@ + provider@ + " (press enter to skip): "@,
{
    let mut s = String::from_str("Enter profile name for ");
    s.append(provider);
    s.append(" (press enter to skip): ");
    s
}

/// The prompt for a provider's upload bucket.
pub fn prompt_upload(provider: &str) -> (s: String)
    ensures
        s@ == "Enter upload bucket for "@ + provider@ + " (press enter to skip): "@,
{
    let mut s = String::from_str("Enter upload bucket for ");
    s.append(provider);
    s.append(" (press enter to skip): ");
    s
}

/// The prompt for a provider's download bucket.
pub fn prompt_download(provider: &str) -> (s: String)
    ensures
        s@ == "Enter download bucket for "@ + provider@ + " (press enter to skip): "@,
{
    let mut s = String::from_str("Enter download bucket for ");
    s.append(provider);
    s.append(" (press enter to skip): ");
    s
}

/// The per-user directory, under the home directory, that holds the store.
pub fn config_dir_name() -> (s: String)
    ensures
        s@ == ".ats"@,
{
    String::from_str(".ats")
}

/// The store's file name inside the configuration directory.
pub fn config_file_name() -> (s: String)
    ensures
        s@ == "config"@,
{
    String::from_str("config")
}

} // verus!
