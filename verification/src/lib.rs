//! The rules behind a command-line tool that looks into a cluster: it
//! reports on pods, resources, configuration maps and secrets, and it
//! follows the logs of several services at once.
//!
//! The library computes and decides; it never talks to the cluster and
//! never prints. Its caller reads the cluster, hands over what it read as
//! plain values, and prints the lines that come back.
//!
//! - [`cli_args`]: the arguments of the command line, and which service
//!   arguments are accepted.
//! - [`logs`]: following logs, from the targets to the lines shown.
//! - [`pods`], [`cpumem`], [`configmap`], [`secret`]: the four reports.
//! - [`report`], [`paint`], [`text`]: what the reports share.
//! - [`errors`]: the failures that end a run.
//!
//! This file holds what a run learns from its surroundings: the label of
//! the execution context and the two values it looks up in the
//! environment.

use crate::errors::MacgyverCmdErrors;
use crate::text::same_text;
use vstd::prelude::*;
use vstd::string::*;

pub mod cli_args;
pub mod configmap;
pub mod cpumem;
pub mod errors;
pub mod logs;
pub mod paint;
pub mod pods;
pub mod report;
pub mod secret;
pub mod text;

verus! {

/// The phrase that unlocks the report on secrets.
pub const PASSCHECK: &'static str = "This-is-my-pass-phrase";

/// What `s` becomes when each of its characters is put in upper case, as
/// the standard library maps them.
pub uninterp spec fn uppercase_of(s: Seq<char>) -> Seq<char>;

/// The upper-case form of `s`.
///
/// Rests on `str::to_uppercase` of the standard library. The mapping is a
/// table of the Unicode standard, so the result is named, not spelled out.
#[verifier::external_body]
fn to_uppercase(s: &str) -> (upper: String)
    ensures
        upper@ == uppercase_of(s@),
{
    s.to_uppercase()
}

/// The label of the execution context: the given name, or `N/A` where the
/// configuration names no current context.
pub fn context_label(name: Option<String>) -> (label: String)
    ensures
        label@ == match name {
            Some(n) => n@,
            None => "N/A"@,
        },
{
    match name {
        Some(n) => n,
        None => "N/A".to_owned(),
    }
}

/// The label under which the run reports, from what reading the cluster
/// configuration gave: its current context in upper case, `N/A` where it
/// has none, or the failure to read it.
pub fn get_k8s_env(config: Result<Option<String>, String>) -> (label: Result<
    String,
    MacgyverCmdErrors,
>)
    ensures
        match config {
            Ok(Some(context)) => label matches Ok(l) && l@ == uppercase_of(context@),
            Ok(None) => label matches Ok(l) && l@ == "N/A"@,
            Err(cause) => label matches Err(MacgyverCmdErrors::KubeConfig(c)) && c@ == cause@,
        },
{
    match config {
        Ok(Some(context)) => Ok(context_label(Some(to_uppercase(context.as_str())))),
        Ok(None) => Ok(context_label(None)),
        Err(cause) => Err(MacgyverCmdErrors::KubeConfig(cause)),
    }
}

/// Whether the pass phrase found in the environment unlocks the report on
/// secrets: it does when it is present and equal to [`PASSCHECK`].
pub fn check_secret(found: Option<String>) -> (checked: Result<(), MacgyverCmdErrors>)
    ensures
        checked is Ok <==> (found matches Some(phrase) && phrase@ == PASSCHECK@),
        checked matches Err(e) ==> e matches MacgyverCmdErrors::CliParameterMissing(m) && m@
            == "Missing/Invalid env var MACGYVER_CMD_SECRET_CHECK"@,
{
    match found {
        Some(phrase) if same_text(phrase.as_str(), PASSCHECK) => Ok(()),
        _ => Err(
            MacgyverCmdErrors::CliParameterMissing(
                "Missing/Invalid env var MACGYVER_CMD_SECRET_CHECK".to_owned(),
            ),
        ),
    }
}

/// The GitLab token found in the environment, or the failure that none was
/// found.
pub fn check_gitlab_token(found: Option<String>) -> (token: Result<String, MacgyverCmdErrors>)
    ensures
        match found {
            Some(t) => token matches Ok(out) && out@ == t@,
            None => token matches Err(MacgyverCmdErrors::CliParameterMissing(m)) && m@
                == "Missing env var MACGYVER_CMD_GITLAB_TOKEN"@,
        },
{
    match found {
        Some(t) => Ok(t),
        None => Err(
            MacgyverCmdErrors::CliParameterMissing(
                "Missing env var MACGYVER_CMD_GITLAB_TOKEN".to_owned(),
            ),
        ),
    }
}

} // verus!
