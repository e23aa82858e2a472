//! The text a frame is built from: the header line, one roster line per
//! pod, and the colour class of a log line. The shell only turns these into
//! widgets; everything the operator reads is decided here.

use vstd::prelude::*;
use crate::classify::Generation;
use crate::session::{PodRecord, PodRecordV};
use crate::text;

verus! {

/// The colour class of a displayed log line.
#[derive(Clone, Copy, PartialEq, Eq, Structural, Debug)]
pub enum LogStyle {
    Error,
    Warn,
    Plain,
}

/// A line mentioning `ERROR` or `FATAL` is shown as an error, one mentioning
/// `WARN` as a warning, any other in the generation's default colour.
pub open spec fn line_style_spec(line: Seq<char>) -> LogStyle {
    if text::contains_seq(line, "ERROR"@) || text::contains_seq(line, "FATAL"@) {
        LogStyle::Error
    } else if text::contains_seq(line, "WARN"@) {
        LogStyle::Warn
    } else {
        LogStyle::Plain
    }
}

/// Picks the colour class of one display line.
pub fn line_style(line: &str) -> (r: LogStyle)
    ensures
        r == line_style_spec(line@),
{
    if text::contains_str(line, "ERROR") || text::contains_str(line, "FATAL") {
        LogStyle::Error
    } else if text::contains_str(line, "WARN") {
        LogStyle::Warn
    } else {
        LogStyle::Plain
    }
}

/// One roster entry as a frame shows it: a generation prefix, the pod name,
/// and its phase.
pub open spec fn pod_line_spec(p: PodRecordV) -> Seq<char> {
    let prefix = if p.generation == Generation::New {
        " [NEW] "@
    } else {
        " [OLD] "@
    };
    prefix + p.name + " -> "@ + p.phase
}

/// Formats one roster entry.
pub fn pod_line(p: &PodRecord) -> (r: String)
    ensures
        r@ == pod_line_spec(p@),
{
    let mut out = match p.generation {
        Generation::New => String::from_str(" [NEW] "),
        Generation::Old => String::from_str(" [OLD] "),
    };
    out.append(p.name.as_str());
    out.append(" -> ");
    out.append(p.phase.as_str());
    out
}

/// The header of every frame: the service, the environment, the deployed
/// tag, and the quit hint.
pub open spec fn header_line_spec(service: Seq<char>, env_name: Seq<char>, tag: Seq<char>) -> Seq<
    char,
> {
    " Davit Rollout: "@ + service + " | Env: "@ + env_name + " | Tag: "@ + tag
        + " (Press 'q' to exit)"@
}

/// Formats the header line.
pub fn header_line(service: &str, env_name: &str, tag: &str) -> (r: String)
    ensures
        r@ == header_line_spec(service@, env_name@, tag@),
{
    let mut out = String::from_str(" Davit Rollout: ");
    out.append(service);
    out.append(" | Env: ");
    out.append(env_name);
    out.append(" | Tag: ");
    out.append(tag);
    out.append(" (Press 'q' to exit)");
    out
}

} // verus!
