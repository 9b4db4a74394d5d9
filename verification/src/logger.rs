//! The in-memory log that the user interface shows: the latest messages of
//! this application, at most `MAX_LOG_ENTRIES` of them.
use vstd::prelude::*;

use std::collections::VecDeque;

use crate::pcb::parser::text::chars_of;

verus! {

#[verifier::external_type_specification]
#[verifier::external_body]
pub struct ExLevel(log::Level);

/// `log::Level` derives `Clone` beside `Copy`: its `clone` returns the same
/// level.
pub assume_specification[ <log::Level as Clone>::clone ](level: &log::Level) -> (r: log::Level)
    ensures
        r == *level,
;

/// One line of the log panel.
#[derive(Debug, Clone)]
pub struct LogEntry {
    pub level: log::Level,
    pub message: String,
}

/// How many entries the log panel keeps.
pub const MAX_LOG_ENTRIES: usize = 100;

/// Records whose target starts with this come from the application itself.
pub open spec fn app_target_prefix() -> Seq<char> {
    "coppercrab"@
}

pub open spec fn spec_starts_with(s: Seq<char>, prefix: Seq<char>) -> bool {
    prefix.len() <= s.len() && s.take(prefix.len() as int) == prefix
}

/// The text the log panel shows for a record: `[target] text`.
pub open spec fn spec_log_message(target: Seq<char>, text: Seq<char>) -> Seq<char> {
    "["@ + target + "] "@ + text
}

/// The entries kept when one more is added to `entries`.
pub open spec fn kept_before_push(entries: Seq<LogEntry>) -> Seq<LogEntry> {
    if entries.len() >= MAX_LOG_ENTRIES {
        entries.drop_first()
    } else {
        entries
    }
}

fn starts_with(s: &Vec<char>, prefix: &Vec<char>) -> (b: bool)
    ensures
        b == spec_starts_with(s@, prefix@),
{
    if prefix.len() > s.len() {
        return false;
    }
    let mut i: usize = 0;
    while i < prefix.len()
        invariant
            prefix.len() <= s.len(),
            i <= prefix.len(),
            forall|k: int| 0 <= k < i ==> s@[k] == prefix@[k],
        decreases prefix.len() - i,
    {
        if s[i] != prefix[i] {
            assert(s@.take(prefix.len() as int)[i as int] != prefix@[i as int]);
            return false;
        }
        i = i + 1;
    }
    assert(s@.take(prefix.len() as int) =~= prefix@);
    true
}

/// Formats a record as the log panel shows it.
pub fn log_message(target: &str, text: &str) -> (message: String)
    ensures
        message@ == spec_log_message(target@, text@),
{
    let mut message = <String as StringExecFns>::from_str("[");
    message.append(target);
    message.append("] ");
    message.append(text);
    message
}

/// Adds a record to the log panel's buffer when it comes from the
/// application (its target starts with `coppercrab`), dropping the oldest
/// entry once more than `MAX_LOG_ENTRIES` are held. Records of other
/// targets leave the buffer as it is.
pub fn record_log(buffer: &mut VecDeque<LogEntry>, level: log::Level, target: &str, text: &str)
    ensures
        if spec_starts_with(target@, app_target_prefix()) {
            &&& final(buffer)@.len() == kept_before_push(old(buffer)@).len() + 1
            &&& final(buffer)@.drop_last() == kept_before_push(old(buffer)@)
            &&& final(buffer)@.last().level == level
            &&& final(buffer)@.last().message@ == spec_log_message(target@, text@)
        } else {
            final(buffer)@ == old(buffer)@
        },
        old(buffer)@.len() <= MAX_LOG_ENTRIES ==> final(buffer)@.len() <= MAX_LOG_ENTRIES,
        spec_starts_with(target@, app_target_prefix()) && old(buffer)@.len() < MAX_LOG_ENTRIES
            ==> final(buffer)@.drop_last() == old(buffer)@,
        spec_starts_with(target@, app_target_prefix()) && old(buffer)@.len() >= MAX_LOG_ENTRIES
            ==> final(buffer)@.drop_last() == old(buffer)@.drop_first(),
{
    let t = chars_of(target);
    let prefix = chars_of("coppercrab");
    if !starts_with(&t, &prefix) {
        return ;
    }
    let ghost before = buffer@;
    let message = log_message(target, text);
    buffer.push_back(LogEntry { level, message });
    if buffer.len() > MAX_LOG_ENTRIES {
        let _ = buffer.pop_front();
    }
    assert(buffer@.drop_last() =~= kept_before_push(before));
}

} // verus!
