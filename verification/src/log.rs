//! `/log`: how much of the log is shown on the terminal.

use vstd::prelude::*;

use crate::text;

verus! {

/// How important a log message is.
#[derive(Debug, Clone, Copy, PartialEq, Eq, Structural)]
pub enum Level {
    Error,
    Warn,
    Info,
    Debug,
    Trace,
}

/// The filter of the log on the terminal.
#[derive(Debug)]
pub struct LogFilter {
    pub filter: String,
}

/// What a `/log` command leads to.
#[derive(Debug)]
pub enum LogStep {
    /// These lines are shown.
    Say(Vec<String>),
    /// The filter was changed.
    Changed { notice: String },
}

/// The rank of a level: the lower, the more important.
pub open spec fn rank(level: Level) -> int {
    match level {
        Level::Error => 1,
        Level::Warn => 2,
        Level::Info => 3,
        Level::Debug => 4,
        Level::Trace => 5,
    }
}

/// The filter that a level in lower case stands for. The two most talkative
/// levels raise only the messages of this program and its library; all others
/// stay at `info`.
pub open spec fn filter_of(level: Seq<char>) -> Option<Seq<char>> {
    if level == "off"@ {
        Some("off"@)
    } else if level == "error"@ {
        Some("error"@)
    } else if level == "warn"@ {
        Some("warn"@)
    } else if level == "info"@ {
        Some("info"@)
    } else if level == "debug"@ {
        Some("ragrig=debug,info"@)
    } else if level == "trace"@ {
        Some("ragrig=trace,info"@)
    } else {
        None
    }
}

/// Whether a message passes a filter. A filter that is none of the known ones
/// counts as `info`.
pub open spec fn passes(filter: Seq<char>, level: Level, target: Seq<char>) -> bool {
    let own = "ragrig"@.is_prefix_of(target);
    if filter == "off"@ {
        false
    } else if filter == "error"@ {
        rank(level) <= rank(Level::Error)
    } else if filter == "warn"@ {
        rank(level) <= rank(Level::Warn)
    } else if filter == "info"@ {
        rank(level) <= rank(Level::Info)
    } else if filter == "debug"@ {
        rank(level) <= rank(Level::Debug)
    } else if filter == "trace"@ {
        true
    } else if filter == "ragrig=debug,info"@ {
        if own {
            rank(level) <= rank(Level::Debug)
        } else {
            rank(level) <= rank(Level::Info)
        }
    } else if filter == "ragrig=trace,info"@ {
        own || rank(level) <= rank(Level::Info)
    } else {
        rank(level) <= rank(Level::Info)
    }
}

/// What setting a level in lower case leads to.
pub open spec fn sets(before: Seq<char>, after: Seq<char>, level: Seq<char>, r: LogStep) -> bool {
    match filter_of(level) {
        Some(f) => after == f && (r matches LogStep::Changed { notice } && notice@
            == "Interactive log level set to "@ + level + "."@),
        None => after == before && (r matches LogStep::Say(v) && text::texts(v@) =~= seq![
            "Unknown log level '"@ + level + "'. Use off, error, warn, info, debug, or trace."@,
        ]),
    }
}

/// What a `/log` command leads to.
pub open spec fn log_step(before: Seq<char>, after: Seq<char>, args: Seq<char>, r: LogStep) -> bool {
    let level = text::lowercase_of(text::trimmed(args));
    if level.len() == 0 {
        after == before && (r matches LogStep::Say(v) && text::texts(v@) =~= seq![
            "Interactive log level: "@ + before
                + " — change with /log <off|error|warn|info|debug|trace>"@,
        ])
    } else {
        sets(before, after, level, r)
    }
}

/// The filters that `/log` can set.
pub open spec fn is_settable(filter: Seq<char>) -> bool {
    filter == "off"@ || filter == "error"@ || filter == "warn"@ || filter == "info"@ || filter
        == "ragrig=debug,info"@ || filter == "ragrig=trace,info"@
}

/// A `/log` command leaves the filter as it was or sets one of the six that
/// can be set.
pub proof fn law_filter_is_kept_or_settable(
    before: Seq<char>,
    after: Seq<char>,
    args: Seq<char>,
    r: LogStep,
)
    requires
        log_step(before, after, args, r),
    ensures
        after == before || is_settable(after),
{
}

/// `debug` and `trace` show more of this program and its library only: other
/// messages pass exactly as they do at `info`.
pub proof fn law_other_targets_stay_at_info(level: Level, target: Seq<char>)
    requires
        !"ragrig"@.is_prefix_of(target),
    ensures
        passes(filter_of("debug"@)->Some_0, level, target) == passes("info"@, level, target),
        passes(filter_of("trace"@)->Some_0, level, target) == passes("info"@, level, target),
{
    lemma_levels_differ();
}

/// Each of the settable levels, from `off` to `trace`, shows all that the one
/// before it shows.
pub proof fn law_levels_grow(level: Level, target: Seq<char>)
    ensures
        !passes(filter_of("off"@)->Some_0, level, target),
        passes(filter_of("error"@)->Some_0, level, target) ==> passes(
            filter_of("warn"@)->Some_0,
            level,
            target,
        ),
        passes(filter_of("warn"@)->Some_0, level, target) ==> passes(
            filter_of("info"@)->Some_0,
            level,
            target,
        ),
        passes(filter_of("info"@)->Some_0, level, target) ==> passes(
            filter_of("debug"@)->Some_0,
            level,
            target,
        ),
        passes(filter_of("debug"@)->Some_0, level, target) ==> passes(
            filter_of("trace"@)->Some_0,
            level,
            target,
        ),
{
    lemma_levels_differ();
}

/// After `/log` with a level, exactly the messages of this program and its library
/// pass that are at least as important as the level; of others, none that is less
/// important than `info` passes.
pub proof fn law_levels_let_pass_what_they_say(
    before: Seq<char>,
    after: Seq<char>,
    args: Seq<char>,
    r: LogStep,
    level: Level,
    target: Seq<char>,
)
    requires
        log_step(before, after, args, r),
    ensures
        ({
            let word = text::lowercase_of(text::trimmed(args));
            let own = "ragrig"@.is_prefix_of(target);
            &&& word == "off"@ ==> !passes(after, level, target)
            &&& word == "error"@ ==> (passes(after, level, target) <==> level == Level::Error)
            &&& word == "warn"@ ==> (passes(after, level, target) <==> level == Level::Error || level
                == Level::Warn)
            &&& word == "info"@ ==> (passes(after, level, target) <==> level == Level::Error || level
                == Level::Warn || level == Level::Info)
            &&& word == "debug"@ && own ==> (passes(after, level, target) <==> level != Level::Trace)
            &&& word == "trace"@ && own ==> passes(after, level, target)
            &&& (word == "debug"@ || word == "trace"@) && !own ==> (passes(after, level, target)
                <==> level == Level::Error || level == Level::Warn || level == Level::Info)
            &&& word != "off"@ && word != "error"@ && word != "warn"@ && word != "info"@ && word
                != "debug"@ && word != "trace"@ ==> after == before && r is Say
        }),
{
    lemma_levels_differ();
}

/// `/log` alone shows the filter in use and keeps it; a level that was set is named,
/// and so is a word that is none.
pub proof fn law_the_filter_is_shown(
    before: Seq<char>,
    after: Seq<char>,
    args: Seq<char>,
    r: LogStep,
)
    ensures
        text::lowercase_of(text::trimmed(args)).len() == 0 && log_step(before, after, args, r)
            ==> after == before && (r matches LogStep::Say(v) && v@.len() == 1 && v@[0]@ == "Interactive log level: "@ + before
            + " — change with /log <off|error|warn|info|debug|trace>"@),
        log_step(before, after, args, r) ==> (r matches LogStep::Changed { notice } ==> notice@
            == "Interactive log level set to "@ + text::lowercase_of(text::trimmed(args)) + "."@),
{
    if let LogStep::Say(v) = r {
        assert(text::texts(v@).len() == v@.len());
        if v@.len() == 1 {
            assert(text::texts(v@)[0] == v@[0]@);
        }
    }
}

/// The plain filters let pass what they say, of every program; a filter that is not
/// known counts as `info`.
pub proof fn law_plain_filters_are_for_all(filter: Seq<char>, level: Level, target: Seq<char>)
    ensures
        passes("debug"@, level, target) <==> level != Level::Trace,
        passes("trace"@, level, target),
        filter != "off"@ && filter != "error"@ && filter != "warn"@ && filter != "info"@ && filter
            != "debug"@ && filter != "trace"@ && filter != "ragrig=debug,info"@ && filter
            != "ragrig=trace,info"@ ==> (passes(filter, level, target) <==> passes(
            "info"@,
            level,
            target,
        )),
        passes("info"@, level, target) <==> level == Level::Error || level == Level::Warn || level
            == Level::Info,
{
    lemma_levels_differ();
}

/// The level names and the filters are different texts.
proof fn lemma_levels_differ()
    ensures
        "off"@.len() == 3,
        "error"@.len() == 5,
        "warn"@.len() == 4,
        "info"@.len() == 4,
        "warn"@[0] != "info"@[0],
        "debug"@.len() == 5,
        "trace"@.len() == 5,
        "error"@[0] == 'e',
        "debug"@[0] == 'd',
        "trace"@[0] == 't',
        "ragrig=debug,info"@.len() == 17,
        "ragrig=trace,info"@.len() == 17,
        "ragrig=debug,info"@[7] != "ragrig=trace,info"@[7],
{
    reveal_strlit("off");
    reveal_strlit("error");
    reveal_strlit("warn");
    reveal_strlit("info");
    reveal_strlit("debug");
    reveal_strlit("trace");
    reveal_strlit("ragrig=debug,info");
    reveal_strlit("ragrig=trace,info");
}

/// The rank of a level: the lower, the more important.
fn rank_of(level: Level) -> (r: u8)
    ensures
        r == rank(level),
{
    match level {
        Level::Error => 1,
        Level::Warn => 2,
        Level::Info => 3,
        Level::Debug => 4,
        Level::Trace => 5,
    }
}

/// Whether a log message with that level and target is shown.
pub fn allows(filter: &str, level: Level, target: &str) -> (r: bool)
    ensures
        r == passes(filter@, level, target@),
{
    let rank: u8 = rank_of(level);
    if text::same(filter, "off") {
        false
    } else if text::same(filter, "error") {
        rank <= 1
    } else if text::same(filter, "warn") {
        rank <= 2
    } else if text::same(filter, "info") {
        rank <= 3
    } else if text::same(filter, "debug") {
        rank <= 4
    } else if text::same(filter, "trace") {
        true
    } else if text::same(filter, "ragrig=debug,info") {
        if text::starts_with(target, "ragrig") {
            rank <= 4
        } else {
            rank <= 3
        }
    } else if text::same(filter, "ragrig=trace,info") {
        text::starts_with(target, "ragrig") || rank <= 3
    } else {
        rank <= 3
    }
}

impl LogFilter {
    /// Sets the level, which is given in lower case.
    pub fn set_level(&mut self, level: &str) -> (r: LogStep)
        ensures
            sets(old(self).filter@, final(self).filter@, level@, r),
    {
        let filter = if text::same(level, "off") {
            "off"
        } else if text::same(level, "error") {
            "error"
        } else if text::same(level, "warn") {
            "warn"
        } else if text::same(level, "info") {
            "info"
        } else if text::same(level, "debug") {
            "ragrig=debug,info"
        } else if text::same(level, "trace") {
            "ragrig=trace,info"
        } else {
            let mut m = "Unknown log level '".to_string();
            m.append(level);
            m.append("'. Use off, error, warn, info, debug, or trace.");
            return LogStep::Say(vec![m]);
        };
        self.filter = filter.to_string();
        let mut notice = "Interactive log level set to ".to_string();
        notice.append(level);
        notice.append(".");
        LogStep::Changed { notice }
    }

    /// `/log [level]`: shows or sets the level.
    pub fn cmd_log(&mut self, args: &str) -> (r: LogStep)
        ensures
            log_step(old(self).filter@, final(self).filter@, args@, r),
    {
        let trimmed = text::trim(args);
        let level = trimmed.as_str().to_lowercase();
        if level.as_str().is_empty() {
            let mut m = "Interactive log level: ".to_string();
            m.append(self.filter.as_str());
            m.append(" — change with /log <off|error|warn|info|debug|trace>");
            return LogStep::Say(vec![m]);
        }
        self.set_level(level.as_str())
    }
}

} // verus!
