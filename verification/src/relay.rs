use vstd::prelude::*;
use crate::message::{OutputLevel, RobloxMessage, RobloxMessageView};

verus! {

/// How one forwarded line is rendered at the sink.
#[derive(Clone, Copy, Debug, PartialEq, Eq, Structural)]
pub enum SinkLevel {
    Informational,
    Warning,
    Error,
}

/// Severity-to-sink mapping: Print and Info are informational, Warning is a
/// warning, Error and ScriptError are errors.
pub open spec fn spec_sink_level(level: OutputLevel) -> SinkLevel {
    match level {
        OutputLevel::Print => SinkLevel::Informational,
        OutputLevel::Info => SinkLevel::Informational,
        OutputLevel::Warning => SinkLevel::Warning,
        OutputLevel::Error => SinkLevel::Error,
        OutputLevel::ScriptError => SinkLevel::Error,
    }
}

/// The sink level for one diagnostic severity.
pub fn sink_level(level: OutputLevel) -> (r: SinkLevel)
    ensures
        r == spec_sink_level(level),
{
    match level {
        OutputLevel::Print => SinkLevel::Informational,
        OutputLevel::Info => SinkLevel::Informational,
        OutputLevel::Warning => SinkLevel::Warning,
        OutputLevel::Error => SinkLevel::Error,
        OutputLevel::ScriptError => SinkLevel::Error,
    }
}

/// The exit code after one more forwarded line: latched to 1 on the first
/// ScriptError, otherwise unchanged.
pub open spec fn spec_observe(code: int, message: RobloxMessageView) -> int {
    if message.level == OutputLevel::ScriptError {
        1
    } else {
        code
    }
}

/// The exit code after a whole forwarded stream, observed in order.
pub open spec fn spec_observe_all(code: int, messages: Seq<RobloxMessageView>) -> int
    decreases messages.len(),
{
    if messages.len() == 0 {
        code
    } else {
        spec_observe(spec_observe_all(code, messages.drop_last()), messages.last())
    }
}

/// Whether some line of a forwarded stream reports a script error.
pub open spec fn has_script_error(messages: Seq<RobloxMessageView>) -> bool {
    exists|i: int|
        0 <= i < messages.len() && #[trigger] messages[i].level == OutputLevel::ScriptError
}

/// Law: over any forwarded stream the exit code is latched, never reset:
/// from any starting code it ends at 1 exactly when some line of the stream
/// is a ScriptError, and otherwise stays what it was.
pub proof fn lemma_exit_code_latched(code: int, messages: Seq<RobloxMessageView>)
    ensures
        spec_observe_all(code, messages) == if has_script_error(messages) {
            1int
        } else {
            code
        },
    decreases messages.len(),
{
    if messages.len() == 0 {
    } else {
        lemma_exit_code_latched(code, messages.drop_last());
        if messages.last().level == OutputLevel::ScriptError {
            assert(messages[messages.len() - 1].level == OutputLevel::ScriptError);
            assert(has_script_error(messages));
        } else {
            if has_script_error(messages) {
                let i = choose|i: int|
                    0 <= i < messages.len() && #[trigger] messages[i].level
                        == OutputLevel::ScriptError;
                assert(messages.drop_last()[i] == messages[i]);
                assert(has_script_error(messages.drop_last()));
            }
            if has_script_error(messages.drop_last()) {
                let i = choose|i: int|
                    0 <= i < messages.drop_last().len() && #[trigger] messages.drop_last()[i].level
                        == OutputLevel::ScriptError;
                assert(messages[i] == messages.drop_last()[i]);
                assert(has_script_error(messages));
            }
        }
    }
}

/// Law: a forwarded stream ends with exit code 1 exactly when it carried at
/// least one ScriptError line, and with 0 otherwise.
pub proof fn lemma_exit_code_iff_script_error(messages: Seq<RobloxMessageView>)
    ensures
        spec_observe_all(0, messages) == if has_script_error(messages) {
            1int
        } else {
            0int
        },
{
    lemma_exit_code_latched(0, messages);
}

/// Single-pass consumer of the forwarded line stream: holds the run's exit
/// code, 0 until the first ScriptError and 1 from then on.
pub struct OutputRelay {
    exit_code: i32,
}

impl View for OutputRelay {
    type V = int;

    closed spec fn view(&self) -> int {
        self.exit_code as int
    }
}

impl OutputRelay {
    /// The exit code is always 0 or 1.
    pub open spec fn wf(&self) -> bool {
        self@ == 0 || self@ == 1
    }

    pub fn new() -> (r: Self)
        ensures
            r.wf(),
            r@ == 0,
    {
        OutputRelay { exit_code: 0 }
    }

    /// The exit code observed so far.
    pub fn exit_code(&self) -> (r: i32)
        ensures
            r as int == self@,
    {
        self.exit_code
    }

    /// Observe one forwarded line: latch the exit code to 1 on a
    /// ScriptError, leave it untouched otherwise.
    pub fn observe(&mut self, message: &RobloxMessage)
        requires
            old(self).wf(),
        ensures
            final(self).wf(),
            final(self)@ == spec_observe(old(self)@, message@),
    {
        let RobloxMessage::Output { level, body: _, server: _ } = message;
        if *level == OutputLevel::ScriptError {
            self.exit_code = 1;
        }
    }

    /// Observe a batch of forwarded lines in their order.
    pub fn observe_all(&mut self, messages: &Vec<RobloxMessage>)
        requires
            old(self).wf(),
        ensures
            final(self).wf(),
            final(self)@ == spec_observe_all(old(self)@, messages.deep_view()),
    {
        let n: usize = messages.len();
        let mut i: usize = 0;
        while i < n
            invariant
                i <= n,
                n == messages@.len(),
                self.wf(),
                self@ == spec_observe_all(old(self)@, messages.deep_view().take(i as int)),
            decreases n - i,
        {
            let ghost prefix = messages.deep_view().take(i as int);
            self.observe(&messages[i]);
            proof {
                let next = messages.deep_view().take(i + 1int);
                assert(next.drop_last() =~= prefix);
                assert(next.last() == messages.deep_view()[i as int]);
            }
            i = i + 1;
        }
        proof {
            assert(messages.deep_view().take(n as int) =~= messages.deep_view());
        }
    }
}

/// The sink tag for one instance: the fixed prefix then the first seven
/// characters of the instance's self-declared identifier, disambiguating
/// multi-instance output.
pub fn format_target(server: &str) -> (r: String)
    requires
        server@.len() >= 7,
    ensures
        r@ == "studio-"@ + server@.subrange(0, 7),
{
    let mut r: String = String::from_str("studio-");
    let prefix: &str = server.substring_char(0, 7);
    r.append(prefix);
    r
}

} // verus!
