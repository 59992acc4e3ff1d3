//! Launching applications: the commands to run, and the decisions of the
//! wait for an application that was launched.

use vstd::prelude::*;
use vstd::string::StringExecFns;

use crate::text::{chars_of, string_of, trim_bounds, trimmed};
use crate::WindowRestoreError;

verus! {

/// What follows a poll of an application that was launched.
#[derive(Debug, Clone, Copy, PartialEq, Eq, Structural)]
pub enum WaitStep {
    /// The application runs: the wait is over.
    Ready,
    /// The application does not run and the time is up: the wait is over.
    TimedOut,
    /// The application does not run yet: pause, then poll again.
    PollAgain,
}

/// By how much a pause between two polls advances the time waited: by the
/// poll interval, and by one where the interval is zero, so that the wait
/// ends.
pub open spec fn poll_advance(poll_ms: u64) -> int {
    if poll_ms == 0 {
        1
    } else {
        poll_ms as int
    }
}

/// Whether an application that was launched `waited_ms` ago is still asked
/// whether it runs: it is while the time waited is below `timeout_ms`. So
/// with a timeout of zero no poll is made at all.
pub open spec fn wait_allows_poll(waited_ms: u64, timeout_ms: u64) -> bool {
    waited_ms < timeout_ms
}

/// What follows a poll after `waited_ms`. Once the time is up the wait has
/// timed out, whatever the application reports. Before that it is over when
/// the application runs, and it goes on while the pauses made and the next
/// one add up to less than `timeout_ms`.
pub open spec fn wait_step(running: bool, waited_ms: u64, timeout_ms: u64, poll_ms: u64) -> WaitStep {
    if !wait_allows_poll(waited_ms, timeout_ms) {
        WaitStep::TimedOut
    } else if running {
        WaitStep::Ready
    } else if waited_ms + poll_advance(poll_ms) >= timeout_ms {
        WaitStep::TimedOut
    } else {
        WaitStep::PollAgain
    }
}

/// The course of a whole wait that begins after `waited_ms`, where the polls
/// are answered by `answers` in order: how it ends, and how many polls it
/// makes. It ends in `PollAgain` where the answers run out before it is
/// over.
pub open spec fn wait_course(answers: Seq<bool>, waited_ms: u64, timeout_ms: u64, poll_ms: u64) -> (
    WaitStep,
    nat,
)
    decreases timeout_ms - waited_ms,
{
    if !wait_allows_poll(waited_ms, timeout_ms) {
        (WaitStep::TimedOut, 0)
    } else if answers.len() == 0 {
        (WaitStep::PollAgain, 0)
    } else {
        match wait_step(answers[0], waited_ms, timeout_ms, poll_ms) {
            WaitStep::PollAgain => {
                let rest = wait_course(
                    answers.drop_first(),
                    (waited_ms + poll_advance(poll_ms)) as u64,
                    timeout_ms,
                    poll_ms,
                );
                (rest.0, rest.1 + 1)
            },
            end => (end, 1),
        }
    }
}

/// A wait is bounded and stops at the first poll that is answered with
/// yes. With a timeout of zero it makes no poll and times out. Else it polls
/// after 0, 1, 2, ... pauses for as long as the pauses made stay below the
/// timeout, so at most as often as the pause goes into the timeout, rounded
/// up. It ends ready exactly when its last poll is answered with yes, and no
/// poll before the last is.
pub proof fn law_wait_is_bounded(answers: Seq<bool>, waited_ms: u64, timeout_ms: u64, poll_ms: u64)
    ensures
        ({
            let (end, polls) = wait_course(answers, waited_ms, timeout_ms, poll_ms);
            let pause = poll_advance(poll_ms);
            &&& polls <= answers.len()
            &&& !wait_allows_poll(waited_ms, timeout_ms) ==> polls == 0 && end == WaitStep::TimedOut
            &&& polls >= 1 ==> waited_ms + (polls - 1) * pause < timeout_ms
            &&& forall|i: int| 0 <= i < polls - 1 ==> !answers[i]
            &&& end == WaitStep::Ready <==> polls >= 1 && answers[polls - 1]
            &&& end == WaitStep::TimedOut ==> waited_ms + polls * pause >= timeout_ms
            &&& end == WaitStep::PollAgain ==> polls == answers.len()
        }),
    decreases timeout_ms - waited_ms,
{
    let pause = poll_advance(poll_ms);
    if wait_allows_poll(waited_ms, timeout_ms) && answers.len() > 0 {
        if wait_step(answers[0], waited_ms, timeout_ms, poll_ms) == WaitStep::PollAgain {
            let later = (waited_ms + pause) as u64;
            let rest = answers.drop_first();
            law_wait_is_bounded(rest, later, timeout_ms, poll_ms);
            let (end, polls) = wait_course(rest, later, timeout_ms, poll_ms);
            assert(later + (polls - 1) * pause == waited_ms + polls * pause) by (nonlinear_arith)
                requires
                    later == waited_ms + pause,
            ;
            assert(later + polls * pause == waited_ms + (polls + 1) * pause) by (nonlinear_arith)
                requires
                    later == waited_ms + pause,
            ;
            assert forall|i: int| 0 <= i < polls implies !answers[i] by {
                if i > 0 {
                    assert(rest[i - 1] == answers[i]);
                }
            }
            if polls >= 1 {
                assert(rest[polls - 1] == answers[polls as int]);
            }
        } else {
            assert(waited_ms + 0 * pause == waited_ms) by (nonlinear_arith);
            assert(1 * pause == pause) by (nonlinear_arith);
        }
    } else {
        assert(0 * pause == 0) by (nonlinear_arith);
    }
}

/// The words of the command that launches the application `bundle_id`.
pub open spec fn launch_words(bundle_id: Seq<char>) -> Seq<Seq<char>> {
    seq!["open"@, "-b"@, bundle_id]
}

/// The words of the command that succeeds exactly when a process of the
/// application `bundle_id` runs.
pub open spec fn query_words(bundle_id: Seq<char>) -> Seq<Seq<char>> {
    seq!["pgrep"@, "-f"@, bundle_id]
}

/// The text that reports a launch that was refused.
pub open spec fn launch_refusal(bundle_id: Seq<char>, detail: Seq<char>) -> Seq<char> {
    "Failed to launch app "@ + bundle_id + ": "@ + detail
}

/// The views of the strings, in order.
pub open spec fn words(strings: Seq<String>) -> Seq<Seq<char>> {
    Seq::new(strings.len(), |i: int| strings[i]@)
}

/// The index of the first line feed at or after `from`, or the length of
/// `text` where there is none.
pub open spec fn line_end(text: Seq<char>, from: int) -> int
    decreases text.len() - from,
{
    if from < 0 || from >= text.len() {
        text.len() as int
    } else if text[from] == '\n' {
        from
    } else {
        line_end(text, from + 1)
    }
}

/// The names that a process listing holds from `from` on: its lines,
/// trimmed, without those of which nothing is left.
pub open spec fn listed_names(text: Seq<char>, from: int) -> Seq<Seq<char>>
    decreases text.len() - from,
{
    if from < 0 || from >= text.len() {
        Seq::empty()
    } else {
        let end = line_end(text, from);
        let name = trimmed(text.subrange(from, end));
        let rest = if from <= end < text.len() {
            listed_names(text, end + 1)
        } else {
            Seq::empty()
        };
        if name.len() == 0 {
            rest
        } else {
            seq![name] + rest
        }
    }
}

/// Knows how applications are launched and waited for.
#[derive(Debug, Clone, Copy)]
pub struct AppLauncher {}

impl AppLauncher {
    /// A launcher. It holds nothing, and making it never fails.
    pub fn new() -> (r: Result<Self, WindowRestoreError>)
        ensures
            r is Ok,
    {
        Ok(AppLauncher {  })
    }

    /// The command that launches the application `bundle_id`, word by word.
    pub fn launch_command(&self, bundle_id: &str) -> (r: Vec<String>)
        ensures
            words(r@) == launch_words(bundle_id@),
    {
        let mut command: Vec<String> = Vec::new();
        command.push(String::from_str("open"));
        command.push(String::from_str("-b"));
        command.push(String::from_str(bundle_id));
        assert(words(command@) =~= launch_words(bundle_id@));
        command
    }

    /// The command that tells whether the application `bundle_id` runs, word
    /// by word.
    pub fn running_query(&self, bundle_id: &str) -> (r: Vec<String>)
        ensures
            words(r@) == query_words(bundle_id@),
    {
        let mut command: Vec<String> = Vec::new();
        command.push(String::from_str("pgrep"));
        command.push(String::from_str("-f"));
        command.push(String::from_str(bundle_id));
        assert(words(command@) =~= query_words(bundle_id@));
        command
    }

    /// The reason to report where the launch command failed with `detail`
    /// on its error output.
    pub fn launch_refused(&self, bundle_id: &str, detail: &str) -> (r: String)
        ensures
            r@ == launch_refusal(bundle_id@, detail@),
    {
        let mut text = String::from_str("Failed to launch app ");
        text.append(bundle_id);
        text.append(": ");
        text.append(detail);
        text
    }

    /// Decides whether an application that was launched `waited_ms` ago is
    /// asked once more whether it runs.
    pub fn may_poll(&self, waited_ms: u64, timeout_ms: u64) -> (r: bool)
        ensures
            r == wait_allows_poll(waited_ms, timeout_ms),
    {
        waited_ms < timeout_ms
    }

    /// Decides what follows a poll of an application that was launched
    /// `waited_ms` ago and now reports `running`.
    pub fn wait_for_app(&self, running: bool, waited_ms: u64, timeout_ms: u64, poll_ms: u64) -> (r:
        WaitStep)
        ensures
            r == wait_step(running, waited_ms, timeout_ms, poll_ms),
    {
        let advance: u64 = if poll_ms == 0 {
            1
        } else {
            poll_ms
        };
        if timeout_ms <= waited_ms {
            WaitStep::TimedOut
        } else if running {
            WaitStep::Ready
        } else if timeout_ms - waited_ms <= advance {
            WaitStep::TimedOut
        } else {
            WaitStep::PollAgain
        }
    }

    /// The names of the running applications, read from a process listing
    /// with one name to the line.
    pub fn get_running_apps(&self, listing: &str) -> (r: Vec<String>)
        ensures
            words(r@) == listed_names(listing@, 0),
    {
        let chars = chars_of(listing);
        let ghost text = chars@;
        let n = chars.len();
        let mut names: Vec<String> = Vec::new();
        let mut from: usize = 0;
        while from < n
            invariant
                n == chars.len(),
                text == chars@,
                0 <= from <= n,
                words(names@) + listed_names(text, from as int) == listed_names(text, 0),
            decreases n - from,
        {
            let mut end: usize = from;
            while end < n && chars[end] != '\n'
                invariant
                    n == chars.len(),
                    text == chars@,
                    from <= end <= n,
                    line_end(text, from as int) == line_end(text, end as int),
                decreases n - end,
            {
                end = end + 1;
            }
            let (start, stop) = trim_bounds(&chars, from, end);
            let ghost before = words(names@);
            let ghost rest = if end < n {
                listed_names(text, end + 1)
            } else {
                Seq::<Seq<char>>::empty()
            };
            if stop > start {
                names.push(string_of(&chars, start, stop));
                assert(words(names@) =~= before + seq![trimmed(text.subrange(from as int, end as int))]);
                assert(words(names@) + rest =~= before + listed_names(text, from as int));
            }
            if end < n {
                from = end + 1;
            } else {
                assert(rest =~= listed_names(text, n as int));
                from = n;
            }
        }
        assert(words(names@) + Seq::<Seq<char>>::empty() =~= words(names@));
        names
    }
}

} // verus!
