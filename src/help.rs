//! The umbrella help screen: collecting each subcommand's own short help.
use crate::status::Termination;
use crate::text::{
    chars_have_prefix, chars_of, first_index_of, has_prefix, lemma_first_index_of, string_of,
};
use vstd::prelude::*;

verus! {

/// One subcommand's entry on the help screen.
#[derive(Debug)]
pub struct CommandDescription {
    pub name: String,
    /// The first line of its help text (empty where it printed nothing).
    pub description: String,
    /// The first line of its help text that starts with `Usage:`, if any.
    pub usage: Option<String>,
}

/// Builds the umbrella help screen from the subcommands' help texts.
#[derive(Clone, Copy, Debug, PartialEq, Eq, Structural)]
pub struct Help {
    pub is_debug: bool,
}

/// What to do next with a help child after polling it.
#[derive(Clone, Copy, Debug, PartialEq, Eq, Structural)]
pub enum PollAction {
    /// Still running, deadline not passed: poll again.
    Wait,
    /// Still running past the deadline: kill it and leave it out.
    Kill,
    /// It has ended: collect its output.
    Collect,
    /// Polling failed: leave it out.
    Abandon,
}

/// The marker that opens a usage line.
pub open spec fn usage_marker() -> Seq<char> {
    seq!['U', 's', 'a', 'g', 'e', ':']
}

/// A line without the carriage return that ended it.
pub open spec fn strip_cr(l: Seq<char>) -> Seq<char> {
    if l.len() > 0 && l.last() == '\r' {
        l.drop_last()
    } else {
        l
    }
}

/// The first line of a nonempty text: up to the first line feed, without a
/// carriage return before it; the whole text where no line feed ends it.
pub open spec fn head_line(s: Seq<char>) -> Seq<char> {
    if first_index_of(s, '\n') < s.len() {
        strip_cr(s.subrange(0, first_index_of(s, '\n') as int))
    } else {
        s
    }
}

/// What follows the first line and its line feed.
pub open spec fn after_head(s: Seq<char>) -> Seq<char> {
    if first_index_of(s, '\n') < s.len() {
        s.subrange(first_index_of(s, '\n') as int + 1, s.len() as int)
    } else {
        seq![]
    }
}

/// The lines of a text; a final line feed opens no further line.
pub open spec fn text_lines(s: Seq<char>) -> Seq<Seq<char>>
    decreases s.len(),
{
    if s.len() == 0 {
        seq![]
    } else {
        seq![head_line(s)] + text_lines(after_head(s))
    }
}

/// The first of `ls` that starts with `p`.
pub open spec fn first_with_prefix(ls: Seq<Seq<char>>, p: Seq<char>) -> Option<Seq<char>>
    decreases ls.len(),
{
    if ls.len() == 0 {
        None
    } else if has_prefix(ls[0], p) {
        Some(ls[0])
    } else {
        first_with_prefix(ls.subrange(1, ls.len() as int), p)
    }
}

/// The next step for a help child after a poll.
pub open spec fn poll_step(running: Option<bool>, elapsed: int, deadline: int) -> PollAction {
    match running {
        None => PollAction::Abandon,
        Some(false) => PollAction::Collect,
        Some(true) => if elapsed > deadline {
            PollAction::Kill
        } else {
            PollAction::Wait
        },
    }
}

/// The description line of a help text: its first line, or nothing.
pub open spec fn description_of(text: Seq<char>) -> Seq<char> {
    if text_lines(text).len() == 0 {
        seq![]
    } else {
        text_lines(text)[0]
    }
}

/// The usage line of a help text.
pub open spec fn usage_of(text: Seq<char>) -> Option<Seq<char>> {
    first_with_prefix(text_lines(text), usage_marker())
}

proof fn lemma_first_with_prefix_push(ls: Seq<Seq<char>>, l: Seq<char>, p: Seq<char>)
    ensures
        first_with_prefix(ls.push(l), p) == if first_with_prefix(ls, p) is Some {
            first_with_prefix(ls, p)
        } else if has_prefix(l, p) {
            Some(l)
        } else {
            None
        },
    decreases ls.len(),
{
    let lp = ls.push(l);
    let tail = lp.subrange(1, lp.len() as int);
    if ls.len() > 0 {
        assert(lp[0] == ls[0]);
        assert(tail =~= ls.subrange(1, ls.len() as int).push(l));
        lemma_first_with_prefix_push(ls.subrange(1, ls.len() as int), l, p);
    } else {
        assert(lp[0] == l);
        assert(tail =~= Seq::<Seq<char>>::empty());
        assert(first_with_prefix(tail, p) is None);
    }
}

/// The description and usage lines of a help text.
fn describe_text(text: &str) -> (r: (Vec<char>, Option<Vec<char>>))
    ensures
        r.0@ == description_of(text@),
        match r.1 {
            Some(u) => usage_of(text@) == Some(u@),
            None => usage_of(text@) is None,
        },
{
    let s = chars_of(text);
    let marker: Vec<char> = vec!['U', 's', 'a', 'g', 'e', ':'];
    assert(marker@ =~= usage_marker());
    let mut desc: Option<Vec<char>> = None;
    let mut usage: Option<Vec<char>> = None;
    let ghost mut seen: Seq<Seq<char>> = seq![];
    let mut pos: usize = 0;
    assert(s@.subrange(0, s@.len() as int) =~= s@);
    while pos < s.len()
        invariant
            pos <= s@.len(),
            marker@ == usage_marker(),
            text_lines(s@) == seen + text_lines(s@.subrange(pos as int, s@.len() as int)),
            match desc {
                Some(d) => seen.len() > 0 && d@ == seen[0],
                None => seen.len() == 0,
            },
            match usage {
                Some(u) => first_with_prefix(seen, usage_marker()) == Some(u@),
                None => first_with_prefix(seen, usage_marker()) is None,
            },
        decreases s.len() - pos,
    {
        let ghost rest = s@.subrange(pos as int, s@.len() as int);
        let mut b: usize = pos;
        while b < s.len() && s[b] != '\n'
            invariant
                pos <= b <= s@.len(),
                rest == s@.subrange(pos as int, s@.len() as int),
                forall|k: int| pos <= k < b ==> s@[k] != '\n',
            decreases s.len() - b,
        {
            b = b + 1;
        }
        assert forall|k: int| 0 <= k < b - pos implies rest[k] != '\n' by {
            assert(rest[k] == s@[pos + k]);
        }
        proof {
            lemma_first_index_of(rest, '\n', b - pos);
        }
        let mut end: usize = b;
        if b < s.len() && end > pos && s[end - 1] == '\r' {
            end = end - 1;
        }
        let mut line: Vec<char> = Vec::new();
        let mut k: usize = pos;
        while k < end
            invariant
                pos <= k <= end <= b <= s@.len(),
                line@ == s@.subrange(pos as int, k as int),
            decreases end - k,
        {
            line.push(s[k]);
            assert(line@ =~= s@.subrange(pos as int, k + 1));
            k = k + 1;
        }
        proof {
            if b < s@.len() {
                assert(rest.subrange(0, b - pos) =~= s@.subrange(pos as int, b as int));
                assert(line@ =~= strip_cr(rest.subrange(0, b - pos)));
                assert(after_head(rest) =~= s@.subrange(b + 1, s@.len() as int));
            } else {
                assert(line@ =~= rest);
                assert(after_head(rest) =~= s@.subrange(s@.len() as int, s@.len() as int));
            }
            assert(line@ == head_line(rest));
            assert(text_lines(rest) == seq![line@] + text_lines(after_head(rest)));
            lemma_first_with_prefix_push(seen, line@, usage_marker());
        }
        if usage.is_none() && chars_have_prefix(line.as_slice(), marker.as_slice()) {
            let u: Vec<char> = line.clone();
            usage = Some(u);
        }
        if desc.is_none() {
            desc = Some(line);
        }
        proof {
            assert(seen + text_lines(rest) =~= seen.push(head_line(rest)) + text_lines(
                after_head(rest),
            ));
            seen = seen.push(head_line(rest));
        }
        pos = if b < s.len() {
            b + 1
        } else {
            b
        };
    }
    assert(s@.subrange(pos as int, s@.len() as int) =~= Seq::<char>::empty());
    assert(seen =~= text_lines(s@));
    match desc {
        Some(d) => (d, usage),
        None => (Vec::new(), usage),
    }
}

impl Help {
    /// The help-screen entry of subcommand `name`, whose help text is `text`.
    pub fn describe_one(name: String, text: &str) -> (r: CommandDescription)
        ensures
            r.name@ == name@,
            r.description@ == description_of(text@),
            match r.usage {
                Some(u) => usage_of(text@) == Some(u@),
                None => usage_of(text@) is None,
            },
    {
        let (d, u) = describe_text(text);
        let usage = match u {
            Some(v) => Some(string_of(v.as_slice())),
            None => None,
        };
        CommandDescription { name, description: string_of(d.as_slice()), usage }
    }

    /// The help-screen entries for the collected `(name, help text)` pairs, in order.
    pub fn describe(&self, outputs: &Vec<(String, String)>) -> (r: Vec<CommandDescription>)
        ensures
            r@.len() == outputs@.len(),
            forall|i: int|
                0 <= i < r@.len() ==> {
                    let d = #[trigger] r@[i];
                    let text = outputs@[i].1@;
                    &&& d.name@ == outputs@[i].0@
                    &&& d.description@ == description_of(text)
                    &&& match d.usage {
                        Some(u) => usage_of(text) == Some(u@),
                        None => usage_of(text) is None,
                    }
                },
    {
        let mut r: Vec<CommandDescription> = Vec::new();
        let mut i: usize = 0;
        while i < outputs.len()
            invariant
                i <= outputs@.len(),
                r@.len() == i,
                forall|k: int|
                    0 <= k < i ==> {
                        let d = #[trigger] r@[k];
                        let text = outputs@[k].1@;
                        &&& d.name@ == outputs@[k].0@
                        &&& d.description@ == description_of(text)
                        &&& match d.usage {
                            Some(u) => usage_of(text) == Some(u@),
                            None => usage_of(text) is None,
                        }
                    },
            decreases outputs.len() - i,
        {
            let d = Help::describe_one(outputs[i].0.clone(), outputs[i].1.as_str());
            r.push(d);
            i = i + 1;
        }
        r
    }

    /// The next step for a help child: `running` is what polling it gave (`None`
    /// where polling failed), `elapsed` the time since collection began and
    /// `deadline` the time allowed to all children, in one unit.
    pub fn poll_action(running: Option<bool>, elapsed: u64, deadline: u64) -> (r: PollAction)
        ensures
            r == poll_step(running, elapsed as int, deadline as int),
    {
        match running {
            None => PollAction::Abandon,
            Some(false) => PollAction::Collect,
            Some(true) => if elapsed > deadline {
                PollAction::Kill
            } else {
                PollAction::Wait
            },
        }
    }

    /// The collected help of a child that ended with `status`: kept only where
    /// it exited with code 0.
    pub fn help_entry(name: &String, status: Termination, stdout: &String) -> (r: Option<
        (String, String),
    >)
        ensures
            r is Some <==> status == Termination::Exited(0),
            r is Some ==> (r->0).0@ == name@ && (r->0).1@ == stdout@,
    {
        match status {
            Termination::Exited(0) => Some((name.clone(), stdout.clone())),
            _ => None,
        }
    }
}

/// A child never waits once the deadline has passed: it is collected if it has
/// ended, and otherwise killed or abandoned, so a slow child never delays the
/// collection past the deadline and never contributes an entry.
pub proof fn lemma_no_wait_past_deadline(running: Option<bool>, elapsed: int, deadline: int)
    requires
        elapsed > deadline,
    ensures
        poll_step(running, elapsed, deadline) != PollAction::Wait,
        running == Some(true) ==> poll_step(running, elapsed, deadline) == PollAction::Kill,
{
}

} // verus!
