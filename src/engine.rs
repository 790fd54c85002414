use vstd::prelude::*;
use crate::commands::{address_matches, match_address, Command, CommandModel, Function, FunctionModel};
use crate::regex::{is_match_of, replace, replacen_of};
use crate::regex::parser::find_char;
use crate::render::{decimal, push_decimal};
use crate::text::{chars_of, string_of};

verus! {

/// The run state in mathematical form.
pub struct RunState {
    pub pattern: Seq<char>,
    pub hold: Seq<char>,
    /// One flag per command: whether its address range is open.
    pub active: Seq<bool>,
    /// The number of the current line, counted from 1 over all inputs.
    pub line: nat,
}

/// How a pass of the script over the pattern space ended.
#[derive(Clone, Copy, Debug, PartialEq, Eq, Structural)]
pub enum PassEnd {
    /// Every command was tried: the cycle is over and the pattern space is printed
    /// unless printing is turned off.
    Done,
    /// A delete ended the cycle, with nothing printed at its end.
    Deleted,
    /// `D` dropped the first line of the pattern space: the script runs again on
    /// what is left, with no new input line.
    Restart,
}

/// The lines that a pass wrote, and how it ended.
#[derive(Debug)]
pub struct Pass {
    pub output: Vec<String>,
    pub end: PassEnd,
}

pub open spec fn lines_view(v: Seq<String>) -> Seq<Seq<char>> {
    Seq::new(v.len(), |i: int| v[i]@)
}

pub open spec fn commands_view(v: Seq<Command>) -> Seq<CommandModel> {
    Seq::new(v.len(), |i: int| v[i].view())
}

/// Whether a command applies, given its range flag, and the flag after the test.
pub open spec fn applies(c: CommandModel, active: bool, text: Seq<char>, line: nat) -> (bool, bool) {
    match (c.start, c.end) {
        (Some(a), None) => (address_matches(a, text, line), active),
        (Some(a), Some(b)) => if active {
            (true, !address_matches(b, text, line))
        } else {
            let m = address_matches(a, text, line);
            (m, m)
        },
        _ => (true, active),
    }
}

/// What a function does to the state, the lines it writes, and whether it ends the pass.
pub open spec fn effect(f: FunctionModel, st: RunState) -> (RunState, Seq<Seq<char>>, Option<PassEnd>) {
    match f {
        FunctionModel::Delete => (RunState { pattern: Seq::empty(), ..st }, Seq::empty(), Some(PassEnd::Deleted)),
        FunctionModel::DeleteFirstLine => {
            let k = find_char(st.pattern, 0, '\n');
            if k < st.pattern.len() {
                (RunState { pattern: st.pattern.subrange(k + 1, st.pattern.len() as int), ..st }, Seq::empty(), Some(PassEnd::Restart))
            } else {
                (RunState { pattern: Seq::empty(), ..st }, Seq::empty(), Some(PassEnd::Deleted))
            }
        },
        FunctionModel::CopyHoldToPattern => (RunState { pattern: st.hold, ..st }, Seq::empty(), None),
        FunctionModel::AppendHoldToPattern => (RunState { pattern: st.pattern + seq!['\n'] + st.hold, ..st }, Seq::empty(), None),
        FunctionModel::CopyPatternToHold => (RunState { hold: st.pattern, ..st }, Seq::empty(), None),
        FunctionModel::AppendPatternToHold => (RunState { hold: st.hold + seq!['\n'] + st.pattern, ..st }, Seq::empty(), None),
        FunctionModel::Insert(t) => (st, seq![t], None),
        FunctionModel::Print => (st, seq![st.pattern], None),
        FunctionModel::Substitute(p, rep) => {
            let pattern = if is_match_of(p, st.pattern) { replacen_of(p, st.pattern, 1, rep) } else { st.pattern };
            (RunState { pattern, ..st }, Seq::empty(), None)
        },
        FunctionModel::Exchange => (RunState { pattern: st.hold, hold: st.pattern, ..st }, Seq::empty(), None),
        FunctionModel::PrintLineNumber => (st, seq![decimal(st.line)], None),
    }
}

/// The script from command `i` on, over state `st`, after the lines `out` were written:
/// the final state, all lines written, and how the pass ended.
pub open spec fn pass(cmds: Seq<CommandModel>, i: int, st: RunState, out: Seq<Seq<char>>) -> (RunState, Seq<Seq<char>>, PassEnd)
    decreases cmds.len() - i,
{
    if i < 0 || i >= cmds.len() {
        (st, out, PassEnd::Done)
    } else {
        let (ap, act) = applies(cmds[i], st.active[i], st.pattern, st.line);
        let st1 = RunState { active: st.active.update(i, act), ..st };
        if ap {
            let (st2, o, end) = effect(cmds[i].function, st1);
            match end {
                Some(e) => (st2, out + o, e),
                None => pass(cmds, i + 1, st2, out + o),
            }
        } else {
            pass(cmds, i + 1, st1, out)
        }
    }
}

/// The lines a whole pass writes, with the pattern space printed at the end of a
/// finished cycle unless `no_print`.
pub open spec fn pass_output(cmds: Seq<CommandModel>, st: RunState, no_print: bool) -> Seq<Seq<char>> {
    let (st2, out, end) = pass(cmds, 0, st, Seq::empty());
    if end == PassEnd::Done && !no_print {
        out.push(st2.pattern)
    } else {
        out
    }
}

/// The execution engine: pattern space, hold space, range flags and line counter.
#[derive(Debug)]
pub struct Engine {
    pub pattern_space: String,
    pub hold_space: String,
    pub active: Vec<bool>,
    pub line_number: u64,
}

impl View for Engine {
    type V = RunState;

    open spec fn view(&self) -> RunState {
        RunState { pattern: self.pattern_space@, hold: self.hold_space@, active: self.active@, line: self.line_number as nat }
    }
}

impl Engine {
    /// An engine for a script of `n_commands` commands: empty buffers, every range closed,
    /// no line read yet.
    pub fn new(n_commands: usize) -> (r: Engine)
        ensures
            r@ == (RunState { pattern: Seq::empty(), hold: Seq::empty(), active: Seq::new(n_commands as nat, |i: int| false), line: 0 }),
    {
        let mut active: Vec<bool> = Vec::new();
        let mut i: usize = 0;
        while i < n_commands
            invariant
                i <= n_commands,
                active@ == Seq::new(i as nat, |j: int| false),
            decreases n_commands - i,
        {
            active.push(false);
            i = i + 1;
            assert(active@ =~= Seq::new(i as nat, |j: int| false));
        }
        Engine { pattern_space: String::new(), hold_space: String::new(), active, line_number: 0 }
    }

    /// Starts a cycle on the next input line: it becomes the pattern space and the line
    /// counter moves on. The hold space and the range flags stay.
    pub fn start_cycle(&mut self, line: String)
        requires
            old(self).line_number < u64::MAX,
        ensures
            final(self)@ == (RunState { pattern: line@, line: old(self)@.line + 1, ..old(self)@ }),
    {
        self.pattern_space = line;
        self.line_number = self.line_number + 1;
    }

    fn apply(&mut self, f: &Function, output: &mut Vec<String>) -> (r: Option<PassEnd>)
        ensures
            ({
                let (st, o, end) = effect(f.view(), old(self)@);
                &&& final(self)@ == st
                &&& lines_view(final(output)@) == lines_view(old(output)@) + o
                &&& r == end
            }),
    {
        let ghost before = lines_view(output@);
        proof {
            reveal_strlit("\n");
            assert(before + Seq::<Seq<char>>::empty() =~= before);
        }
        match f {
            Function::Delete => {
                self.pattern_space = String::new();
                Some(PassEnd::Deleted)
            },
            Function::DeleteFirstLine => {
                let t = chars_of(self.pattern_space.as_str());
                let mut k: usize = 0;
                while k < t.len() && t[k] != '\n'
                    invariant
                        k <= t@.len(),
                        t@ == self.pattern_space@,
                        find_char(t@, k as int, '\n') == find_char(t@, 0, '\n'),
                    decreases t@.len() - k,
                {
                    k = k + 1;
                }
                if k < t.len() {
                    let mut rest: Vec<char> = Vec::new();
                    let mut j: usize = k + 1;
                    while j < t.len()
                        invariant
                            k + 1 <= j <= t@.len(),
                            rest@ == t@.subrange(k + 1, j as int),
                        decreases t@.len() - j,
                    {
                        rest.push(t[j]);
                        j = j + 1;
                        assert(rest@ =~= t@.subrange(k + 1, j as int));
                    }
                    self.pattern_space = string_of(&rest);
                        Some(PassEnd::Restart)
                } else {
                    self.pattern_space = String::new();
                        Some(PassEnd::Deleted)
                }
            },
            Function::CopyHoldToPattern => {
                self.pattern_space = self.hold_space.clone();
                None
            },
            Function::AppendHoldToPattern => {
                self.pattern_space.append("\n");
                self.pattern_space.append(self.hold_space.as_str());
                assert(self.pattern_space@ =~= old(self).pattern_space@ + seq!['\n'] + old(self).hold_space@);
                None
            },
            Function::CopyPatternToHold => {
                self.hold_space = self.pattern_space.clone();
                None
            },
            Function::AppendPatternToHold => {
                self.hold_space.append("\n");
                self.hold_space.append(self.pattern_space.as_str());
                assert(self.hold_space@ =~= old(self).hold_space@ + seq!['\n'] + old(self).pattern_space@);
                None
            },
            Function::Insert(t) => {
                output.push(t.clone());
                assert(lines_view(output@) =~= before + seq![t@]);
                None
            },
            Function::Print => {
                output.push(self.pattern_space.clone());
                assert(lines_view(output@) =~= before + seq![self.pattern_space@]);
                None
            },
            Function::Substitute(p, rep) => {
                let mut dest = String::new();
                if replace(p, self.pattern_space.as_str(), &mut dest, rep.as_str()) {
                    self.pattern_space = dest;
                }
                None
            },
            Function::Exchange => {
                std::mem::swap(&mut self.pattern_space, &mut self.hold_space);
                None
            },
            Function::PrintLineNumber => {
                let mut digits: Vec<char> = Vec::new();
                push_decimal(&mut digits, self.line_number);
                output.push(string_of(&digits));
                assert(digits@ =~= decimal(self.line_number as nat));
                assert(lines_view(output@) =~= before + seq![decimal(self.line_number as nat)]);
                None
            },
        }
    }

    /// Runs the script once over the pattern space, from its first command.
    pub fn run_pass(&mut self, commands: &Vec<Command>, no_print: bool) -> (r: Pass)
        requires
            old(self).active@.len() == commands@.len(),
        ensures
            ({
                let (st, _, end) = pass(commands_view(commands@), 0, old(self)@, Seq::empty());
                &&& final(self)@ == st
                &&& r.end == end
                &&& lines_view(r.output@) == pass_output(commands_view(commands@), old(self)@, no_print)
            }),
    {
        let ghost cmds = commands_view(commands@);
        let ghost total = pass(cmds, 0, self@, Seq::empty());
        assert(total.2 != PassEnd::Done ==> total.1 == pass_output(cmds, self@, no_print));
        let mut output: Vec<String> = Vec::new();
        let mut i: usize = 0;
        assert(lines_view(output@) =~= Seq::<Seq<char>>::empty());
        while i < commands.len()
            invariant
                total == pass(cmds, 0, old(self)@, Seq::empty()),
                total.2 != PassEnd::Done ==> total.1 == pass_output(cmds, old(self)@, no_print),
                i <= commands@.len(),
                cmds == commands_view(commands@),
                self.active@.len() == commands@.len(),
                total == pass(cmds, i as int, self@, lines_view(output@)),
            decreases commands@.len() - i,
        {
            let cmd = &commands[i];
            let text = self.pattern_space.as_str();
            let (ap, act) = match (&cmd.start, &cmd.end) {
                (Some(a), None) => (match_address(a, text, self.line_number), self.active[i]),
                (Some(a), Some(b)) => if self.active[i] {
                    (true, !match_address(b, text, self.line_number))
                } else {
                    let m = match_address(a, text, self.line_number);
                    (m, m)
                },
                _ => (true, self.active[i]),
            };
            self.active.set(i, act);
            if ap {
                match self.apply(&cmd.function, &mut output) {
                    Some(end) => {
                        assert(end != PassEnd::Done);
                        assert(total == (self@, lines_view(output@), end));
                        return Pass { output, end };
                    },
                    None => {},
                }
            }
            i = i + 1;
        }
        if !no_print {
            let ghost before = lines_view(output@);
            output.push(self.pattern_space.clone());
            assert(lines_view(output@) =~= before.push(self.pattern_space@));
        }
        Pass { output, end: PassEnd::Done }
    }
}

/// Whether one command applies on each of the lines `k..` (numbered from 1, with
/// pattern spaces `texts`), its range flag starting at `active`.
pub open spec fn applied_lines(c: CommandModel, texts: Seq<Seq<char>>, k: int, active: bool) -> Seq<bool>
    decreases texts.len() - k,
{
    if k < 0 || k >= texts.len() {
        Seq::empty()
    } else {
        let (ap, act) = applies(c, active, texts[k], (k + 1) as nat);
        seq![ap] + applied_lines(c, texts, k + 1, act)
    }
}

/// Over lines 1 to 5, a range whose start address selects only line 2 and whose end
/// address selects only line 4 applies on lines 2, 3 and 4, and not on 1 or 5.
pub proof fn lemma_range_two_to_four(c: CommandModel, texts: Seq<Seq<char>>)
    requires
        c.start is Some,
        c.end is Some,
        texts.len() == 5,
        forall|k: int| 0 <= k < 5 ==> (address_matches(c.start->0, #[trigger] texts[k], (k + 1) as nat) <==> k == 1),
        forall|k: int| 0 <= k < 5 ==> (address_matches(c.end->0, #[trigger] texts[k], (k + 1) as nat) <==> k == 3),
    ensures
        applied_lines(c, texts, 0, false) == seq![false, true, true, true, false],
{
    let t = texts;
    assert(t[0] == texts[0] && t[1] == texts[1] && t[2] == texts[2] && t[3] == texts[3] && t[4] == texts[4]);
    assert(applied_lines(c, t, 5, false) == Seq::<bool>::empty());
    assert(applied_lines(c, t, 4, false) =~= seq![false]);
    assert(applied_lines(c, t, 3, true) =~= seq![true, false]);
    assert(applied_lines(c, t, 2, true) =~= seq![true, true, false]);
    assert(applied_lines(c, t, 1, false) =~= seq![true, true, true, false]);
    assert(applied_lines(c, t, 0, false) =~= seq![false, true, true, true, false]);
}

/// Whether a function leaves the hold space alone.
pub open spec fn keeps_hold(f: FunctionModel) -> bool {
    !(f is CopyPatternToHold || f is AppendPatternToHold || f is Exchange)
}

/// A pass of a script none of whose functions writes the hold space leaves the hold
/// space as it was; a new cycle keeps it too (see `Engine::start_cycle`).
pub proof fn lemma_hold_unchanged(cmds: Seq<CommandModel>, i: int, st: RunState, out: Seq<Seq<char>>)
    requires
        forall|k: int| 0 <= k < cmds.len() ==> keeps_hold(#[trigger] cmds[k].function),
    ensures
        pass(cmds, i, st, out).0.hold == st.hold,
    decreases cmds.len() - i,
{
    if 0 <= i < cmds.len() {
        let (ap, act) = applies(cmds[i], st.active[i], st.pattern, st.line);
        let st1 = RunState { active: st.active.update(i, act), ..st };
        if ap {
            let (st2, o, end) = effect(cmds[i].function, st1);
            assert(keeps_hold(cmds[i].function));
            assert(st2.hold == st.hold);
            if end is None {
                lemma_hold_unchanged(cmds, i + 1, st2, out + o);
            }
        } else {
            lemma_hold_unchanged(cmds, i + 1, st1, out);
        }
    }
}

} // verus!
