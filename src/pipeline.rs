//! The pipeline executor, as a state machine. It holds the stages of one
//! line and, between stages, at most one handle to the previous stage's
//! process. Each `step` decides what to do with the next stage; the caller
//! carries it out and, after a start, reports back with `spawned`.

use vstd::prelude::*;
use crate::expand::{args_expand_to, cd_resolves_to, expand_args, resolve_cd};
use crate::text::{pieces, nonblank, split_stages, split_words, stages_of, words_of};

verus! {

/// The name of the directory-change built-in.
pub open spec fn cd_word() -> Seq<char> {
    seq!['c', 'd']
}

/// The name of the terminate built-in.
pub open spec fn exit_word() -> Seq<char> {
    seq!['e', 'x', 'i', 't']
}

/// Whether a command name is one of the built-ins.
pub open spec fn is_builtin(name: Seq<char>) -> bool {
    name == cd_word() || name == exit_word()
}

/// The word lists of `ss`, in order, leaving out any that is empty.
pub open spec fn word_lists(ss: Seq<Seq<char>>) -> Seq<Seq<Seq<char>>>
    decreases ss.len(),
{
    if ss.len() == 0 {
        Seq::empty()
    } else {
        let r = word_lists(ss.drop_last());
        if words_of(ss.last()).len() > 0 {
            r.push(words_of(ss.last()))
        } else {
            r
        }
    }
}

/// The commands of a line: for each stage, its words (the first names the
/// program or built-in).
pub open spec fn commands_of(line: Seq<char>) -> Seq<Seq<Seq<char>>> {
    word_lists(stages_of(line))
}

/// A process to start for one stage.
pub struct SpawnRequest<H> {
    /// The program to run, as named in the stage.
    pub program: String,
    /// The stage's arguments, expanded.
    pub args: Vec<String>,
    /// The previous stage's process, whose output becomes this one's input;
    /// `None`: inherit the interpreter's input.
    pub input: Option<H>,
    /// Whether to pipe this process's output to the next stage; otherwise it
    /// inherits the interpreter's output.
    pub piped: bool,
}

/// What the caller is to do next.
pub enum Step<H> {
    /// Change the working directory to this resolved path.
    ChangeDir(String),
    /// Start a process; then report the outcome with `spawned`.
    Spawn(SpawnRequest<H>),
    /// Wait for the last stage's process to exit; the line is done.
    Wait(H),
    /// Stop reading lines.
    Exit,
    /// The line is done.
    Done,
}

/// The first argument of a command, if it has one.
pub open spec fn first_arg(cmd: Seq<Seq<char>>) -> Option<Seq<char>> {
    if cmd.len() > 1 {
        Some(cmd[1])
    } else {
        None
    }
}

/// The executor's state for one line.
pub struct Pipeline<H> {
    stages: Vec<Vec<String>>,
    next: usize,
    pending: Option<H>,
    awaiting: bool,
    finished: bool,
}

impl<H> Pipeline<H> {
    /// The commands of the line, each a non-empty list of words.
    pub closed spec fn commands(&self) -> Seq<Seq<Seq<char>>> {
        self.stages.deep_view()
    }

    /// The index of the next command to handle.
    pub closed spec fn next(&self) -> nat {
        self.next as nat
    }

    /// The handle to the previous stage's process, if one is held.
    pub closed spec fn pending(&self) -> Option<H> {
        self.pending
    }

    /// Whether a start was requested and its outcome is not reported yet.
    pub closed spec fn awaiting(&self) -> bool {
        self.awaiting
    }

    /// Whether the line is over: every further step is `Done`.
    pub closed spec fn finished(&self) -> bool {
        self.finished
    }

    /// The executor's invariant: every command has a name, and no handle is
    /// held while a start is outstanding or after the line is over.
    pub open spec fn wf(&self) -> bool {
        &&& self.next() <= self.commands().len()
        &&& forall|i: int|
            0 <= i < self.commands().len() ==> #[trigger] self.commands()[i].len() > 0
        &&& self.awaiting() ==> self.pending() is None
        &&& self.finished() ==> !self.awaiting() && self.pending() is None
    }

    /// The executor for `line`, before its first stage.
    pub fn new(line: &str) -> (r: Pipeline<H>)
        ensures
            r.wf(),
            r.commands() == commands_of(line@),
            r.next() == 0,
            r.pending() is None,
            !r.awaiting(),
            !r.finished(),
    {
        let texts = split_stages(line);
        let ghost tv = texts.deep_view();
        let mut stages: Vec<Vec<String>> = Vec::new();
        let mut i: usize = 0;
        while i < texts.len()
            invariant
                tv == texts.deep_view(),
                i <= texts.len(),
                stages.deep_view() == word_lists(tv.subrange(0, i as int)),
                forall|j: int| 0 <= j < stages.len() ==> #[trigger] stages[j].len() > 0,
            decreases texts.len() - i,
        {
            assert(tv.subrange(0, i + 1).drop_last() =~= tv.subrange(0, i as int));
            let words = split_words(texts[i].as_str());
            if words.len() > 0 {
                let ghost before = stages.deep_view();
                let ghost wv = words.deep_view();
                stages.push(words);
                assert(stages.deep_view() =~= before.push(wv));
            }
            i = i + 1;
        }
        assert(tv.subrange(0, texts.len() as int) =~= tv);
        let r = Pipeline { stages, next: 0, pending: None, awaiting: false, finished: false };
        assert forall|i: int| 0 <= i < r.commands().len() implies #[trigger] r.commands()[i].len()
            > 0 by {
            assert(r.commands()[i].len() == r.stages[i].len());
        }
        r
    }

    /// What `step` does, from state `p` to state `q`, returning `r`.
    /// Past the last command: wait for the held process, if any, else done.
    /// On `exit`: stop, dropping any held handle. On `cd`: change directory
    /// and drop any held handle. Otherwise: start the program with the
    /// expanded arguments, its input the held handle, its output piped
    /// exactly when another command follows.
    pub open spec fn step_spec(p: Pipeline<H>, q: Pipeline<H>, r: Step<H>) -> bool {
        &&& q.commands() == p.commands()
        &&& if p.finished() {
            &&& r is Done
            &&& q.finished()
            &&& q.pending() is None
            &&& q.next() == p.next()
        } else if p.next() >= p.commands().len() {
            &&& match p.pending() {
                Some(h) => r == Step::Wait(h),
                None => r is Done,
            }
            &&& q.finished()
            &&& q.pending() is None
            &&& q.next() == p.next()
        } else {
            let cmd = p.commands()[p.next() as int];
            if cmd[0] == exit_word() {
                &&& r is Exit
                &&& q.finished()
                &&& q.pending() is None
                &&& q.next() == p.next()
            } else if cmd[0] == cd_word() {
                &&& r matches Step::ChangeDir(t) && cd_resolves_to(first_arg(cmd), t@)
                &&& q.pending() is None
                &&& !q.awaiting()
                &&& !q.finished()
                &&& q.next() == p.next() + 1
            } else {
                &&& r matches Step::Spawn(req) && {
                    &&& req.program@ == cmd[0]
                    &&& args_expand_to(cmd.drop_first(), req.args.deep_view())
                    &&& req.input == p.pending()
                    &&& req.piped == (p.next() + 1 < p.commands().len())
                }
                &&& q.pending() is None
                &&& q.awaiting()
                &&& !q.finished()
                &&& q.next() == p.next() + 1
            }
        }
    }

    /// Decides what to do next; see `step_spec`.
    pub fn step(&mut self) -> (r: Step<H>)
        requires
            old(self).wf(),
            !old(self).awaiting(),
        ensures
            final(self).wf(),
            Self::step_spec(*old(self), *final(self), r),
    {
        if self.finished {
            return Step::Done;
        }
        if self.next >= self.stages.len() {
            self.finished = true;
            return match self.pending.take() {
                Some(h) => Step::Wait(h),
                None => Step::Done,
            };
        }
        let ghost cmd = self.commands()[self.next as int];
        let cmd_ref = &self.stages[self.next];
        assert(cmd_ref.deep_view() == cmd);
        assert(cmd_ref[0]@ == cmd[0]);
        let exit_name = String::from_str("exit");
        let cd_name = String::from_str("cd");
        proof {
            reveal_strlit("exit");
            reveal_strlit("cd");
            assert(exit_name@ =~= exit_word());
            assert(cd_name@ =~= cd_word());
        }
        if cmd_ref[0] == exit_name {
            self.finished = true;
            self.pending = None;
            return Step::Exit;
        }
        if cmd_ref[0] == cd_name {
            let dir: Option<&str> = if cmd_ref.len() > 1 {
                Some(cmd_ref[1].as_str())
            } else {
                None
            };
            assert(dir.deep_view() == first_arg(cmd));
            let target = resolve_cd(dir);
            self.pending = None;
            self.next = self.next + 1;
            return Step::ChangeDir(target);
        }
        let program = cmd_ref[0].clone();
        let mut raw: Vec<String> = Vec::new();
        let mut i: usize = 1;
        while i < cmd_ref.len()
            invariant
                cmd_ref.deep_view() == cmd,
                1 <= i <= cmd_ref.len(),
                raw.deep_view() == cmd.subrange(1, i as int),
            decreases cmd_ref.len() - i,
        {
            let ghost before = raw.deep_view();
            raw.push(cmd_ref[i].clone());
            assert(raw.deep_view() =~= before.push(cmd[i as int]));
            assert(cmd.subrange(1, i + 1) =~= cmd.subrange(1, i as int).push(cmd[i as int]));
            i = i + 1;
        }
        assert(cmd.subrange(1, cmd.len() as int) =~= cmd.drop_first());
        let args = expand_args(&raw);
        let piped = self.next + 1 < self.stages.len();
        let input = self.pending.take();
        self.next = self.next + 1;
        self.awaiting = true;
        Step::Spawn(SpawnRequest { program, args, input, piped })
    }

    /// What `spawned` does: the reported process becomes the held handle.
    pub open spec fn spawned_spec(p: Pipeline<H>, child: Option<H>, q: Pipeline<H>) -> bool {
        &&& q.commands() == p.commands()
        &&& q.next() == p.next()
        &&& q.pending() == child
        &&& !q.awaiting()
        &&& !q.finished()
    }

    /// Reports the outcome of the start that the last step requested: the
    /// started process, or `None` where it could not be started.
    pub fn spawned(&mut self, child: Option<H>)
        requires
            old(self).wf(),
            old(self).awaiting(),
        ensures
            final(self).wf(),
            Self::spawned_spec(*old(self), child, *final(self)),
    {
        self.pending = child;
        self.awaiting = false;
    }

    /// Whether a start was requested and its outcome is not reported yet.
    pub fn is_awaiting(&self) -> (r: bool)
        ensures
            r == self.awaiting(),
    {
        self.awaiting
    }
}

/// The state that `Pipeline::new(line)` returns.
pub open spec fn fresh_for<H>(p: Pipeline<H>, line: Seq<char>) -> bool {
    &&& p.commands() == commands_of(line)
    &&& p.next() == 0
    &&& p.pending() is None
    &&& !p.awaiting()
    &&& !p.finished()
}

proof fn lemma_no_pipe_one_piece(s: Seq<char>)
    requires
        !s.contains('|'),
    ensures
        pieces(s, false).len() == 1,
    decreases s.len(),
{
    if s.len() > 0 {
        assert(!s.drop_last().contains('|')) by {
            if s.drop_last().contains('|') {
                let k = choose|k: int| 0 <= k < s.drop_last().len() && s.drop_last()[k] == '|';
                assert(s[k] == '|');
            }
        }
        lemma_no_pipe_one_piece(s.drop_last());
        assert(s.last() == s[s.len() - 1]);
    }
}

proof fn lemma_nonblank_len(ps: Seq<Seq<char>>)
    ensures
        nonblank(ps).len() <= ps.len(),
    decreases ps.len(),
{
    if ps.len() > 0 {
        lemma_nonblank_len(ps.drop_last());
    }
}

proof fn lemma_word_lists_len(ss: Seq<Seq<char>>)
    ensures
        word_lists(ss).len() <= ss.len(),
    decreases ss.len(),
{
    if ss.len() > 0 {
        lemma_word_lists_len(ss.drop_last());
    }
}

/// A line without a pipe whose command names a built-in starts no process:
/// its first step is that built-in, the step after it ends the line, and
/// from then on every step is `Done`.
pub proof fn lemma_builtin_line_spawns_nothing<H>(
    line: Seq<char>,
    p0: Pipeline<H>,
    p1: Pipeline<H>,
    r1: Step<H>,
    p2: Pipeline<H>,
    r2: Step<H>,
)
    requires
        !line.contains('|'),
        commands_of(line).len() > 0,
        is_builtin(commands_of(line)[0][0]),
        fresh_for(p0, line),
        Pipeline::step_spec(p0, p1, r1),
        Pipeline::step_spec(p1, p2, r2),
    ensures
        !(r1 is Spawn),
        r2 is Done,
        p2.finished(),
{
    lemma_no_pipe_one_piece(line);
    lemma_nonblank_len(pieces(line, false));
    lemma_word_lists_len(stages_of(line));
}

/// Between stages the output of a started process feeds the next program
/// started, and only the last command's output is left unpiped: after a
/// process `h` is reported for one stage, a following stage that is not a
/// built-in gets `h` as its input.
pub proof fn lemma_output_feeds_next<H>(
    p: Pipeline<H>,
    h: H,
    q: Pipeline<H>,
    r: Step<H>,
    q2: Pipeline<H>,
)
    requires
        Pipeline::spawned_spec(p, Some(h), q),
        q.next() < q.commands().len(),
        !is_builtin(q.commands()[q.next() as int][0]),
        Pipeline::step_spec(q, q2, r),
    ensures
        r matches Step::Spawn(req) && req.input == Some(h) && (req.piped <==> q2.next()
            < q2.commands().len()),
{
}

/// A stage whose process could not be started leaves nothing to feed on:
/// the next program started inherits the interpreter's input.
pub proof fn lemma_failed_start_breaks_flow<H>(
    p: Pipeline<H>,
    q: Pipeline<H>,
    r: Step<H>,
    q2: Pipeline<H>,
)
    requires
        Pipeline::spawned_spec(p, None, q),
        Pipeline::step_spec(q, q2, r),
    ensures
        r matches Step::Spawn(req) ==> req.input is None,
        !(r is Wait),
{
}

} // verus!
