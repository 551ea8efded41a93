//! Greedy generation on two ranks: which step comes next, and what it emits.
//!
//! Both ranks run the same decisions over the same prompt. No token is sent between them: what they
//! add up in the layers makes their next tokens equal.
use vstd::prelude::*;

use crate::gpu::mtp::greedy;

verus! {

/// Step at which the decode graph is captured: by then the pool and the library have settled.
pub const GRAPH_CAPTURE_AT: usize = 8;

/// How a step is run.
#[derive(Clone, Copy, Debug, PartialEq, Eq, Structural)]
pub enum How {
    /// Launch by launch.
    Eager,
    /// Launch by launch, and record a graph.
    Capture,
    /// Replay the recorded graph.
    Replay,
}

/// The next decode step.
#[derive(Clone, Copy, Debug, PartialEq, Eq, Structural)]
pub struct TpStep {
    pub token: u32,
    pub pos: usize,
    /// Keys that the launch must allow for. Under a graph it is pinned to the longest context, so that
    /// one recording is valid at every position.
    pub max_pc: usize,
    pub how: How,
}

/// One prompt token to be run before decoding.
#[derive(Clone, Copy, Debug, PartialEq, Eq, Structural)]
pub struct PromptStep {
    pub token: u32,
    pub pos: usize,
    /// The last token's logits choose the first output token.
    pub logits: bool,
}

/// The prompt, token by token.
pub fn prompt_steps(prompt: &[u32]) -> (r: Vec<PromptStep>)
    ensures
        r@ == Seq::new(
            prompt@.len(),
            |t: int|
                PromptStep { token: prompt@[t], pos: t as usize, logits: t == prompt@.len() - 1 },
        ),
{
    let mut r: Vec<PromptStep> = Vec::new();
    let mut t: usize = 0;
    while t < prompt.len()
        invariant
            t <= prompt@.len(),
            r@ == Seq::new(
                t as nat,
                |t: int|
                    PromptStep {
                        token: prompt@[t],
                        pos: t as usize,
                        logits: t == prompt@.len() - 1,
                    },
            ),
        decreases prompt@.len() - t,
    {
        r.push(PromptStep { token: prompt[t], pos: t, logits: t == prompt.len() - 1 });
        t = t + 1;
        proof {
            assert(r@ =~= Seq::new(
                t as nat,
                |t: int|
                    PromptStep {
                        token: prompt@[t],
                        pos: t as usize,
                        logits: t == prompt@.len() - 1,
                    },
            ));
        }
    }
    r
}

/// A generation in progress.
pub struct TpRun {
    pub plen: usize,
    pub max_new: usize,
    pub max_seq_len: usize,
    pub eos: u32,
    /// A decode graph is wanted.
    pub want_graph: bool,
    /// A decode graph was recorded.
    pub graph: bool,
    pub step: usize,
    pub last: u32,
    /// The last token ended the generation.
    pub ended: bool,
    pub out: Vec<u32>,
}

impl TpRun {
    /// Starts after the prompt predicted `first`. A first token that ends the generation is not emitted.
    pub fn start(
        first: u32,
        plen: usize,
        max_new: usize,
        max_seq_len: usize,
        eos: u32,
        want_graph: bool,
    ) -> (r: TpRun)
        ensures
            r.plen == plen,
            r.max_new == max_new,
            r.max_seq_len == max_seq_len,
            r.eos == eos,
            r.want_graph == want_graph,
            !r.graph,
            r.step == 0,
            r.last == first,
            r.ended == (first == eos),
            r.out@ == if first == eos {
                Seq::<u32>::empty()
            } else {
                seq![first]
            },
    {
        let mut out: Vec<u32> = Vec::new();
        if first != eos {
            out.push(first);
        }
        proof {
            assert(out@ =~= if first == eos {
                Seq::<u32>::empty()
            } else {
                seq![first]
            });
        }
        TpRun {
            plen,
            max_new,
            max_seq_len,
            eos,
            want_graph,
            graph: false,
            step: 0,
            last: first,
            ended: first == eos,
            out,
        }
    }

    /// Another step is due: nothing has ended the generation, and the first token was not the last
    /// that is wanted.
    pub open spec fn wants_step(&self) -> bool {
        !self.ended && self.step + 1 < self.max_new
    }

    /// The step that is due.
    pub open spec fn due(&self) -> TpStep {
        TpStep {
            token: self.last,
            pos: (self.plen + self.step) as usize,
            max_pc: if self.want_graph {
                self.max_seq_len
            } else {
                (self.plen + self.step + 1) as usize
            },
            how: if self.want_graph && self.step == GRAPH_CAPTURE_AT && !self.graph {
                How::Capture
            } else if self.graph {
                How::Replay
            } else {
                How::Eager
            },
        }
    }

    /// The step that is due, if any.
    pub fn next(&self) -> (r: Option<TpStep>)
        requires
            self.plen + self.step + 1 <= usize::MAX,
        ensures
            r == (if self.wants_step() {
                Some(self.due())
            } else {
                None
            }),
    {
        if self.ended || self.max_new == 0 || self.step >= self.max_new - 1 {
            return None;
        }
        let pos: usize = self.plen + self.step;
        let max_pc: usize = if self.want_graph {
            self.max_seq_len
        } else {
            pos + 1
        };
        let how: How = if self.want_graph && self.step == GRAPH_CAPTURE_AT && !self.graph {
            How::Capture
        } else if self.graph {
            How::Replay
        } else {
            How::Eager
        };
        Some(TpStep { token: self.last, pos, max_pc, how })
    }

    /// Takes the token that a step gave. `captured` says whether a graph was recorded in it; a failed
    /// recording leaves the run as it was.
    pub fn settle(&mut self, token: u32, captured: bool)
        requires
            old(self).wants_step(),
        ensures
            final(self).step == old(self).step + 1,
            final(self).last == token,
            final(self).ended == (token == old(self).eos),
            final(self).out@ == if token == old(self).eos {
                old(self).out@
            } else {
                old(self).out@.push(token)
            },
            final(self).graph == (old(self).graph || (captured && old(self).due().how
                == How::Capture)),
            final(self).plen == old(self).plen,
            final(self).max_new == old(self).max_new,
            final(self).max_seq_len == old(self).max_seq_len,
            final(self).eos == old(self).eos,
            final(self).want_graph == old(self).want_graph,
    {
        if captured && self.want_graph && self.step == GRAPH_CAPTURE_AT && !self.graph {
            self.graph = true;
        }
        self.step = self.step + 1;
        self.last = token;
        if token == self.eos {
            self.ended = true;
        } else {
            self.ended = false;
            self.out.push(token);
        }
    }
}

/// The tokens before the first that ends the generation.
pub open spec fn until(s: Seq<u32>, eos: u32) -> Seq<u32>
    decreases s.len(),
{
    if s.len() == 0 {
        s
    } else {
        let d = until(s.drop_last(), eos);
        if d.len() < s.len() - 1 || s.last() == eos {
            d
        } else {
            s
        }
    }
}

/// The run has followed the model `next` from `ctx`: `step + 1` greedy tokens were drawn, none before
/// the last ended the generation, and what was emitted is all of them but the end.
pub open spec fn follows(r: TpRun, next: spec_fn(Seq<u32>) -> u32, ctx: Seq<u32>) -> bool {
    let g = greedy(next, ctx, (r.step + 1) as nat);
    &&& r.last == g.last()
    &&& r.ended == (r.last == r.eos)
    &&& until(g.drop_last(), r.eos) == g.drop_last()
    &&& r.out@ == until(g, r.eos)
}

/// Generation is greedy decoding: however steps are run, as long as each gives the model's next token,
/// the run emits the model's greedy continuation up to the end token or the limit.
pub proof fn law_run_follows_the_model(
    before: TpRun,
    after: TpRun,
    next: spec_fn(Seq<u32>) -> u32,
    ctx: Seq<u32>,
    token: u32,
)
    requires
        follows(before, next, ctx),
        before.wants_step(),
        token == next(ctx + greedy(next, ctx, (before.step + 1) as nat)),
        after.step == before.step + 1,
        after.last == token,
        after.ended == (token == before.eos),
        after.eos == before.eos,
        after.out@ == if token == before.eos {
            before.out@
        } else {
            before.out@.push(token)
        },
    ensures
        follows(after, next, ctx),
{
    let g = greedy(next, ctx, (before.step + 1) as nat);
    let h = greedy(next, ctx, (after.step + 1) as nat);
    assert(h == g.push(token));
    assert(h.drop_last() =~= g);
    assert(g.len() > 0) by {
        lemma_greedy_len(next, ctx, (before.step + 1) as nat);
    }
    assert(until(g, before.eos) == g) by {
        assert(g.last() != before.eos);
    }
}

/// A run follows the model from its start.
pub proof fn law_run_starts_with_the_model(
    r: TpRun,
    next: spec_fn(Seq<u32>) -> u32,
    ctx: Seq<u32>,
)
    requires
        r.step == 0,
        r.last == next(ctx),
        r.ended == (r.last == r.eos),
        r.out@ == if r.last == r.eos {
            Seq::<u32>::empty()
        } else {
            seq![r.last]
        },
    ensures
        follows(r, next, ctx),
{
    reveal_with_fuel(greedy, 2);
    let g = greedy(next, ctx, 1);
    assert(ctx + Seq::<u32>::empty() =~= ctx);
    assert(g =~= seq![r.last]);
    assert(g.drop_last() =~= Seq::<u32>::empty());
    reveal_with_fuel(until, 2);
    assert(until(g, r.eos) =~= r.out@);
}

proof fn lemma_greedy_len(next: spec_fn(Seq<u32>) -> u32, ctx: Seq<u32>, n: nat)
    ensures
        greedy(next, ctx, n).len() == n,
    decreases n,
{
    if n > 0 {
        lemma_greedy_len(next, ctx, (n - 1) as nat);
    }
}

/// Under a graph the launch bound never falls short of the position, so a recorded step stays valid
/// wherever it is replayed; and a graph is only replayed once it was recorded.
pub proof fn law_replay_is_covered(r: TpRun)
    requires
        r.wants_step(),
        r.plen + r.max_new <= r.max_seq_len,
    ensures
        r.due().pos < r.due().max_pc,
        r.due().how == How::Replay ==> r.graph,
        r.want_graph ==> r.due().max_pc == r.max_seq_len,
{
}

} // verus!
