use vstd::prelude::*;

verus! {

/// What the connection's handler does next.
#[derive(Debug, PartialEq, Eq, Structural, Clone, Copy)]
pub enum Action {
    /// Run the before-hook of the middleware at this index.
    RunBefore(usize),
    /// Call the resolved service.
    CallService,
    /// Run the after-hook of the middleware at this index.
    RunAfter(usize),
    /// Write the service's response.
    WriteResponse,
    /// Write the fixed bad-request response.
    WriteFallback,
    /// Close the connection in both directions: a write failed.
    Shutdown,
    /// Nothing more: the exchange is over.
    Finish,
}

/// Where an exchange stands: which action's outcome it waits for.
#[derive(Debug, PartialEq, Eq, Structural, Clone, Copy)]
pub enum Stage {
    /// Waiting for the request to be read, decoded, parsed and routed.
    Parsing,
    Before(usize),
    Serving,
    After(usize),
    Writing,
    WritingFallback,
    Done,
}

/// The next stage and action, given the outcome `ok` of what was asked last.
/// The outcome of a hook is not looked at: hooks cannot fail.
pub open spec fn transition(stage: Stage, n: usize, ok: bool) -> (Stage, Action) {
    match stage {
        Stage::Parsing => if !ok {
            (Stage::WritingFallback, Action::WriteFallback)
        } else if n > 0 {
            (Stage::Before(0), Action::RunBefore(0))
        } else {
            (Stage::Serving, Action::CallService)
        },
        Stage::Before(i) => if i + 1 < n {
            (Stage::Before((i + 1) as usize), Action::RunBefore((i + 1) as usize))
        } else {
            (Stage::Serving, Action::CallService)
        },
        Stage::Serving => if !ok {
            (Stage::WritingFallback, Action::WriteFallback)
        } else if n > 0 {
            (Stage::After(0), Action::RunAfter(0))
        } else {
            (Stage::Writing, Action::WriteResponse)
        },
        Stage::After(i) => if i + 1 < n {
            (Stage::After((i + 1) as usize), Action::RunAfter((i + 1) as usize))
        } else {
            (Stage::Writing, Action::WriteResponse)
        },
        Stage::Writing | Stage::WritingFallback => if ok {
            (Stage::Done, Action::Finish)
        } else {
            (Stage::Done, Action::Shutdown)
        },
        Stage::Done => (Stage::Done, Action::Finish),
    }
}

/// An upper bound on the steps left before the exchange is over.
pub open spec fn steps_left(stage: Stage, n: usize) -> nat {
    match stage {
        Stage::Parsing => (2 * n + 4) as nat,
        Stage::Before(i) => (2 * n + 3 - i) as nat,
        Stage::Serving => (n + 3) as nat,
        Stage::After(i) => (n + 2 - i) as nat,
        Stage::Writing | Stage::WritingFallback => 1,
        Stage::Done => 0,
    }
}

/// The indices of the hooks run in `t`, in order: the before-hooks, or with
/// `after` the after-hooks.
pub open spec fn hook_runs(t: Seq<Action>, after: bool) -> Seq<usize>
    decreases t.len(),
{
    if t.len() == 0 {
        Seq::empty()
    } else {
        let rest = hook_runs(t.drop_last(), after);
        match t.last() {
            Action::RunBefore(i) => if after {
                rest
            } else {
                rest.push(i)
            },
            Action::RunAfter(i) => if after {
                rest.push(i)
            } else {
                rest
            },
            _ => rest,
        }
    }
}

/// How many responses `t` writes, the real one and the fallback together.
pub open spec fn writes(t: Seq<Action>) -> nat
    decreases t.len(),
{
    if t.len() == 0 {
        0
    } else {
        writes(t.drop_last()) + match t.last() {
            Action::WriteResponse | Action::WriteFallback => 1nat,
            _ => 0nat,
        }
    }
}

/// How many times `t` calls the service.
pub open spec fn service_calls(t: Seq<Action>) -> nat
    decreases t.len(),
{
    if t.len() == 0 {
        0
    } else {
        service_calls(t.drop_last()) + if t.last() == Action::CallService {
            1nat
        } else {
            0nat
        }
    }
}

/// The indices `0..k` in order.
pub open spec fn indices(k: int) -> Seq<usize> {
    Seq::new(k as nat, |i: int| i as usize)
}

/// The decisions for one connection: after the request is parsed, every
/// before-hook in order, the service, on success every after-hook in order
/// and the response; on any failure the fallback response instead.
pub struct Exchange {
    middleware: usize,
    stage: Stage,
    trace: Ghost<Seq<Action>>,
    parsed: Ghost<bool>,
    served: Ghost<bool>,
}

impl Exchange {
    /// The actions asked for so far.
    pub closed spec fn trace(&self) -> Seq<Action> {
        self.trace@
    }

    /// Whether the request was parsed and routed.
    pub closed spec fn was_parsed(&self) -> bool {
        self.parsed@
    }

    /// Whether the service returned a response.
    pub closed spec fn was_served(&self) -> bool {
        self.served@
    }

    pub closed spec fn stage_spec(&self) -> Stage {
        self.stage
    }

    pub closed spec fn middleware_spec(&self) -> usize {
        self.middleware
    }

    pub closed spec fn wf(&self) -> bool {
        let t = self.trace@;
        let n = self.middleware as int;
        let p = self.parsed@;
        let s = self.served@;
        let befores_done = hook_runs(t, false) == (if p { indices(n) } else { Seq::empty() });
        &&& s ==> p
        &&& match self.stage {
            Stage::Parsing => t.len() == 0 && !p && !s,
            Stage::Before(i) => {
                &&& p && !s && i < n
                &&& hook_runs(t, false) == indices(i + 1)
                &&& hook_runs(t, true).len() == 0
                &&& writes(t) == 0 && service_calls(t) == 0
            },
            Stage::Serving => {
                &&& p && !s && befores_done
                &&& hook_runs(t, true).len() == 0
                &&& writes(t) == 0 && service_calls(t) == 1
            },
            Stage::After(i) => {
                &&& p && s && i < n && befores_done
                &&& hook_runs(t, true) == indices(i + 1)
                &&& writes(t) == 0 && service_calls(t) == 1
            },
            Stage::Writing => {
                &&& p && s && befores_done
                &&& hook_runs(t, true) == indices(n)
                &&& writes(t) == 1 && service_calls(t) == 1
            },
            Stage::WritingFallback | Stage::Done => {
                &&& befores_done
                &&& hook_runs(t, true) == (if s { indices(n) } else { Seq::empty() })
                &&& writes(t) == 1
                &&& service_calls(t) == (if p { 1nat } else { 0nat })
                &&& self.stage == Stage::WritingFallback ==> !s
            },
        }
    }

    /// A new exchange for a snapshot with `middleware` middleware, waiting
    /// for the outcome of reading and parsing the request.
    pub fn new(middleware: usize) -> (r: Self)
        ensures
            r.wf(),
            r.stage_spec() == Stage::Parsing,
            r.middleware_spec() == middleware,
            r.trace() == Seq::<Action>::empty(),
            !r.was_parsed(),
            !r.was_served(),
    {
        Exchange {
            middleware,
            stage: Stage::Parsing,
            trace: Ghost(Seq::empty()),
            parsed: Ghost(false),
            served: Ghost(false),
        }
    }

    pub fn stage(&self) -> (r: Stage)
        ensures
            r == self.stage_spec(),
    {
        self.stage
    }

    pub fn is_done(&self) -> (r: bool)
        ensures
            r == (self.stage_spec() == Stage::Done),
    {
        self.stage == Stage::Done
    }

    /// Reports whether what was asked last succeeded (for the first step:
    /// whether the request was read, parsed and routed) and gives the next
    /// action.
    pub fn step(&mut self, ok: bool) -> (a: Action)
        requires
            old(self).wf(),
            old(self).stage_spec() != Stage::Done,
        ensures
            final(self).wf(),
            (final(self).stage_spec(), a) == transition(
                old(self).stage_spec(),
                old(self).middleware_spec(),
                ok,
            ),
            final(self).middleware_spec() == old(self).middleware_spec(),
            final(self).trace() == old(self).trace().push(a),
            final(self).was_parsed() == (old(self).was_parsed() || (old(self).stage_spec()
                == Stage::Parsing && ok)),
            final(self).was_served() == (old(self).was_served() || (old(self).stage_spec()
                == Stage::Serving && ok)),
            steps_left(final(self).stage_spec(), final(self).middleware_spec()) < steps_left(
                old(self).stage_spec(),
                old(self).middleware_spec(),
            ),
    {
        let n = self.middleware;
        let (stage, action) = match self.stage {
            Stage::Parsing => if !ok {
                (Stage::WritingFallback, Action::WriteFallback)
            } else if n > 0 {
                (Stage::Before(0), Action::RunBefore(0))
            } else {
                (Stage::Serving, Action::CallService)
            },
            Stage::Before(i) => if i + 1 < n {
                (Stage::Before(i + 1), Action::RunBefore(i + 1))
            } else {
                (Stage::Serving, Action::CallService)
            },
            Stage::Serving => if !ok {
                (Stage::WritingFallback, Action::WriteFallback)
            } else if n > 0 {
                (Stage::After(0), Action::RunAfter(0))
            } else {
                (Stage::Writing, Action::WriteResponse)
            },
            Stage::After(i) => if i + 1 < n {
                (Stage::After(i + 1), Action::RunAfter(i + 1))
            } else {
                (Stage::Writing, Action::WriteResponse)
            },
            Stage::Writing | Stage::WritingFallback => if ok {
                (Stage::Done, Action::Finish)
            } else {
                (Stage::Done, Action::Shutdown)
            },
            Stage::Done => (Stage::Done, Action::Finish),
        };
        let ghost t = self.trace@;
        let ghost t2 = t.push(action);
        proof {
            assert(t2.drop_last() =~= t);
            assert(t2.last() == action);
            if t.len() == 0 {
                assert(hook_runs(t, false) == Seq::<usize>::empty());
                assert(hook_runs(t, true) == Seq::<usize>::empty());
                assert(writes(t) == 0);
                assert(service_calls(t) == 0);
            }
            if hook_runs(t, true).len() == 0 {
                assert(hook_runs(t, true) =~= Seq::<usize>::empty());
            }
            if self.stage == Stage::Parsing && ok {
                self.parsed = Ghost(true);
            }
            if self.stage == Stage::Serving && ok {
                self.served = Ghost(true);
            }
            assert(indices(0).push(0usize) =~= indices(1));
            match self.stage {
                Stage::Before(i) => {
                    assert(indices(i + 1).push((i + 1) as usize) =~= indices(i + 2));
                },
                Stage::After(i) => {
                    assert(indices(i + 1).push((i + 1) as usize) =~= indices(i + 2));
                },
                _ => {},
            }
            assert(indices(0) =~= Seq::<usize>::empty());
        }
        self.trace = Ghost(t2);
        self.stage = stage;
        action
    }
}

/// Once an exchange is over, it wrote exactly one response, the real one or
/// the fallback. It ran every before-hook once, in order, exactly when the
/// request was parsed, and called the service once then; it ran every
/// after-hook once, in order, exactly when the service succeeded.
pub proof fn lemma_finished_exchange(x: Exchange)
    requires
        x.wf(),
        x.stage_spec() == Stage::Done,
    ensures
        writes(x.trace()) == 1,
        x.was_served() ==> x.was_parsed(),
        hook_runs(x.trace(), false) == (if x.was_parsed() {
            indices(x.middleware_spec() as int)
        } else {
            Seq::empty()
        }),
        service_calls(x.trace()) == (if x.was_parsed() {
            1nat
        } else {
            0nat
        }),
        hook_runs(x.trace(), true) == (if x.was_served() {
            indices(x.middleware_spec() as int)
        } else {
            Seq::empty()
        }),
{
}

/// At no point has an exchange written more than one response.
pub proof fn lemma_at_most_one_response(x: Exchange)
    requires
        x.wf(),
    ensures
        writes(x.trace()) <= 1,
{
    if x.stage_spec() == Stage::Parsing {
        assert(writes(x.trace()) == 0);
    }
}

} // verus!
