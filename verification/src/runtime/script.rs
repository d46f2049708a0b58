//! Scripts: calls that are performed one after the other for as long as the
//! replies allow.

use vstd::prelude::*;

use crate::runtime::error::{RuntimeError, RuntimeErrorView};
use crate::runtime::host::{judge, step, HostCall, Judgement, Reply, Rule, RuleView, Step, StepView};

verus! {

/// The views of a list of steps.
pub open spec fn steps_view(steps: Seq<Step>) -> Seq<StepView> {
    steps.map_values(|s: Step| s@)
}

/// A script can be run: it has a call to make, and where a call may be
/// skipped, another one follows.
pub open spec fn runnable(steps: Seq<StepView>) -> bool {
    &&& steps.len() > 0
    &&& forall|i: int|
        0 <= i < steps.len() && (#[trigger] steps[i]).rule == RuleView::SkipIfPresent ==> i + 2
            < steps.len()
}

/// Where a script stands after a reply.
pub enum ProgressView {
    /// These steps are left; the first of them is due.
    Pending(Seq<StepView>),
    /// Every call was made; this is the last reply.
    Finished(Reply),
    /// The script ends here with an error.
    Failed(RuntimeErrorView),
}

/// What the reply to a script's first call makes of the script.
pub open spec fn after(steps: Seq<StepView>, reply: Reply) -> ProgressView {
    match judge(steps[0].rule, reply) {
        Judgement::Next => if steps.len() <= 1 {
            ProgressView::Finished(reply)
        } else {
            ProgressView::Pending(steps.skip(1))
        },
        Judgement::Skip => ProgressView::Pending(steps.skip(2)),
        Judgement::Stop(e) => ProgressView::Failed(e),
        Judgement::Unfit => ProgressView::Pending(steps),
    }
}

/// A script that is being run.
#[derive(Debug)]
pub struct Script {
    steps: Vec<Step>,
}

impl View for Script {
    type V = Seq<StepView>;

    closed spec fn view(&self) -> Seq<StepView> {
        steps_view(self.steps@)
    }
}

/// Where a running script stands after a reply.
pub enum Progress {
    Pending(Script),
    Finished(Reply),
    Failed(RuntimeError),
}

impl View for Progress {
    type V = ProgressView;

    open spec fn view(&self) -> ProgressView {
        match *self {
            Progress::Pending(s) => ProgressView::Pending(s@),
            Progress::Finished(r) => ProgressView::Finished(r),
            Progress::Failed(e) => ProgressView::Failed(e@),
        }
    }
}

/// Adds a step to a list.
pub(crate) fn push_step(steps: &mut Vec<Step>, call: HostCall, rule: Rule)
    ensures
        steps_view(final(steps)@) == steps_view(old(steps)@).push(step(call@, rule@)),
{
    let ghost before = steps@;
    steps.push(Step { call, rule });
    assert(steps_view(steps@) =~= steps_view(before).push(step(call@, rule@)));
}

/// Adds the steps of one list to another.
pub(crate) fn append_steps(steps: &mut Vec<Step>, more: Vec<Step>)
    ensures
        steps_view(final(steps)@) == steps_view(old(steps)@) + steps_view(more@),
{
    let mut more = more;
    let ghost before = steps@;
    let ghost added = more@;
    steps.append(&mut more);
    assert(steps_view(steps@) =~= steps_view(before) + steps_view(added));
}

/// Whether a reply answers the call that a rule belongs to.
fn fits(rule: &Rule, reply: &Reply) -> (r: bool)
    ensures
        r == !(judge(rule@, *reply) is Unfit),
{
    match (rule, reply) {
        (Rule::Required, Reply::Done) => true,
        (Rule::Required, Reply::Failed(_)) => true,
        (Rule::Optional, Reply::Done) => true,
        (Rule::Optional, Reply::Failed(_)) => true,
        (Rule::Limit, Reply::Done) => true,
        (Rule::Limit, Reply::Failed(_)) => true,
        (Rule::SkipIfPresent, Reply::Flag(_)) => true,
        (Rule::Expect { .. }, Reply::Flag(_)) => true,
        (Rule::Record, Reply::Record(_)) => true,
        (Rule::Record, Reply::Failed(_)) => true,
        (Rule::Text, Reply::Text(_)) => true,
        (Rule::Text, Reply::Failed(_)) => true,
        (Rule::Process, Reply::Forked(_)) => true,
        (Rule::Process, Reply::Failed(_)) => true,
        (Rule::Exit, Reply::Exited(_)) => true,
        (Rule::Exit, Reply::Failed(_)) => true,
        _ => false,
    }
}

/// What to do after a fitting reply.
enum Move {
    Next(Reply),
    Skip,
    Stop(RuntimeError),
}

fn decide(rule: Rule, reply: Reply) -> (m: Move)
    requires
        !(judge(rule@, reply) is Unfit),
    ensures
        match judge(rule@, reply) {
            Judgement::Next => m == Move::Next(reply),
            Judgement::Skip => m is Skip,
            Judgement::Stop(e) => m matches Move::Stop(x) && x@ == e,
            Judgement::Unfit => false,
        },
{
    match (rule, reply) {
        (Rule::Optional, reply) => Move::Next(reply),
        (Rule::Limit, Reply::Failed(f)) => Move::Stop(f.into_limit_error()),
        (_, Reply::Failed(f)) => Move::Stop(f.into_error()),
        (Rule::SkipIfPresent, Reply::Flag(true)) => Move::Skip,
        (Rule::Expect { flag, otherwise }, Reply::Flag(b)) => if b == flag {
            Move::Next(Reply::Flag(b))
        } else {
            Move::Stop(otherwise)
        },
        (_, reply) => Move::Next(reply),
    }
}

impl Script {
    #[verifier::type_invariant]
    spec fn inv(self) -> bool {
        runnable(steps_view(self.steps@))
    }

    /// A script of the given steps.
    pub(crate) fn new(steps: Vec<Step>) -> (s: Script)
        requires
            runnable(steps_view(steps@)),
        ensures
            s@ == steps_view(steps@),
    {
        Script { steps }
    }

    /// The call that is due.
    pub fn call(&self) -> (c: &HostCall)
        ensures
            self@.len() > 0,
            c@ == self@[0].call,
    {
        proof {
            use_type_invariant(self);
        }
        &self.steps[0].call
    }

    /// Takes the reply to the call that is due.
    pub fn resume(self, reply: Reply) -> (p: Progress)
        ensures
            runnable(self@),
            p@ == after(self@, reply),
    {
        proof {
            use_type_invariant(&self);
        }
        if !fits(&self.steps[0].rule, &reply) {
            return Progress::Pending(self);
        }
        let ghost all = self.steps@;
        let mut steps = self.steps;
        let first = steps.remove(0);
        assert(steps_view(steps@) =~= steps_view(all).skip(1));
        match decide(first.rule, reply) {
            Move::Next(r) => {
                if steps.len() == 0 {
                    Progress::Finished(r)
                } else {
                    proof {
                        lemma_rest_runnable(steps_view(all), 1);
                    }
                    Progress::Pending(Script { steps })
                }
            },
            Move::Skip => {
                steps.remove(0);
                assert(steps_view(steps@) =~= steps_view(all).skip(2));
                proof {
                    lemma_rest_runnable(steps_view(all), 2);
                }
                Progress::Pending(Script { steps })
            },
            Move::Stop(e) => Progress::Failed(e),
        }
    }
}

/// What is left of a script that can be run can be run.
pub(crate) proof fn lemma_rest_runnable(steps: Seq<StepView>, n: int)
    requires
        runnable(steps),
        0 <= n < steps.len(),
    ensures
        runnable(steps.skip(n)),
{
    assert forall|i: int|
        0 <= i < steps.skip(n).len() && (#[trigger] steps.skip(n)[i]).rule
            == RuleView::SkipIfPresent implies i + 2 < steps.skip(n).len() by {
        assert(steps[i + n].rule == RuleView::SkipIfPresent);
    }
}

} // verus!
