//! What holds of the runtime as a whole.

use vstd::prelude::*;
use vstd::string::*;
use vstd::utf8::*;

use crate::runtime::cgroup::{
    controller_steps, group_of, lemma_limits_runnable, limit_steps, number_steps, opt_i64, opt_u64,
    resource_steps, write_step,
};
use crate::runtime::config::{
    launch_of, nul_error, or_none, parsed_config, LaunchView, LinuxConfig, OciConfigView,
    ResourceConfig,
};
use crate::runtime::container::{
    config_file, config_steps, container_of, create_steps, ended, enter_steps, fork_steps, fresh,
    isolate_steps, own_namespaces, plain, program_of, started, supervise_steps, ContainerView,
};
use crate::runtime::error::RuntimeErrorView;
use crate::runtime::host::{
    failure_error, judge, step, Failure, HostCallView, Namespace, Reply, RuleView, StepView,
};
use crate::runtime::path::trimmed;
use crate::runtime::record::{
    dir_of, fifo_file, law_record_is_kept_in_container_dir, load_steps, record_of, save_steps,
    state_file, OciState, OciStateView,
};
use crate::runtime::script::{after, lemma_rest_runnable, runnable, ProgressView};
use crate::runtime::session::{
    advance, creating, found, gives, leads, loading, starting, SessionView, StageView, TurnView,
};
use crate::runtime::state::{law_words_name_states, ContainerState};
use crate::runtime::text::decimal;

verus! {

proof fn lemma_pid_round_trip(p: u32)
    ensures
        (p as i32) as u32 == p,
{
    assert((p as i32) as u32 == p) by (bit_vector);
}

proof fn lemma_recorded_pid_round_trip(p: i32)
    ensures
        (p as u32) as i32 == p,
{
    assert((p as u32) as i32 == p) by (bit_vector);
}

/// A record tells its container again. Only the bytes of a bundle path that
/// is not text can be lost.
pub proof fn law_record_tells_its_container(c: ContainerView)
    ensures
        container_of(record_of(c)) matches Ok(d) && d.id == c.id && d.state == c.state && d.pid
            == c.pid && (valid_utf8(c.bundle) ==> d == c),
{
    law_words_name_states(c.state, record_of(c).status);
    if c.pid is Some {
        lemma_pid_round_trip(c.pid->0);
    }
    if valid_utf8(c.bundle) {
        decode_utf8_encode_utf8(c.bundle);
    }
}

/// A container that was read from a record has that record again.
pub proof fn law_container_keeps_its_record(record: OciStateView)
    requires
        container_of(record) is Ok,
    ensures
        record_of(container_of(record)->Ok_0) == (OciStateView {
            oci_version: "1.0.2"@,
            ..record
        }),
{
    let c = container_of(record)->Ok_0;
    law_words_name_states(c.state, record.status);
    if record.pid is Some {
        lemma_recorded_pid_round_trip(record.pid->0);
    }
    encode_utf8_valid_utf8(record.bundle);
    encode_utf8_decode_utf8(record.bundle);
}

/// To save a record is to make the container's directory and then to write
/// the record to the state file.
pub proof fn law_save_makes_the_directory_first(record: OciStateView, id: Seq<char>)
    ensures
        save_steps(record, id) == seq![
            step(HostCallView::CreateDirAll(trimmed(dir_of(id))), RuleView::Required),
            step(
                HostCallView::WriteState { path: state_file(id), state: record },
                RuleView::Required,
            ),
        ],
{
    law_record_is_kept_in_container_dir(id);
}

/// What is read back of a container that was saved is that container: it is
/// read from where it was written, and the record leads to it.
pub proof fn law_saved_container_is_found(c: ContainerView)
    requires
        valid_utf8(c.bundle),
    ensures
        save_steps(record_of(c), c.id).last().call == (HostCallView::WriteState {
            path: state_file(c.id),
            state: record_of(c),
        }),
        load_steps(c.id).last().call == HostCallView::ReadState(state_file(c.id)),
        found(c.id, false, record_of(c)) == TurnView::Loaded(c),
{
    law_record_tells_its_container(c);
    law_save_makes_the_directory_first(record_of(c), c.id);
}

/// A record is taken for the container of its own identifier only.
pub proof fn law_found_container_has_the_identifier(
    id: Seq<char>,
    record: OciStateView,
    c: ContainerView,
)
    requires
        found(id, false, record) == TurnView::Loaded(c),
    ensures
        c.id == id,
        record.id == id,
{
}

/// The record that is written when a container is created leads to that
/// container, ready to be started.
pub proof fn law_created_container_can_be_started(id: Seq<char>, bundle: Seq<u8>)
    requires
        valid_utf8(bundle),
    ensures
        create_steps(id, bundle).last().call == (HostCallView::WriteState {
            path: state_file(id),
            state: record_of(fresh(id, bundle)),
        }),
        found(id, true, record_of(fresh(id, bundle))) == TurnView::Pending(
            SessionView {
                stage: StageView::Configuring(fresh(id, bundle)),
                steps: config_steps(bundle),
            },
        ),
{
    law_record_tells_its_container(fresh(id, bundle));
    law_save_makes_the_directory_first(record_of(fresh(id, bundle)), id);
}

/// A container can be started from the created state and from no other.
pub proof fn law_only_created_containers_start(c: ContainerView)
    ensures
        starting(c) is Pending <==> c.state == ContainerState::Created,
        c.state != ContainerState::Created ==> (starting(c) matches TurnView::Failed(e)
            && e is InvalidState),
{
}

/// A container whose process ran is not started again.
pub proof fn law_ended_container_does_not_start(c: ContainerView)
    ensures
        starting(ended(c)) is Failed,
{
}

/// A bundle that is not a directory is refused, and nothing is done.
pub proof fn law_create_refuses_other_than_directories(
    id: Seq<char>,
    bundle: Seq<u8>,
    turn: TurnView,
)
    requires
        leads(creating(id, bundle), Reply::Flag(false), turn),
    ensures
        turn == TurnView::Failed(RuntimeErrorView::InvalidBundle(bundle)),
{
}

/// An identifier that is taken is refused, and nothing is done.
pub proof fn law_create_refuses_taken_identifiers(
    id: Seq<char>,
    bundle: Seq<u8>,
    replies: Seq<Reply>,
    turn: TurnView,
)
    requires
        replies == seq![Reply::Flag(true), Reply::Flag(true)],
        runs(creating(id, bundle), replies, turn),
    ensures
        turn == TurnView::Failed(RuntimeErrorView::ContainerAlreadyExists(id)),
{
    let s = creating(id, bundle);
    let next = SessionView { stage: s.stage, steps: s.steps.skip(1) };
    assert(replies.skip(1) =~= seq![Reply::Flag(true)]);
    reveal(turns);
    assert(runs(next, replies.skip(1), turn));
    assert(next.steps[0] == create_steps(id, bundle)[1]);
}

/// A bundle without a configuration is refused, and nothing is recorded.
pub proof fn law_create_refuses_bundles_without_configuration(
    id: Seq<char>,
    bundle: Seq<u8>,
    replies: Seq<Reply>,
    turn: TurnView,
)
    requires
        replies == seq![Reply::Flag(true), Reply::Flag(false), Reply::Done, Reply::Flag(false)],
        runs(creating(id, bundle), replies, turn),
    ensures
        turn == TurnView::Failed(RuntimeErrorView::ConfigNotFound(config_file(bundle))),
        forall|i: int|
            0 <= i < replies.len() ==> !((#[trigger] create_steps(id, bundle)[i]).call
                is WriteState),
{
    let s0 = creating(id, bundle);
    let s1 = SessionView { stage: s0.stage, steps: s0.steps.skip(1) };
    let s2 = SessionView { stage: s0.stage, steps: s0.steps.skip(2) };
    let s3 = SessionView { stage: s0.stage, steps: s0.steps.skip(3) };
    assert(s1.steps.skip(1) =~= s2.steps);
    assert(s2.steps.skip(1) =~= s3.steps);
    assert(s1.steps[0] == s0.steps[1]);
    assert(s2.steps[0] == s0.steps[2]);
    assert(s3.steps[0] == s0.steps[3]);
    reveal(turns);
    assert(runs(s1, replies.skip(1), turn));
    assert(runs(s2, replies.skip(1).skip(1), turn));
    assert(runs(s3, replies.skip(1).skip(1).skip(1), turn));
}

/// An identifier under which nothing is recorded is reported as such.
pub proof fn law_load_reports_unknown_identifiers(id: Seq<char>, start: bool, turn: TurnView)
    requires
        leads(loading(id, start), Reply::Flag(false), turn),
    ensures
        turn == TurnView::Failed(RuntimeErrorView::ContainerNotFound(id)),
{
}

/// A bundle without a configuration is reported as such.
pub proof fn law_start_reports_missing_configuration(c: ContainerView, turn: TurnView)
    requires
        c.state == ContainerState::Created,
        leads(starting(c)->Pending_0, Reply::Flag(false), turn),
    ensures
        turn == TurnView::Failed(RuntimeErrorView::ConfigNotFound(config_file(c.bundle))),
{
}

/// The failure of a call that must succeed ends the session and is reported.
pub proof fn law_required_failure_ends_the_session(
    session: SessionView,
    failure: Failure,
    turn: TurnView,
)
    requires
        session.steps.len() > 0,
        session.steps[0].rule == RuleView::Required,
        leads(session, Reply::Failed(failure), turn),
    ensures
        turn == TurnView::Failed(failure_error(failure)),
{
}

/// A failed operation on a control group ends the session and is reported as
/// one.
pub proof fn law_failed_limit_is_reported_as_one(
    session: SessionView,
    error: std::io::Error,
    turn: TurnView,
)
    requires
        session.steps.len() > 0,
        session.steps[0].rule == RuleView::Limit,
        leads(session, Reply::Failed(Failure::Io(error)), turn),
    ensures
        turn == TurnView::Failed(RuntimeErrorView::CgroupError(error)),
{
}

/// The failure of a call that may fail makes no difference, where another
/// call follows.
pub proof fn law_optional_failure_makes_no_difference(
    session: SessionView,
    failure: Failure,
    turn: TurnView,
)
    requires
        session.steps.len() > 1,
        session.steps[0].rule == RuleView::Optional,
    ensures
        leads(session, Reply::Failed(failure), turn) <==> leads(session, Reply::Done, turn),
{
}

/// A reply that does not answer the call that is due leaves the session as it
/// is.
pub proof fn law_unfit_reply_changes_nothing(
    session: SessionView,
    reply: Reply,
    turn: TurnView,
)
    requires
        session.steps.len() > 0,
        judge(session.steps[0].rule, reply) is Unfit,
        leads(session, reply, turn),
    ensures
        turn == TurnView::Pending(session),
{
}

/// A reply leads a session to an outcome, as [`leads`] says.
#[verifier::opaque]
pub open spec fn turns(session: SessionView, reply: Reply, turn: TurnView) -> bool {
    leads(session, reply, turn)
}

/// A sequence of replies leads a session to an outcome.
pub open spec fn runs(session: SessionView, replies: Seq<Reply>, turn: TurnView) -> bool
    decreases replies.len(),
{
    if replies.len() == 0 {
        turn == TurnView::Pending(session)
    } else {
        exists|next: TurnView|
            {
                &&& #[trigger] turns(session, replies[0], next)
                &&& match next {
                    TurnView::Pending(s) => runs(s, replies.skip(1), turn),
                    _ => replies.len() == 1 && turn == next,
                }
            }
    }
}

/// A sequence of replies lets a script come to its end.
pub open spec fn completes(steps: Seq<StepView>, replies: Seq<Reply>) -> bool
    decreases replies.len(),
{
    replies.len() > 0 && match after(steps, replies[0]) {
        ProgressView::Pending(rest) => completes(rest, replies.skip(1)),
        ProgressView::Finished(_) => replies.len() == 1,
        ProgressView::Failed(_) => false,
    }
}

proof fn lemma_reply_within_stage(session: SessionView, reply: Reply)
    requires
        after(session.steps, reply) is Pending,
    ensures
        turns(
            session,
            reply,
            TurnView::Pending(
                SessionView {
                    stage: session.stage,
                    steps: after(session.steps, reply)->Pending_0,
                },
            ),
        ),
{
    reveal(turns);
}

proof fn lemma_stage_runs(session: SessionView, replies: Seq<Reply>, turn: TurnView)
    requires
        completes(session.steps, replies),
        forall|steps: Seq<StepView>|
            after(steps, replies.last()) is Finished ==> #[trigger] turns(
                SessionView { stage: session.stage, steps },
                replies.last(),
                turn,
            ),
    ensures
        runs(session, replies, turn),
    decreases replies.len(),
{
    reveal_with_fuel(completes, 2);
    reveal_with_fuel(runs, 2);
    match after(session.steps, replies[0]) {
        ProgressView::Pending(rest) => {
            let next = SessionView { stage: session.stage, steps: rest };
            assert(replies.skip(1).last() == replies.last());
            lemma_stage_runs(next, replies.skip(1), turn);
            lemma_reply_within_stage(session, replies[0]);
        },
        ProgressView::Finished(r) => {
            let same = SessionView { stage: session.stage, steps: session.steps };
            assert(turns(same, replies.last(), turn));
            assert(turns(session, replies[0], turn));
            if turn is Pending {
                assert(replies.skip(1).len() == 0);
            }
        },
        ProgressView::Failed(_) => {},
    }
}

proof fn lemma_runs_chain(
    a: SessionView,
    first: Seq<Reply>,
    b: SessionView,
    rest: Seq<Reply>,
    turn: TurnView,
)
    requires
        runs(a, first, TurnView::Pending(b)),
        runs(b, rest, turn),
    ensures
        runs(a, first + rest, turn),
    decreases first.len(),
{
    if first.len() == 0 {
        assert(first + rest =~= rest);
    } else {
        let next = choose|next: TurnView|
            {
                &&& #[trigger] turns(a, first[0], next)
                &&& match next {
                    TurnView::Pending(s) => runs(s, first.skip(1), TurnView::Pending(b)),
                    _ => first.len() == 1 && TurnView::Pending(b) == next,
                }
            };
        assert((first + rest)[0] == first[0]);
        assert((first + rest).skip(1) =~= first.skip(1) + rest);
        match next {
            TurnView::Pending(s) => {
                lemma_runs_chain(s, first.skip(1), b, rest, turn);
            },
            _ => {},
        }
        assert(turns(a, (first + rest)[0], next));
    }
}

proof fn lemma_stage_ends(session: SessionView, replies: Seq<Reply>, turn: TurnView)
    requires
        completes(session.steps, replies),
        turn == advance(session.stage, replies.last()),
    ensures
        runs(session, replies, turn),
{
    assert forall|steps: Seq<StepView>|
        after(steps, replies.last()) is Finished implies #[trigger] turns(
        SessionView { stage: session.stage, steps },
        replies.last(),
        turn,
    ) by {
        reveal(turns);
    }
    lemma_stage_runs(session, replies, turn);
}

/// The replies to all the calls of a creation, if they let it come to its
/// end, lead to the new container.
pub proof fn law_create_succeeds(id: Seq<char>, bundle: Seq<u8>, replies: Seq<Reply>)
    requires
        completes(create_steps(id, bundle), replies),
    ensures
        runs(creating(id, bundle), replies, TurnView::Created(fresh(id, bundle))),
{
    lemma_stage_ends(creating(id, bundle), replies, TurnView::Created(fresh(id, bundle)));
}

/// What a load finds is what its last reply, the record, leads to.
pub proof fn law_load_finds_the_record(id: Seq<char>, replies: Seq<Reply>, record: OciState)
    requires
        completes(load_steps(id), replies),
        replies.last() == Reply::Record(record),
    ensures
        runs(loading(id, false), replies, found(id, false, record@)),
{
    lemma_stage_ends(loading(id, false), replies, found(id, false, record@));
}

/// A created container, whose configuration can be launched, is forked off,
/// runs under its parent, and is stopped in the end, if no call fails.
pub proof fn law_start_runs_to_the_end(
    c: ContainerView,
    text: String,
    config: OciConfigView,
    launch: LaunchView,
    pid: u32,
    configuring: Seq<Reply>,
    forking: Seq<Reply>,
    supervising: Seq<Reply>,
    recording: Seq<Reply>,
)
    requires
        c.state == ContainerState::Created,
        completes(config_steps(c.bundle), configuring),
        configuring.last() == Reply::Text(text),
        parsed_config(text@) == Ok::<OciConfigView, serde_json::Error>(config),
        launch_of(config) == Ok::<LaunchView, RuntimeErrorView>(launch),
        completes(fork_steps(launch.terminal), forking),
        forking.last() == Reply::Forked(Some(pid)),
        completes(supervise_steps(c, launch, pid), supervising),
        completes(save_steps(record_of(ended(started(c, pid))), c.id), recording),
    ensures
        starting(c) is Pending,
        runs(
            starting(c)->Pending_0,
            configuring + forking + supervising + recording,
            TurnView::Ended(ended(started(c, pid))),
        ),
{
    let s1 = starting(c)->Pending_0;
    let s2 = SessionView {
        stage: StageView::Launching(c, launch),
        steps: fork_steps(launch.terminal),
    };
    let s3 = SessionView {
        stage: StageView::Supervising(started(c, pid)),
        steps: supervise_steps(c, launch, pid),
    };
    let stopped = ended(started(c, pid));
    let s4 = SessionView {
        stage: StageView::Recording(stopped),
        steps: save_steps(record_of(stopped), c.id),
    };
    lemma_stage_ends(s1, configuring, TurnView::Pending(s2));
    lemma_stage_ends(s2, forking, TurnView::Pending(s3));
    lemma_stage_ends(s3, supervising, TurnView::Pending(s4));
    lemma_stage_ends(s4, recording, TurnView::Ended(stopped));
    lemma_runs_chain(s1, configuring, s2, forking, TurnView::Pending(s3));
    lemma_runs_chain(s1, configuring + forking, s3, supervising, TurnView::Pending(s4));
    lemma_runs_chain(
        s1,
        configuring + forking + supervising,
        s4,
        recording,
        TurnView::Ended(stopped),
    );
}

/// The command that starts a container, given the record that its creation
/// wrote, runs the container to its end, if no call fails.
pub proof fn law_created_container_runs_to_the_end(
    id: Seq<char>,
    bundle: Seq<u8>,
    record: OciState,
    text: String,
    config: OciConfigView,
    launch: LaunchView,
    pid: u32,
    looking: Seq<Reply>,
    configuring: Seq<Reply>,
    forking: Seq<Reply>,
    supervising: Seq<Reply>,
    recording: Seq<Reply>,
)
    requires
        valid_utf8(bundle),
        record@ == record_of(fresh(id, bundle)),
        completes(load_steps(id), looking),
        looking.last() == Reply::Record(record),
        completes(config_steps(bundle), configuring),
        configuring.last() == Reply::Text(text),
        parsed_config(text@) == Ok::<OciConfigView, serde_json::Error>(config),
        launch_of(config) == Ok::<LaunchView, RuntimeErrorView>(launch),
        completes(fork_steps(launch.terminal), forking),
        forking.last() == Reply::Forked(Some(pid)),
        completes(supervise_steps(fresh(id, bundle), launch, pid), supervising),
        completes(save_steps(record_of(ended(started(fresh(id, bundle), pid))), id), recording),
    ensures
        runs(
            loading(id, true),
            looking + (configuring + forking + supervising + recording),
            TurnView::Ended(ended(started(fresh(id, bundle), pid))),
        ),
{
    let c = fresh(id, bundle);
    law_created_container_can_be_started(id, bundle);
    lemma_stage_ends(loading(id, true), looking, starting(c));
    law_start_runs_to_the_end(
        c,
        text,
        config,
        launch,
        pid,
        configuring,
        forking,
        supervising,
        recording,
    );
    lemma_runs_chain(
        loading(id, true),
        looking,
        starting(c)->Pending_0,
        configuring + forking + supervising + recording,
        TurnView::Ended(ended(started(c, pid))),
    );
}

/// The child of the fork becomes the first process in the container: having
/// left the host's namespaces it forks again, and that child goes on to the
/// program.
pub proof fn law_child_goes_on_to_the_program(
    c: ContainerView,
    launch: LaunchView,
    forking: Seq<Reply>,
    isolating: Seq<Reply>,
)
    requires
        completes(fork_steps(launch.terminal), forking),
        forking.last() == Reply::Forked(None),
        completes(isolate_steps(c.bundle), isolating),
        isolating.last() == Reply::Forked(None),
    ensures
        runs(
            SessionView {
                stage: StageView::Launching(c, launch),
                steps: fork_steps(launch.terminal),
            },
            forking + isolating,
            TurnView::Pending(
                SessionView { stage: StageView::Entering, steps: enter_steps(launch) },
            ),
        ),
{
    let s1 = SessionView {
        stage: StageView::Launching(c, launch),
        steps: fork_steps(launch.terminal),
    };
    let s2 = SessionView {
        stage: StageView::Isolating(launch),
        steps: isolate_steps(c.bundle),
    };
    let s3 = SessionView { stage: StageView::Entering, steps: enter_steps(launch) };
    lemma_stage_ends(s1, forking, TurnView::Pending(s2));
    lemma_stage_ends(s2, isolating, TurnView::Pending(s3));
    lemma_runs_chain(s1, forking, s2, isolating, TurnView::Pending(s3));
}

/// A container has an identifier and, where one is given, a bundle.
pub open spec fn is_of(c: ContainerView, id: Seq<char>, bundle: Option<Seq<u8>>) -> bool {
    c.id == id && (bundle matches Some(b) ==> c.bundle == b)
}

/// What a stage knows of the container with an identifier and a bundle. The
/// bundle of a container that has to be looked up is not known beforehand.
pub open spec fn concerns(stage: StageView, id: Seq<char>, bundle: Option<Seq<u8>>) -> bool {
    match stage {
        StageView::Creating(c) => is_of(c, id, bundle) && c == fresh(c.id, c.bundle),
        StageView::Loading { id: sought, .. } => sought == id && bundle is None,
        StageView::Configuring(c) => is_of(c, id, bundle) && c.state == ContainerState::Created,
        StageView::Launching(c, _) => is_of(c, id, bundle) && c.state == ContainerState::Created,
        StageView::Supervising(c) => is_of(c, id, bundle) && c.state == ContainerState::Running
            && c.pid is Some,
        StageView::Recording(c) => is_of(c, id, bundle) && c.state == ContainerState::Stopped
            && c.pid is Some,
        _ => true,
    }
}

/// No step refuses an action of the life cycle.
pub open spec fn refuses_no_action(steps: Seq<StepView>) -> bool {
    forall|i: int|
        0 <= i < steps.len() ==> ((#[trigger] steps[i]).rule matches RuleView::Expect {
            otherwise,
            ..
        } ==> !(otherwise is InvalidAction))
}

/// A session is about the container with an identifier and a bundle, and can
/// be run.
pub open spec fn tied(session: SessionView, id: Seq<char>, bundle: Option<Seq<u8>>) -> bool {
    &&& runnable(session.steps)
    &&& gives(session.stage, session.steps)
    &&& refuses_no_action(session.steps)
    &&& concerns(session.stage, id, bundle)
}

/// An outcome is about the container with an identifier and a bundle:
/// a container that was created is new, one that ended is stopped and has
/// a process number, and no action of the life cycle was refused.
pub open spec fn settled(turn: TurnView, id: Seq<char>, bundle: Option<Seq<u8>>) -> bool {
    match turn {
        TurnView::Pending(next) => tied(next, id, bundle),
        TurnView::Created(c) => is_of(c, id, bundle) && c == fresh(c.id, c.bundle),
        TurnView::Loaded(c) => is_of(c, id, bundle),
        TurnView::Ended(c) => is_of(c, id, bundle) && c.state == ContainerState::Stopped && c.pid
            is Some,
        TurnView::Exit(_) => true,
        TurnView::Failed(e) => !(e is InvalidAction),
    }
}

proof fn lemma_nul_error_kind(list: Seq<Seq<char>>)
    ensures
        nul_error(list) matches Some(e) ==> e is CStringError,
    decreases list.len(),
{
    if list.len() > 0 {
        lemma_nul_error_kind(list.drop_last());
    }
}

proof fn lemma_launch_error_kind(config: OciConfigView)
    ensures
        launch_of(config) matches Err(e) ==> e is CStringError || e is InvalidState,
{
    if config.process is Some {
        lemma_nul_error_kind(or_none(config.process->0.args));
        lemma_nul_error_kind(or_none(config.process->0.env));
    }
}

proof fn lemma_supervision_runs(c: ContainerView, launch: LaunchView, pid: u32)
    ensures
        runnable(supervise_steps(c, launch, pid)),
        refuses_no_action(supervise_steps(c, launch, pid)),
{
    let limits = limit_steps(group_of(c.id), launch.linux, pid);
    lemma_limits_runnable(group_of(c.id), launch.linux, pid);
    law_save_makes_the_directory_first(record_of(started(c, pid)), c.id);
    let steps = supervise_steps(c, launch, pid);
    assert forall|i: int| 0 <= i < steps.len() implies {
        &&& (#[trigger] steps[i]).rule == RuleView::SkipIfPresent ==> i + 2 < steps.len()
        &&& !(steps[i].rule is Expect)
    } by {
        if i < limits.len() {
            assert(steps[i] == limits[i]);
        }
    }
}

/// The sessions that create a container, look one up or start one are about
/// that container, and can be run.
pub proof fn law_sessions_begin_tied(id: Seq<char>, bundle: Seq<u8>, start: bool, c: ContainerView)
    ensures
        tied(creating(id, bundle), id, Some(bundle)),
        tied(loading(id, start), id, None),
        starting(c) matches TurnView::Pending(s) ==> tied(s, c.id, Some(c.bundle)),
{
    law_save_makes_the_directory_first(record_of(fresh(id, bundle)), id);
}

proof fn lemma_lookup_settles(id: Seq<char>, start: bool, record: OciStateView)
    ensures
        settled(found(id, start, record), id, None),
{
    if container_of(record) is Ok {
        let c = container_of(record)->Ok_0;
        law_sessions_begin_tied(id, c.bundle, start, c);
    }
}

proof fn lemma_configuration_settles(
    c: ContainerView,
    text: String,
    id: Seq<char>,
    bundle: Option<Seq<u8>>,
)
    requires
        concerns(StageView::Configuring(c), id, bundle),
    ensures
        settled(advance(StageView::Configuring(c), Reply::Text(text)), id, bundle),
{
    if parsed_config(text@) is Ok {
        lemma_launch_error_kind(parsed_config(text@)->Ok_0);
    }
}

proof fn lemma_fork_settles(
    c: ContainerView,
    launch: LaunchView,
    child: Option<u32>,
    id: Seq<char>,
    bundle: Option<Seq<u8>>,
)
    requires
        concerns(StageView::Launching(c, launch), id, bundle),
    ensures
        settled(advance(StageView::Launching(c, launch), Reply::Forked(child)), id, bundle),
{
    if let Some(pid) = child {
        lemma_supervision_runs(c, launch, pid);
    }
}

proof fn lemma_exit_settles(
    c: ContainerView,
    reply: Reply,
    id: Seq<char>,
    bundle: Option<Seq<u8>>,
)
    requires
        concerns(StageView::Supervising(c), id, bundle),
    ensures
        settled(advance(StageView::Supervising(c), reply), id, bundle),
{
    law_save_makes_the_directory_first(record_of(ended(c)), c.id);
}

proof fn lemma_isolation_settles(
    launch: LaunchView,
    child: Option<u32>,
    id: Seq<char>,
    bundle: Option<Seq<u8>>,
)
    ensures
        settled(advance(StageView::Isolating(launch), Reply::Forked(child)), id, bundle),
{
}

proof fn lemma_stage_settles(
    session: SessionView,
    reply: Reply,
    id: Seq<char>,
    bundle: Option<Seq<u8>>,
)
    requires
        tied(session, id, bundle),
        after(session.steps, reply) is Finished,
    ensures
        settled(advance(session.stage, reply), id, bundle),
{
    assert(session.steps[0].rule == session.steps.last().rule);
    match session.stage {
        StageView::Loading { start, .. } => {
            lemma_lookup_settles(id, start, reply->Record_0@);
        },
        StageView::Configuring(c) => {
            lemma_configuration_settles(c, reply->Text_0, id, bundle);
        },
        StageView::Launching(c, launch) => {
            lemma_fork_settles(c, launch, reply->Forked_0, id, bundle);
        },
        StageView::Supervising(c) => {
            lemma_exit_settles(c, reply, id, bundle);
        },
        StageView::Isolating(launch) => {
            lemma_isolation_settles(launch, reply->Forked_0, id, bundle);
        },
        _ => {},
    }
}

proof fn lemma_failure_settles(session: SessionView, reply: Reply)
    requires
        runnable(session.steps),
        refuses_no_action(session.steps),
        after(session.steps, reply) is Failed,
    ensures
        !(after(session.steps, reply)->Failed_0 is InvalidAction),
{
}

/// A session stays with its container: whatever the reply, it goes on with
/// that container or ends with it.
pub proof fn law_session_stays_with_its_container(
    session: SessionView,
    reply: Reply,
    turn: TurnView,
    id: Seq<char>,
    bundle: Option<Seq<u8>>,
)
    requires
        tied(session, id, bundle),
        leads(session, reply, turn),
    ensures
        settled(turn, id, bundle),
{
    match after(session.steps, reply) {
        ProgressView::Pending(rest) => {
            lemma_rest_tied(session, reply, rest);
        },
        ProgressView::Finished(_) => {
            lemma_stage_settles(session, reply, id, bundle);
        },
        ProgressView::Failed(_) => {
            lemma_failure_settles(session, reply);
        },
    }
}

proof fn lemma_rest_tied(session: SessionView, reply: Reply, rest: Seq<StepView>)
    requires
        runnable(session.steps),
        gives(session.stage, session.steps),
        refuses_no_action(session.steps),
        after(session.steps, reply) == ProgressView::Pending(rest),
    ensures
        runnable(rest),
        gives(session.stage, rest),
        refuses_no_action(rest),
{
    let steps = session.steps;
    assert(steps[0].rule == RuleView::SkipIfPresent ==> 2 < steps.len());
    let n = steps.len() - rest.len();
    assert(rest =~= steps.skip(n));
    lemma_rest_runnable(steps, n);
    assert(rest.last() == steps.last());
    assert forall|i: int| 0 <= i < rest.len() implies (
    (#[trigger] rest[i]).rule matches RuleView::Expect { otherwise, .. } ==> !(otherwise
        is InvalidAction)) by {
        assert(rest[i] == steps[i + n]);
    }
}

/// A session stays with its container over a whole run: whatever the replies,
/// a container that was created is new, one that ended is stopped and has
/// a process number, and no action of the life cycle is refused on the way.
pub proof fn law_run_stays_with_its_container(
    session: SessionView,
    replies: Seq<Reply>,
    turn: TurnView,
    id: Seq<char>,
    bundle: Option<Seq<u8>>,
)
    requires
        tied(session, id, bundle),
        runs(session, replies, turn),
    ensures
        settled(turn, id, bundle),
    decreases replies.len(),
{
    if replies.len() > 0 {
        let next = choose|next: TurnView|
            {
                &&& #[trigger] turns(session, replies[0], next)
                &&& match next {
                    TurnView::Pending(s) => runs(s, replies.skip(1), turn),
                    _ => replies.len() == 1 && turn == next,
                }
            };
        assert(leads(session, replies[0], next)) by {
            reveal(turns);
        }
        law_session_stays_with_its_container(session, replies[0], next, id, bundle);
        if let TurnView::Pending(s) = next {
            law_run_stays_with_its_container(s, replies.skip(1), turn, id, bundle);
        }
    }
}

/// While a script is run, a call is made and done.
pub open spec fn performed(steps: Seq<StepView>, replies: Seq<Reply>, call: HostCallView) -> bool
    decreases replies.len(),
{
    replies.len() > 0 && {
        ||| steps[0].call == call && replies[0] is Done
        ||| (after(steps, replies[0]) matches ProgressView::Pending(rest) && performed(
            rest,
            replies.skip(1),
            call,
        ))
    }
}

/// A script that comes to its end has done every call that must succeed,
/// where none is skipped.
pub proof fn law_completed_script_did_its_calls(
    steps: Seq<StepView>,
    replies: Seq<Reply>,
    k: int,
)
    requires
        completes(steps, replies),
        forall|i: int|
            0 <= i < steps.len() ==> (#[trigger] steps[i]).rule != RuleView::SkipIfPresent,
        0 <= k < steps.len(),
        steps[k].rule == RuleView::Required,
    ensures
        performed(steps, replies, steps[k].call),
    decreases replies.len(),
{
    assert(steps[0].rule != RuleView::SkipIfPresent);
    if !(k == 0 && replies[0] is Done) {
        if let ProgressView::Pending(rest) = after(steps, replies[0]) {
            let n = steps.len() - rest.len();
            assert(rest =~= steps.skip(n));
            assert(k >= n);
            assert forall|i: int| 0 <= i < rest.len() implies (#[trigger] rest[i]).rule
                != RuleView::SkipIfPresent by {
                assert(rest[i] == steps[i + n]);
            }
            assert(rest[k - n] == steps[k]);
            law_completed_script_did_its_calls(rest, replies.skip(1), k - n);
        }
    }
}

proof fn lemma_created_run_completes(session: SessionView, replies: Seq<Reply>, c: ContainerView)
    requires
        session.stage is Creating,
        runs(session, replies, TurnView::Created(c)),
    ensures
        completes(session.steps, replies),
        session.stage == StageView::Creating(c),
    decreases replies.len(),
{
    let turn = TurnView::Created(c);
    let next = choose|next: TurnView|
        {
            &&& #[trigger] turns(session, replies[0], next)
            &&& match next {
                TurnView::Pending(s) => runs(s, replies.skip(1), turn),
                _ => replies.len() == 1 && turn == next,
            }
        };
    assert(leads(session, replies[0], next)) by {
        reveal(turns);
    }
    if let TurnView::Pending(s) = next {
        lemma_created_run_completes(s, replies.skip(1), c);
    }
}

/// A container that was created is new, and it has its directory, its FIFO
/// and its record.
pub proof fn law_creation_leaves_directory_fifo_and_record(
    id: Seq<char>,
    bundle: Seq<u8>,
    replies: Seq<Reply>,
    c: ContainerView,
)
    requires
        runs(creating(id, bundle), replies, TurnView::Created(c)),
    ensures
        c == fresh(id, bundle),
        performed(
            create_steps(id, bundle),
            replies,
            HostCallView::CreateDirAll(dir_of(id)),
        ),
        performed(create_steps(id, bundle), replies, HostCallView::MakeFifo(fifo_file(id))),
        performed(
            create_steps(id, bundle),
            replies,
            HostCallView::WriteState { path: state_file(id), state: record_of(c) },
        ),
{
    lemma_created_run_completes(creating(id, bundle), replies, c);
    law_save_makes_the_directory_first(record_of(c), id);
    let steps = create_steps(id, bundle);
    assert(steps.len() == 8);
    assert(steps[5] == step(HostCallView::MakeFifo(fifo_file(id)), RuleView::Required));
    law_completed_script_did_its_calls(steps, replies, 2);
    law_completed_script_did_its_calls(steps, replies, 5);
    law_completed_script_did_its_calls(steps, replies, 7);
}

/// The process joins its control group last, when every limit is in place.
pub proof fn law_process_joins_its_group_last(
    group: Seq<u8>,
    linux: Option<LinuxConfig>,
    pid: u32,
)
    ensures
        limit_steps(group, linux, pid).last() == write_step(
            group,
            "cgroup.procs"@,
            decimal(pid as int),
        ),
{
}

/// The writes that a resources section asks for, each limit in its own file.
pub open spec fn asked(group: Seq<u8>, resources: ResourceConfig, write: StepView) -> bool {
    ||| resources.memory matches Some(m) && m.limit matches Some(v) && write == write_step(
        group,
        "memory.max"@,
        decimal(v as int),
    )
    ||| resources.memory matches Some(m) && m.reservation matches Some(v) && write == write_step(
        group,
        "memory.low"@,
        decimal(v as int),
    )
    ||| resources.cpu matches Some(c) && c.quota matches Some(q) && c.period matches Some(p)
        && write == write_step(
        group,
        "cpu.max"@,
        decimal(q as int) + " "@ + decimal(p as int),
    )
    ||| resources.cpu matches Some(c) && c.shares matches Some(v) && write == write_step(
        group,
        "cpu.weight"@,
        decimal(v as int),
    )
    ||| resources.pids matches Some(p) && write == write_step(
        group,
        "pids.max"@,
        decimal(p.limit as int),
    )
}

proof fn lemma_contains_of_concat(a: Seq<StepView>, b: Seq<StepView>, x: StepView)
    ensures
        (a + b).contains(x) <==> a.contains(x) || b.contains(x),
{
    if a.contains(x) {
        let i = choose|i: int| 0 <= i < a.len() && a[i] == x;
        assert((a + b)[i] == x);
    }
    if b.contains(x) {
        let i = choose|i: int| 0 <= i < b.len() && b[i] == x;
        assert((a + b)[a.len() + i] == x);
    }
}

proof fn lemma_contains_of_one(a: StepView, x: StepView)
    ensures
        seq![a].contains(x) <==> a == x,
{
    assert(seq![a][0] == a);
}

/// Every limit that the configuration sets is written to its file, and no
/// other limit is.
pub proof fn law_limits_are_written_where_set(
    group: Seq<u8>,
    resources: ResourceConfig,
    write: StepView,
)
    ensures
        resource_steps(group, resources).contains(write) <==> asked(group, resources, write),
{
    let none = Seq::<StepView>::empty();
    let max = match resources.memory {
        Some(m) => number_steps(group, "memory.max"@, opt_i64(m.limit)),
        None => none,
    };
    let low = match resources.memory {
        Some(m) => number_steps(group, "memory.low"@, opt_i64(m.reservation)),
        None => none,
    };
    let bandwidth = match resources.cpu {
        Some(c) => match (c.quota, c.period) {
            (Some(q), Some(p)) => seq![
                write_step(
                    group,
                    "cpu.max"@,
                    decimal(q as int) + " "@ + decimal(p as int),
                ),
            ],
            _ => none,
        },
        None => none,
    };
    let weight = match resources.cpu {
        Some(c) => number_steps(group, "cpu.weight"@, opt_u64(c.shares)),
        None => none,
    };
    let pids = match resources.pids {
        Some(p) => seq![write_step(group, "pids.max"@, decimal(p.limit as int))],
        None => none,
    };
    assert(resource_steps(group, resources) =~= max + low + (bandwidth + weight) + pids);
    lemma_contains_of_concat(max + low + (bandwidth + weight), pids, write);
    lemma_contains_of_concat(max + low, bandwidth + weight, write);
    lemma_contains_of_concat(max, low, write);
    lemma_contains_of_concat(bandwidth, weight, write);
    assert forall|a: StepView| #[trigger] seq![a].contains(write) <==> a == write by {
        lemma_contains_of_one(a, write);
    }
}

/// Without limits in the configuration the group is set up all the same, and
/// the process put into it.
pub proof fn law_no_limits_still_make_a_group(
    group: Seq<u8>,
    linux: Option<LinuxConfig>,
    pid: u32,
)
    requires
        linux matches Some(l) ==> l.resources is None,
    ensures
        limit_steps(group, linux, pid) == controller_steps() + seq![
            step(HostCallView::Exists(group), RuleView::SkipIfPresent),
            step(HostCallView::CreateDirAll(group), RuleView::Limit),
            write_step(group, "cgroup.procs"@, decimal(pid as int)),
        ],
{
    assert(limit_steps(group, linux, pid) =~= controller_steps() + seq![
        step(HostCallView::Exists(group), RuleView::SkipIfPresent),
        step(HostCallView::CreateDirAll(group), RuleView::Limit),
        write_step(group, "cgroup.procs"@, decimal(pid as int)),
    ]);
}

/// A group that exists is used as it is: its directory is not made.
pub proof fn law_present_group_is_used(
    group: Seq<u8>,
    linux: Option<LinuxConfig>,
    pid: u32,
)
    ensures
        limit_steps(group, linux, pid)[2].call == HostCallView::Exists(group),
        limit_steps(group, linux, pid)[3].call == HostCallView::CreateDirAll(group),
        after(limit_steps(group, linux, pid).skip(2), Reply::Flag(true))
            == ProgressView::Pending(limit_steps(group, linux, pid).skip(4)),
        after(limit_steps(group, linux, pid).skip(2), Reply::Flag(false))
            == ProgressView::Pending(limit_steps(group, linux, pid).skip(3)),
{
    let s = limit_steps(group, linux, pid);
    assert(s.skip(2).skip(2) =~= s.skip(4));
    assert(s.skip(2).skip(1) =~= s.skip(3));
}

/// The parent of a container's process signals it only when it has put it
/// under its limits and recorded the container as running. What the process
/// does is not covered here: it goes on when its parent ends, too.
pub proof fn law_parent_signals_after_limits_and_record(
    c: ContainerView,
    launch: LaunchView,
    pid: u32,
)
    ensures
        ({
            let steps = supervise_steps(c, launch, pid);
            let n = steps.len() as int;
            &&& n > 4
            &&& steps[n - 1].call == HostCallView::Wait(pid)
            &&& steps[n - 2].call == HostCallView::SendSignal
            &&& exists|joined: int, saved: int|
                {
                    &&& 0 <= joined < saved < n - 2
                    &&& #[trigger] steps[joined] == write_step(
                        group_of(c.id),
                        "cgroup.procs"@,
                        decimal(pid as int),
                    )
                    &&& #[trigger] steps[saved] == step(
                        HostCallView::WriteState {
                            path: state_file(c.id),
                            state: record_of(started(c, pid)),
                        },
                        RuleView::Required,
                    )
                }
        }),
{
    let steps = supervise_steps(c, launch, pid);
    let limits = limit_steps(group_of(c.id), launch.linux, pid);
    let save = save_steps(record_of(started(c, pid)), c.id);
    law_process_joins_its_group_last(group_of(c.id), launch.linux, pid);
    law_save_makes_the_directory_first(record_of(started(c, pid)), c.id);
    assert(steps[limits.len() - 1] == limits.last());
    assert(steps[(limits.len() + 1) as int] == save[1]);
}

/// A container gets every namespace of its own.
pub proof fn law_every_namespace_is_left(bundle: Seq<u8>, namespace: Namespace)
    ensures
        isolate_steps(bundle)[0].call == HostCallView::Unshare(own_namespaces()),
        isolate_steps(bundle)[0].rule == RuleView::Required,
        own_namespaces().contains(namespace),
{
    let all = own_namespaces();
    assert(all[0] == Namespace::Mount && all[1] == Namespace::Uts && all[2] == Namespace::Ipc
        && all[3] == Namespace::Network && all[4] == Namespace::Pid);
}

/// The first process is forked only when the container's root is in place
/// and the host's root is out of reach. Before that the parent's signal is
/// waited for, but that it came is not asked.
pub proof fn law_host_root_is_gone_before_the_first_process(bundle: Seq<u8>)
    ensures
        ({
            let steps = isolate_steps(bundle);
            &&& steps.len() == 11
            &&& steps[5].call is PivotRoot && steps[5].rule == RuleView::Required
            &&& steps[7].call == HostCallView::Detach(encode_utf8("/.old_root"@))
            &&& steps[7].rule == RuleView::Required
            &&& steps[9].call is AwaitSignal
            &&& steps[10].call is Fork
            &&& forall|i: int| 0 <= i < 10 ==> !((#[trigger] steps[i]).call is Fork)
            &&& forall|i: int| 0 <= i < 11 ==> !((#[trigger] steps[i]).call is Exec)
        }),
{
}

/// The program, which the first argument names, is what the first process
/// does last; `/proc` and `/sys` are
/// mounted before.
pub proof fn law_program_runs_last(launch: LaunchView)
    ensures
        ({
            let steps = enter_steps(launch);
            let n = steps.len() as int;
            &&& n >= 6
            &&& steps[n - 1].call == (HostCallView::Exec {
                program: program_of(launch.args),
                args: launch.args,
                env: launch.env,
            })
            &&& launch.args.len() > 0 ==> program_of(launch.args) == Some(launch.args[0])
            &&& steps[n - 2].call == HostCallView::ChangeDir(encode_utf8(launch.cwd))
            &&& steps[n - 3] == step(
                HostCallView::Mount {
                    source: Some(encode_utf8("sysfs"@)),
                    target: encode_utf8("/sys"@),
                    kind: Some("sysfs"@),
                    flags: plain(),
                },
                RuleView::Required,
            )
            &&& steps[n - 5] == step(
                HostCallView::Mount {
                    source: Some(encode_utf8("proc"@)),
                    target: encode_utf8("/proc"@),
                    kind: Some("proc"@),
                    flags: plain(),
                },
                RuleView::Required,
            )
            &&& forall|i: int| 0 <= i < n - 1 ==> !((#[trigger] steps[i]).call is Exec)
        }),
{
}

/// A terminal is opened, relayed and attached for a container that asks for
/// one, and for no other.
pub proof fn law_terminal_is_used_where_asked(c: ContainerView, launch: LaunchView, pid: u32)
    ensures
        fork_steps(launch.terminal)[0].call is OpenTerminal <==> launch.terminal,
        enter_steps(launch)[0].call is AttachTerminal <==> launch.terminal,
        ({
            let steps = supervise_steps(c, launch, pid);
            steps[steps.len() - 3].call is RelayTerminal <==> launch.terminal
        }),
{
    law_save_makes_the_directory_first(record_of(started(c, pid)), c.id);
}

} // verus!
