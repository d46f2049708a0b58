//! What the operations of the runtime come to, in plain values: which paths
//! they touch, what they write there, and what becomes of a container.

use vstd::prelude::*;
use vstd::string::*;
use vstd::utf8::*;

use crate::cli::{session_of, Commands};
use crate::runtime::action::Action;
use crate::runtime::cgroup::{
    group_of, law_limits_are_framed, limit_steps, limits_set, resource_steps,
};
use crate::runtime::config::{
    launch_of, parsed_config, LaunchView, LinuxConfig, OciConfigView, ResourceConfig,
};
use crate::runtime::container::{
    config_file, config_steps, container_of, create_steps, ended, enter_steps, fork_steps, fresh,
    isolate_steps, own_namespaces, reap_steps, rootfs_dir, started, supervise_steps, Container,
    ContainerView,
};
use crate::runtime::error::{RuntimeError, RuntimeErrorView};
use crate::runtime::host::{
    failure_error, judge, limit_error, Failure, HostCall, HostCallView, Judgement, MountFlags,
    Namespace, Reply, Rule, RuleView, Step, StepView,
};
use crate::runtime::laws::{
    completes, law_save_makes_the_directory_first, law_start_runs_to_the_end, runs,
};
use crate::runtime::path::{
    joined, law_join_is_base_and_part, law_parent_drops_the_last_name, lemma_named_is_trimmed,
    lemma_slash_bytes, names, path_text, UnixPath,
};
use crate::runtime::record::{
    dir_of, fifo_file, law_record_is_kept_in_container_dir, load_steps, record_of, root_path,
    save_steps, state_file, OciState, OciStateView,
};
use crate::runtime::script::{steps_view, Progress, ProgressView};
use crate::runtime::session::{
    advance, creating, found, leads, loading, starting, SessionView, Stage, StageView, Turn,
    TurnView,
};
use crate::runtime::state::{law_words_name_states, ContainerState};
use crate::runtime::text::{
    decimal, lemma_encode_concat, lemma_encode_first, lemma_encode_last,
};

verus! {

proof fn lemma_name_in(base: Seq<u8>, name: Seq<char>, full: Seq<u8>)
    requires
        name.len() > 0,
        name[0] != '/',
        (base.len() > 0 && base.last() != 47u8 && full == base + seq![47u8] + encode_utf8(name))
            || ((base.len() == 0 || base.last() == 47u8) && full == base + encode_utf8(name)),
    ensures
        joined(base, encode_utf8(name)) == full,
{
    lemma_encode_first(name);
    law_join_is_base_and_part(base, encode_utf8(name));
}

/// The bytes of a text, a slash and a name are those of the three joined.
proof fn lemma_text_slash_name(base: Seq<char>, name: Seq<char>)
    requires
        base.len() > 0,
        base.last() != '/',
    ensures
        encode_utf8(base).len() > 0,
        encode_utf8(base).last() != 47u8,
        encode_utf8(base) + seq![47u8] + encode_utf8(name) == encode_utf8(
            base + seq!['/'] + name,
        ),
{
    lemma_encode_last(base);
    lemma_slash_bytes();
    lemma_encode_concat(base, seq!['/']);
    lemma_encode_concat(base + seq!['/'], name);
}

// Where things are.

/// The files of a container are in `/run/runsys/<id>`, and the identifier may
/// be any text but an absolute path.
pub proof fn law_container_files_are_in_its_directory(id: Seq<char>)
    requires
        id.len() == 0 || id[0] != '/',
    ensures
        dir_of(id) == encode_utf8("/run/runsys/"@ + id),
        id.len() > 0 && id.last() != '/' ==> state_file(id) == encode_utf8(
            "/run/runsys/"@ + id + "/state.json"@,
        ) && fifo_file(id) == encode_utf8("/run/runsys/"@ + id + "/exec.fifo"@),
        id.len() == 0 || id.last() == '/' ==> state_file(id) == encode_utf8(
            "/run/runsys/"@ + id + "state.json"@,
        ) && fifo_file(id) == encode_utf8("/run/runsys/"@ + id + "exec.fifo"@),
{
    reveal_strlit("/run/runsys");
    reveal_strlit("/run/runsys/");
    reveal_strlit("state.json");
    reveal_strlit("/state.json");
    reveal_strlit("exec.fifo");
    reveal_strlit("/exec.fifo");
    let root = "/run/runsys"@;
    if id.len() > 0 {
        lemma_encode_first(id);
    }
    lemma_text_slash_name(root, id);
    assert(root + seq!['/'] + id =~= "/run/runsys/"@ + id);
    law_join_is_base_and_part(encode_utf8(root), encode_utf8(id));
    let dir = "/run/runsys/"@ + id;
    lemma_encode_last(dir);
    lemma_encode_first("state.json"@);
    lemma_encode_first("exec.fifo"@);
    law_join_is_base_and_part(dir_of(id), encode_utf8("state.json"@));
    law_join_is_base_and_part(dir_of(id), encode_utf8("exec.fifo"@));
    if id.len() > 0 && id.last() != '/' {
        lemma_text_slash_name(dir, "state.json"@);
        lemma_text_slash_name(dir, "exec.fifo"@);
        assert(dir + seq!['/'] + "state.json"@ =~= dir + "/state.json"@);
        assert(dir + seq!['/'] + "exec.fifo"@ =~= dir + "/exec.fifo"@);
    } else {
        lemma_encode_concat(dir, "state.json"@);
        lemma_encode_concat(dir, "exec.fifo"@);
    }
}

/// The files of a container whose identifier is an absolute path are in the
/// directory of that path.
pub proof fn law_absolute_identifier_is_its_directory(id: Seq<char>)
    requires
        id.len() > 0,
        id[0] == '/',
    ensures
        dir_of(id) == encode_utf8(id),
        id.last() != '/' ==> state_file(id) == encode_utf8(id + "/state.json"@) && fifo_file(id)
            == encode_utf8(id + "/exec.fifo"@),
        id.last() == '/' ==> state_file(id) == encode_utf8(id + "state.json"@) && fifo_file(id)
            == encode_utf8(id + "exec.fifo"@),
{
    reveal_strlit("state.json");
    reveal_strlit("/state.json");
    reveal_strlit("exec.fifo");
    reveal_strlit("/exec.fifo");
    lemma_encode_first(id);
    lemma_encode_last(id);
    law_join_is_base_and_part(root_path(), encode_utf8(id));
    lemma_encode_first("state.json"@);
    lemma_encode_first("exec.fifo"@);
    law_join_is_base_and_part(dir_of(id), encode_utf8("state.json"@));
    law_join_is_base_and_part(dir_of(id), encode_utf8("exec.fifo"@));
    if id.last() != '/' {
        lemma_text_slash_name(id, "state.json"@);
        lemma_text_slash_name(id, "exec.fifo"@);
        assert(id + seq!['/'] + "state.json"@ =~= id + "/state.json"@);
        assert(id + seq!['/'] + "exec.fifo"@ =~= id + "/exec.fifo"@);
    } else {
        lemma_encode_concat(id, "state.json"@);
        lemma_encode_concat(id, "exec.fifo"@);
    }
}

/// The configuration of a bundle is the file `config.json` in it, and its root
/// file system the directory `rootfs` in it, whatever the bundle's bytes.
pub proof fn law_bundle_holds_configuration_and_root(bundle: Seq<u8>)
    ensures
        bundle.len() > 0 && bundle.last() != 47u8 ==> config_file(bundle) == bundle + seq![47u8]
            + encode_utf8("config.json"@) && rootfs_dir(bundle) == bundle + seq![47u8]
            + encode_utf8("rootfs"@),
        bundle.len() == 0 || bundle.last() == 47u8 ==> config_file(bundle) == bundle
            + encode_utf8("config.json"@) && rootfs_dir(bundle) == bundle + encode_utf8(
            "rootfs"@,
        ),
{
    reveal_strlit("config.json");
    reveal_strlit("rootfs");
    lemma_encode_first("config.json"@);
    lemma_encode_first("rootfs"@);
    law_join_is_base_and_part(bundle, encode_utf8("config.json"@));
    law_join_is_base_and_part(bundle, encode_utf8("rootfs"@));
}

/// The configuration of a bundle that is spelled by a text is asked for, and
/// read, at `<bundle>/config.json`, when a container is created as when it is
/// started.
pub proof fn law_configuration_is_read_in_the_bundle(
    id: Seq<char>,
    bundle: Seq<char>,
    path: Seq<u8>,
)
    requires
        bundle.len() > 0,
        bundle.last() != '/',
        path == encode_utf8(bundle + "/config.json"@),
    ensures
        config_file(encode_utf8(bundle)) == path,
        config_steps(encode_utf8(bundle)) == seq![
            StepView {
                call: HostCallView::Exists(path),
                rule: RuleView::Expect {
                    flag: true,
                    otherwise: RuntimeErrorView::ConfigNotFound(path),
                },
            },
            StepView { call: HostCallView::ReadText(path), rule: RuleView::Text },
        ],
        create_steps(id, encode_utf8(bundle))[3].call == HostCallView::Exists(path),
        create_steps(id, encode_utf8(bundle))[4].call == HostCallView::ReadText(path),
{
    reveal_strlit("config.json");
    reveal_strlit("/config.json");
    lemma_text_slash_name(bundle, "config.json"@);
    assert(bundle + seq!['/'] + "config.json"@ =~= bundle + "/config.json"@);
    law_bundle_holds_configuration_and_root(encode_utf8(bundle));
    assert(config_steps(encode_utf8(bundle))[0].call == HostCallView::Exists(path));
    assert(config_steps(encode_utf8(bundle)) =~= seq![
        StepView {
            call: HostCallView::Exists(path),
            rule: RuleView::Expect {
                flag: true,
                otherwise: RuntimeErrorView::ConfigNotFound(path),
            },
        },
        StepView { call: HostCallView::ReadText(path), rule: RuleView::Text },
    ]);
}

/// A configuration is asked for before it is read, and read where it was asked
/// for: in the bundle, whatever its bytes.
pub proof fn law_configuration_is_asked_for_first(bundle: Seq<u8>, path: Seq<u8>)
    requires
        (bundle.len() > 0 && bundle.last() != 47u8 && path == bundle + seq![47u8] + encode_utf8(
            "config.json"@,
        )) || ((bundle.len() == 0 || bundle.last() == 47u8) && path == bundle + encode_utf8(
            "config.json"@,
        )),
    ensures
        config_steps(bundle).len() == 2,
        config_steps(bundle)[0] == (StepView {
            call: HostCallView::Exists(path),
            rule: RuleView::Expect {
                flag: true,
                otherwise: RuntimeErrorView::ConfigNotFound(path),
            },
        }),
        config_steps(bundle)[1] == (StepView {
            call: HostCallView::ReadText(path),
            rule: RuleView::Text,
        }),
{
    law_bundle_holds_configuration_and_root(bundle);
}

// Records.

/// A record says of a container what it is: its identifier, the word for its
/// state, its process number and the text of its bundle.
pub proof fn law_record_says_what_the_container_is(c: ContainerView)
    ensures
        record_of(c).oci_version == "1.0.2"@,
        record_of(c).id == c.id,
        c.state == ContainerState::Creating ==> record_of(c).status == "creating"@,
        c.state == ContainerState::Created ==> record_of(c).status == "created"@,
        c.state == ContainerState::Running ==> record_of(c).status == "running"@,
        c.state == ContainerState::Stopped ==> record_of(c).status == "stopped"@,
        c.state == ContainerState::Paused ==> record_of(c).status == "paused"@,
        valid_utf8(c.bundle) ==> encode_utf8(record_of(c).bundle) == c.bundle,
        record_of(c).bundle == path_text(c.bundle),
        c.pid is None ==> record_of(c).pid is None,
        c.pid matches Some(p) ==> (record_of(c).pid matches Some(n) && (p <= 0x7fff_ffff ==> n
            == p) && (p > 0x7fff_ffff ==> n == p - 0x1_0000_0000)),
{
    if valid_utf8(c.bundle) {
        decode_utf8_encode_utf8(c.bundle);
    }
    if let Some(p) = c.pid {
        lemma_signed(p);
    }
}

proof fn lemma_signed(p: u32)
    ensures
        p <= 0x7fff_ffff ==> p as i32 == p,
        p > 0x7fff_ffff ==> p as i32 == p - 0x1_0000_0000,
{
    assert(p <= 0x7fff_ffff ==> p as i32 == p) by (bit_vector);
    assert(p > 0x7fff_ffff ==> p as i32 == p - 0x1_0000_0000) by (bit_vector);
}

/// A record is taken for a container in the state that its status says, with
/// its identifier, its bundle and its process number; a status that is no word
/// for a state is refused and reported.
pub proof fn law_container_is_what_the_record_says(record: OciStateView)
    ensures
        container_of(record) matches Ok(c) ==> {
            &&& c.id == record.id
            &&& c.bundle == encode_utf8(record.bundle)
            &&& c.pid is None <==> record.pid is None
            &&& record.pid matches Some(n) ==> (n >= 0 ==> c.pid->0 == n) && (n < 0 ==> c.pid->0
                == n + 0x1_0000_0000)
        },
        record.status == "creating"@ ==> (container_of(record) matches Ok(c) && c.state
            == ContainerState::Creating),
        record.status == "created"@ ==> (container_of(record) matches Ok(c) && c.state
            == ContainerState::Created),
        record.status == "running"@ ==> (container_of(record) matches Ok(c) && c.state
            == ContainerState::Running),
        record.status == "stopped"@ ==> (container_of(record) matches Ok(c) && c.state
            == ContainerState::Stopped),
        record.status == "paused"@ ==> (container_of(record) matches Ok(c) && c.state
            == ContainerState::Paused),
        record.status != "creating"@ && record.status != "created"@ && record.status
            != "running"@ && record.status != "stopped"@ && record.status != "paused"@
            ==> container_of(record) == Err::<ContainerView, RuntimeErrorView>(
            RuntimeErrorView::InvalidState("未知状态: "@ + record.status),
        ),
{
    law_words_name_states(ContainerState::Creating, record.status);
    law_words_name_states(ContainerState::Created, record.status);
    law_words_name_states(ContainerState::Running, record.status);
    law_words_name_states(ContainerState::Stopped, record.status);
    law_words_name_states(ContainerState::Paused, record.status);
    if let Some(n) = record.pid {
        assert(n >= 0 ==> n as u32 == n) by (bit_vector);
        assert(n < 0 ==> n as u32 == n + 0x1_0000_0000) by (bit_vector);
    }
}

/// A record is saved by two calls that must succeed: one makes the directory
/// that the state file's path leads to before its last name, one writes the
/// record there. The directory is the container's, where that has a name at
/// its end.
pub proof fn law_record_is_written_behind_its_directory(record: OciStateView, id: Seq<char>)
    ensures
        save_steps(record, id).len() == 2,
        save_steps(record, id)[1] == (StepView {
            call: HostCallView::WriteState { path: state_file(id), state: record },
            rule: RuleView::Required,
        }),
        save_steps(record, id)[0].rule == RuleView::Required,
        ({
            let path = state_file(id);
            &&& names(path).len() > 0
            &&& save_steps(record, id)[0].call matches HostCallView::CreateDirAll(dir)
            &&& dir.len() < path.len()
            &&& dir == path.take(dir.len() as int)
            &&& names(dir) == names(path).drop_last()
        }),
        dir_of(id).len() > 1 && dir_of(id).last() != 47u8 && !(dir_of(id).last() == 46u8
            && dir_of(id)[dir_of(id).len() - 2] == 47u8) ==> save_steps(record, id)[0].call
            == HostCallView::CreateDirAll(dir_of(id)),
{
    reveal_strlit("/run/runsys");
    lemma_encode_first("/run/runsys"@);
    if id.len() > 0 {
        lemma_encode_first(id);
    }
    law_join_is_base_and_part(root_path(), encode_utf8(id));
    assert(dir_of(id).len() > 0 && dir_of(id)[0] == 47u8);
    reveal_strlit("state.json");
    lemma_encode_first("state.json"@);
    law_join_is_base_and_part(dir_of(id), encode_utf8("state.json"@));
    assert(state_file(id)[0] == 47u8);
    law_save_makes_the_directory_first(record, id);
    law_record_is_kept_in_container_dir(id);
    law_parent_drops_the_last_name(state_file(id));
    if dir_of(id).len() > 1 && dir_of(id).last() != 47u8 && !(dir_of(id).last() == 46u8 && dir_of(
        id,
    )[dir_of(id).len() - 2] == 47u8) {
        lemma_named_is_trimmed(dir_of(id));
    }
}

/// A container is looked up by two calls: its state file is asked for, and
/// then read as a record.
pub proof fn law_lookup_asks_and_reads(id: Seq<char>)
    ensures
        load_steps(id).len() == 2,
        load_steps(id)[0] == (StepView {
            call: HostCallView::Exists(state_file(id)),
            rule: RuleView::Expect {
                flag: true,
                otherwise: RuntimeErrorView::ContainerNotFound(id),
            },
        }),
        load_steps(id)[1] == (StepView {
            call: HostCallView::ReadState(state_file(id)),
            rule: RuleView::Record,
        }),
{
}

// Creation.

/// A container that was just created has its identifier and its bundle, is in
/// the created state and has no process.
pub proof fn law_new_container_waits_to_be_started(id: Seq<char>, bundle: Seq<u8>)
    ensures
        fresh(id, bundle).id == id,
        fresh(id, bundle).bundle == bundle,
        fresh(id, bundle).state == ContainerState::Created,
        fresh(id, bundle).pid is None,
        creating(id, bundle).stage == StageView::Creating(fresh(id, bundle)),
        creating(id, bundle).steps == create_steps(id, bundle),
{
}

/// The calls of a creation, in order: the bundle must be a directory, the
/// container's directory must be free and is made, the configuration is asked
/// for and read, the FIFO is made, and the record of the new container is
/// saved.
pub proof fn law_creation_goes_step_by_step(id: Seq<char>, bundle: Seq<u8>)
    ensures
        ({
            let steps = create_steps(id, bundle);
            &&& steps.len() == 8
            &&& steps[0] == (StepView {
                call: HostCallView::IsDir(bundle),
                rule: RuleView::Expect {
                    flag: true,
                    otherwise: RuntimeErrorView::InvalidBundle(bundle),
                },
            })
            &&& steps[1] == (StepView {
                call: HostCallView::Exists(dir_of(id)),
                rule: RuleView::Expect {
                    flag: false,
                    otherwise: RuntimeErrorView::ContainerAlreadyExists(id),
                },
            })
            &&& steps[2] == (StepView {
                call: HostCallView::CreateDirAll(dir_of(id)),
                rule: RuleView::Required,
            })
            &&& steps.subrange(3, 5) == config_steps(bundle)
            &&& steps[5] == (StepView {
                call: HostCallView::MakeFifo(fifo_file(id)),
                rule: RuleView::Required,
            })
            &&& steps[7] == (StepView {
                call: HostCallView::WriteState {
                    path: state_file(id),
                    state: OciStateView {
                        oci_version: "1.0.2"@,
                        id,
                        status: "created"@,
                        pid: None,
                        bundle: path_text(bundle),
                    },
                },
                rule: RuleView::Required,
            })
            &&& steps.skip(6) == save_steps(record_of(fresh(id, bundle)), id)
        }),
{
    let steps = create_steps(id, bundle);
    law_save_makes_the_directory_first(record_of(fresh(id, bundle)), id);
    assert(steps.len() == 8);
    assert(steps.subrange(3, 5) =~= config_steps(bundle));
    assert(steps.skip(6) =~= save_steps(record_of(fresh(id, bundle)), id));
}

// The container's process and its parent.

/// A container whose process was started runs under the number of that
/// process, and keeps it when it has ended; its identifier and its bundle stay
/// what they were.
pub proof fn law_container_has_the_number_of_its_process(c: ContainerView, pid: u32)
    ensures
        started(c, pid).id == c.id,
        started(c, pid).bundle == c.bundle,
        started(c, pid).state == ContainerState::Running,
        started(c, pid).pid == Some(pid),
        ended(c).id == c.id,
        ended(c).bundle == c.bundle,
        ended(c).state == ContainerState::Stopped,
        ended(c).pid == c.pid,
        ended(started(c, pid)).pid == Some(pid),
{
}

/// The parent of a container's process puts that very process into the
/// container's group, records the container as running under its number, and
/// waits for it; the limits are those of the launch.
pub proof fn law_parent_deals_with_the_forked_process(
    c: ContainerView,
    launch: LaunchView,
    pid: u32,
)
    ensures
        ({
            let steps = supervise_steps(c, launch, pid);
            let limits = limit_steps(group_of(c.id), launch.linux, pid);
            let n = limits.len() as int;
            let end = steps.len() as int;
            &&& n >= 5
            &&& end == n + 4 + if launch.terminal {
                1int
            } else {
                0int
            }
            &&& steps.take(n) == limits
            &&& limits[n - 1].call == (HostCallView::WriteText {
                path: joined(group_of(c.id), encode_utf8("cgroup.procs"@)),
                text: decimal(pid as int),
            })
            &&& steps[n].call is CreateDirAll && steps[n].rule == RuleView::Required
            &&& steps[n + 1].call matches HostCallView::WriteState { path, state }
            &&& steps[n + 1].rule == RuleView::Required
            &&& path == state_file(c.id)
            &&& state.id == c.id
            &&& state.status == "running"@
            &&& state.bundle == path_text(c.bundle)
            &&& state.pid is Some
            &&& pid <= 0x7fff_ffff ==> state.pid->0 == pid
            &&& pid > 0x7fff_ffff ==> state.pid->0 == pid - 0x1_0000_0000
            &&& launch.terminal ==> steps[n + 2] == (StepView {
                call: HostCallView::RelayTerminal,
                rule: RuleView::Required,
            })
            &&& steps[end - 2] == (StepView {
                call: HostCallView::SendSignal,
                rule: RuleView::Required,
            })
            &&& steps[end - 1] == (StepView {
                call: HostCallView::Wait(pid),
                rule: RuleView::Exit,
            })
        }),
{
    let steps = supervise_steps(c, launch, pid);
    let limits = limit_steps(group_of(c.id), launch.linux, pid);
    law_limits_are_framed(group_of(c.id), launch.linux, pid);
    law_save_makes_the_directory_first(record_of(started(c, pid)), c.id);
    lemma_signed(pid);
    assert(steps.take(limits.len() as int) =~= limits);
}

/// A created container whose process has a number ends stopped under that
/// number, with its identifier and its bundle, if no call fails.
pub proof fn law_started_container_ends_under_its_number(
    c: ContainerView,
    text: String,
    config: OciConfigView,
    launch: LaunchView,
    pid: u32,
    stopped: ContainerView,
    configuring: Seq<Reply>,
    forking: Seq<Reply>,
    supervising: Seq<Reply>,
    recording: Seq<Reply>,
)
    requires
        c.state == ContainerState::Created,
        completes(config_steps(c.bundle), configuring),
        configuring.last() == Reply::Text(text),
        parsed_config(text@) == Ok::<OciConfigView, serde_json::Error>(config),
        launch_of(config) == Ok::<LaunchView, RuntimeErrorView>(launch),
        completes(fork_steps(launch.terminal), forking),
        forking.last() == Reply::Forked(Some(pid)),
        completes(supervise_steps(c, launch, pid), supervising),
        stopped == (ContainerView {
            id: c.id,
            bundle: c.bundle,
            state: ContainerState::Stopped,
            pid: Some(pid),
        }),
        completes(save_steps(record_of(stopped), c.id), recording),
    ensures
        runs(
            SessionView { stage: StageView::Configuring(c), steps: config_steps(c.bundle) },
            configuring + forking + supervising + recording,
            TurnView::Ended(stopped),
        ),
{
    assert(ended(started(c, pid)) == stopped);
    law_start_runs_to_the_end(
        c,
        text,
        config,
        launch,
        pid,
        configuring,
        forking,
        supervising,
        recording,
    );
}

/// A file of a group is written with a text, between the making of the group
/// and the joining of the process.
pub open spec fn written(
    steps: Seq<StepView>,
    group: Seq<u8>,
    file: Seq<char>,
    text: Seq<char>,
) -> bool {
    exists|i: int|
        4 <= i < steps.len() - 1 && #[trigger] steps[i] == (StepView {
            call: HostCallView::WriteText { path: joined(group, encode_utf8(file)), text },
            rule: RuleView::Limit,
        })
}

/// Every limit that the configuration sets is applied to the process's group,
/// whatever other limits are set, and as many writes are made as limits are
/// set.
pub proof fn law_every_limit_is_applied(group: Seq<u8>, resources: ResourceConfig, pid: u32)
    ensures
        ({
            let linux = Some(LinuxConfig { resources: Some(resources) });
            let steps = limit_steps(group, linux, pid);
            &&& steps.len() == 5 + limits_set(resources)
            &&& resources.memory matches Some(m) ==> m.limit matches Some(v) ==> written(
                steps,
                group,
                "memory.max"@,
                decimal(v as int),
            )
            &&& resources.memory matches Some(m) ==> m.reservation matches Some(v) ==> written(
                steps,
                group,
                "memory.low"@,
                decimal(v as int),
            )
            &&& resources.cpu matches Some(c) ==> c.quota matches Some(q) ==> c.period matches Some(
                p,
            ) ==> written(
                steps,
                group,
                "cpu.max"@,
                decimal(q as int) + seq![' '] + decimal(p as int),
            )
            &&& resources.cpu matches Some(c) ==> c.shares matches Some(v) ==> written(
                steps,
                group,
                "cpu.weight"@,
                decimal(v as int),
            )
            &&& resources.pids matches Some(p) ==> written(
                steps,
                group,
                "pids.max"@,
                decimal(p.limit as int),
            )
        }),
{
    let linux = Some(LinuxConfig { resources: Some(resources) });
    let steps = limit_steps(group, linux, pid);
    let writes = resource_steps(group, resources);
    law_limits_are_framed(group, linux, pid);
    reveal_strlit(" ");
    assert(" "@ =~= seq![' ']);
    assert(writes.len() == limits_set(resources));
    assert(forall|i: int| 0 <= i < writes.len() ==> steps[i + 4] == #[trigger] writes[i]);
    let max: int = if resources.memory is Some && resources.memory->0.limit is Some {
        1
    } else {
        0
    };
    let low: int = if resources.memory is Some && resources.memory->0.reservation is Some {
        1
    } else {
        0
    };
    let bandwidth: int = if resources.cpu is Some && resources.cpu->0.quota is Some
        && resources.cpu->0.period is Some {
        1
    } else {
        0
    };
    let weight: int = if resources.cpu is Some && resources.cpu->0.shares is Some { 1 } else { 0 };
    if max == 1 {
        assert(steps[4] == writes[0]);
    }
    if low == 1 {
        assert(steps[4 + max] == writes[max]);
    }
    if bandwidth == 1 {
        assert(steps[4 + max + low] == writes[max + low]);
    }
    if weight == 1 {
        assert(steps[4 + max + low + bandwidth] == writes[max + low + bandwidth]);
    }
    if resources.pids is Some {
        assert(steps[4 + max + low + bandwidth + weight] == writes[max + low + bandwidth
            + weight]);
    }
}

// Isolation.

/// The root of a container is the directory `rootfs` of its bundle: that is
/// bound to itself, entered and pivoted into, with the old root put at
/// `.old_root` in it and let go of from there.
pub proof fn law_container_root_is_in_the_bundle(
    bundle: Seq<u8>,
    rootfs: Seq<u8>,
    put_old: Seq<u8>,
)
    requires
        (bundle.len() > 0 && bundle.last() != 47u8 && rootfs == bundle + seq![47u8] + encode_utf8(
            "rootfs"@,
        )) || ((bundle.len() == 0 || bundle.last() == 47u8) && rootfs == bundle + encode_utf8(
            "rootfs"@,
        )),
        put_old == rootfs + seq![47u8] + encode_utf8(".old_root"@),
    ensures
        ({
            let steps = isolate_steps(bundle);
            &&& steps.len() == 11
            &&& steps[0].call matches HostCallView::Unshare(left)
            &&& steps[0].rule == RuleView::Required
            &&& left == seq![
                Namespace::Mount,
                Namespace::Uts,
                Namespace::Ipc,
                Namespace::Network,
                Namespace::Pid,
            ]
            &&& steps[1] == (StepView {
                call: HostCallView::Mount {
                    source: None,
                    target: seq![47u8],
                    kind: None,
                    flags: MountFlags { private: true, bind: false, recursive: true },
                },
                rule: RuleView::Required,
            })
            &&& steps[2] == (StepView {
                call: HostCallView::Mount {
                    source: Some(rootfs),
                    target: rootfs,
                    kind: None,
                    flags: MountFlags { private: false, bind: true, recursive: true },
                },
                rule: RuleView::Required,
            })
            &&& steps[3] == (StepView {
                call: HostCallView::ChangeDir(rootfs),
                rule: RuleView::Required,
            })
            &&& steps[4] == (StepView {
                call: HostCallView::CreateDirAll(put_old),
                rule: RuleView::Optional,
            })
            &&& steps[5] == (StepView {
                call: HostCallView::PivotRoot { new_root: encode_utf8("."@), put_old },
                rule: RuleView::Required,
            })
            &&& steps[6] == (StepView {
                call: HostCallView::ChangeDir(seq![47u8]),
                rule: RuleView::Required,
            })
            &&& steps[7] == (StepView {
                call: HostCallView::Detach(encode_utf8("/.old_root"@)),
                rule: RuleView::Required,
            })
            &&& steps[8] == (StepView {
                call: HostCallView::RemoveDir(encode_utf8("/.old_root"@)),
                rule: RuleView::Optional,
            })
            &&& steps[9] == (StepView {
                call: HostCallView::AwaitSignal,
                rule: RuleView::Optional,
            })
            &&& steps[10] == (StepView { call: HostCallView::Fork, rule: RuleView::Process })
        }),
{
    reveal_strlit("rootfs");
    reveal_strlit(".old_root");
    reveal_strlit("/");
    assert("/"@ =~= seq!['/']);
    lemma_slash_bytes();
    lemma_name_in(bundle, "rootfs"@, rootfs);
    lemma_encode_last("rootfs"@);
    assert(rootfs.last() == encode_utf8("rootfs"@).last());
    lemma_name_in(rootfs, ".old_root"@, put_old);
    assert(own_namespaces() =~= seq![
        Namespace::Mount,
        Namespace::Uts,
        Namespace::Ipc,
        Namespace::Network,
        Namespace::Pid,
    ]);
}

/// The root of a container whose bundle is spelled by a text is
/// `<bundle>/rootfs`, and the old root is put at `<bundle>/rootfs/.old_root`.
pub proof fn law_container_root_is_spelled_by_the_bundle(bundle: Seq<char>, rootfs: Seq<u8>)
    requires
        bundle.len() > 0,
        bundle.last() != '/',
        rootfs == encode_utf8(bundle + "/rootfs"@),
    ensures
        isolate_steps(encode_utf8(bundle))[2].call == (HostCallView::Mount {
            source: Some(rootfs),
            target: rootfs,
            kind: None,
            flags: MountFlags { private: false, bind: true, recursive: true },
        }),
        isolate_steps(encode_utf8(bundle))[3].call == HostCallView::ChangeDir(rootfs),
        isolate_steps(encode_utf8(bundle))[5].call == (HostCallView::PivotRoot {
            new_root: encode_utf8("."@),
            put_old: encode_utf8(bundle + "/rootfs/.old_root"@),
        }),
{
    reveal_strlit("rootfs");
    reveal_strlit("/rootfs");
    reveal_strlit(".old_root");
    reveal_strlit("/rootfs/.old_root");
    lemma_text_slash_name(bundle, "rootfs"@);
    assert(bundle + seq!['/'] + "rootfs"@ =~= bundle + "/rootfs"@);
    let root = bundle + "/rootfs"@;
    lemma_text_slash_name(root, ".old_root"@);
    assert(root + seq!['/'] + ".old_root"@ =~= bundle + "/rootfs/.old_root"@);
    law_container_root_is_in_the_bundle(
        encode_utf8(bundle),
        rootfs,
        rootfs + seq![47u8] + encode_utf8(".old_root"@),
    );
}

/// The calls of the first process in a container: it takes its terminal where
/// it has one, mounts `/proc` and `/sys`, goes to its working directory, and
/// turns into the program that its first argument names, with all its
/// arguments and variables.
pub proof fn law_first_process_goes_step_by_step(launch: LaunchView)
    ensures
        ({
            let steps = enter_steps(launch);
            let k: int = if launch.terminal {
                1
            } else {
                0
            };
            &&& steps.len() == k + 6
            &&& launch.terminal ==> steps[0] == (StepView {
                call: HostCallView::AttachTerminal,
                rule: RuleView::Required,
            })
            &&& steps[k] == (StepView {
                call: HostCallView::CreateDirAll(encode_utf8("/proc"@)),
                rule: RuleView::Optional,
            })
            &&& steps[k + 1] == (StepView {
                call: HostCallView::Mount {
                    source: Some(encode_utf8("proc"@)),
                    target: encode_utf8("/proc"@),
                    kind: Some("proc"@),
                    flags: MountFlags { private: false, bind: false, recursive: false },
                },
                rule: RuleView::Required,
            })
            &&& steps[k + 2] == (StepView {
                call: HostCallView::CreateDirAll(encode_utf8("/sys"@)),
                rule: RuleView::Optional,
            })
            &&& steps[k + 3] == (StepView {
                call: HostCallView::Mount {
                    source: Some(encode_utf8("sysfs"@)),
                    target: encode_utf8("/sys"@),
                    kind: Some("sysfs"@),
                    flags: MountFlags { private: false, bind: false, recursive: false },
                },
                rule: RuleView::Required,
            })
            &&& steps[k + 4] == (StepView {
                call: HostCallView::ChangeDir(encode_utf8(launch.cwd)),
                rule: RuleView::Required,
            })
            &&& steps[k + 5].call matches HostCallView::Exec { program, args, env }
            &&& steps[k + 5].rule == RuleView::Required
            &&& args == launch.args
            &&& env == launch.env
            &&& launch.args.len() > 0 ==> program == Some(launch.args[0])
            &&& launch.args.len() == 0 ==> program is None
        }),
{
}

/// A process is forked off with a pipe, and with a terminal where one is asked
/// for, and waited for by its number.
pub proof fn law_fork_has_its_means(terminal: bool, pid: u32)
    ensures
        ({
            let steps = fork_steps(terminal);
            let k: int = if terminal {
                1
            } else {
                0
            };
            &&& steps.len() == k + 2
            &&& terminal ==> steps[0] == (StepView {
                call: HostCallView::OpenTerminal,
                rule: RuleView::Required,
            })
            &&& steps[k] == (StepView { call: HostCallView::OpenPipe, rule: RuleView::Required })
            &&& steps[k + 1] == (StepView { call: HostCallView::Fork, rule: RuleView::Process })
        }),
        reap_steps(pid).len() == 1,
        reap_steps(pid)[0] == (StepView { call: HostCallView::Wait(pid), rule: RuleView::Exit }),
{
}

// Replies.

/// A failure is reported with the error that the host gave.
pub proof fn law_failures_carry_the_hosts_error(
    io: std::io::Error,
    json: serde_json::Error,
    os: nix::errno::Errno,
)
    ensures
        failure_error(Failure::Io(io)) == RuntimeErrorView::IoError(io),
        failure_error(Failure::Json(json)) == RuntimeErrorView::SerializationError(json),
        failure_error(Failure::Os(os)) == RuntimeErrorView::NixError(os),
        limit_error(Failure::Io(io)) == RuntimeErrorView::CgroupError(io),
        limit_error(Failure::Json(json)) == RuntimeErrorView::SerializationError(json),
        limit_error(Failure::Os(os)) == RuntimeErrorView::NixError(os),
{
}

/// A call that was performed is followed by the next one, where the rule asks
/// for no more than that.
pub proof fn law_done_leads_on(rule: RuleView)
    ensures
        rule is Required || rule is Optional || rule is Limit <==> judge(rule, Reply::Done)
            == Judgement::Next,
        !(rule is Required || rule is Optional || rule is Limit) <==> judge(rule, Reply::Done)
            == Judgement::Unfit,
{
}

/// A failed call ends the script unless it may fail; a question cannot fail.
pub proof fn law_failure_stops(rule: RuleView, failure: Failure)
    ensures
        rule is Optional ==> judge(rule, Reply::Failed(failure)) == Judgement::Next,
        rule is Limit ==> judge(rule, Reply::Failed(failure)) == Judgement::Stop(
            limit_error(failure),
        ),
        rule is SkipIfPresent || rule is Expect ==> judge(rule, Reply::Failed(failure))
            == Judgement::Unfit,
        rule is Required || rule is Record || rule is Text || rule is Process || rule is Exit
            ==> judge(rule, Reply::Failed(failure)) == Judgement::Stop(failure_error(failure)),
{
}

/// An answer is held against the one that is expected, or makes the next call
/// needless; no other rule asks for one.
pub proof fn law_answers_are_held_against_the_rule(rule: RuleView, answer: bool)
    ensures
        rule matches RuleView::Expect { flag, otherwise } ==> judge(rule, Reply::Flag(answer)) == (
        if answer == flag {
            Judgement::Next
        } else {
            Judgement::Stop(otherwise)
        }),
        rule is SkipIfPresent && answer ==> judge(rule, Reply::Flag(answer)) == Judgement::Skip,
        rule is SkipIfPresent && !answer ==> judge(rule, Reply::Flag(answer)) == Judgement::Next,
        !(rule is Expect || rule is SkipIfPresent) ==> judge(rule, Reply::Flag(answer))
            == Judgement::Unfit,
{
}

/// A result is taken by the rule that asks for it, and by no other.
pub proof fn law_results_fit_their_rule(
    rule: RuleView,
    text: String,
    record: OciState,
    child: Option<u32>,
    status: Option<i32>,
)
    ensures
        judge(rule, Reply::Text(text)) == (if rule is Text {
            Judgement::Next
        } else {
            Judgement::Unfit
        }),
        judge(rule, Reply::Record(record)) == (if rule is Record {
            Judgement::Next
        } else {
            Judgement::Unfit
        }),
        judge(rule, Reply::Forked(child)) == (if rule is Process {
            Judgement::Next
        } else {
            Judgement::Unfit
        }),
        judge(rule, Reply::Exited(status)) == (if rule is Exit {
            Judgement::Next
        } else {
            Judgement::Unfit
        }),
{
}

/// A session goes on with the rest of its calls, in order, and reports the
/// error that ends it.
pub proof fn law_session_keeps_its_order(
    session: SessionView,
    reply: Reply,
    turn: TurnView,
)
    requires
        leads(session, reply, turn),
        session.steps.len() > 0,
    ensures
        judge(session.steps[0].rule, reply) == Judgement::Next && session.steps.len() > 1
            ==> turn == TurnView::Pending(
            SessionView { stage: session.stage, steps: session.steps.skip(1) },
        ),
        judge(session.steps[0].rule, reply) == Judgement::Next && session.steps.len() == 1
            ==> turn == advance(session.stage, reply),
        judge(session.steps[0].rule, reply) == Judgement::Skip ==> turn == TurnView::Pending(
            SessionView { stage: session.stage, steps: session.steps.skip(2) },
        ),
        judge(session.steps[0].rule, reply) == Judgement::Unfit ==> turn == TurnView::Pending(
            session,
        ),
        judge(session.steps[0].rule, reply) matches Judgement::Stop(e) ==> turn
            == TurnView::Failed(e),
{
}

// Sessions.

/// A container that is to be started goes on to its configuration, as it is,
/// from the created state; from any other the start is refused and the state
/// named.
pub proof fn law_start_begins_with_the_configuration(c: ContainerView)
    ensures
        c.state == ContainerState::Created ==> starting(c) == TurnView::Pending(
            SessionView { stage: StageView::Configuring(c), steps: config_steps(c.bundle) },
        ),
        c.state == ContainerState::Creating ==> starting(c) == TurnView::Failed(
            RuntimeErrorView::InvalidState(
                "容器必须处于 Created 状态才能启动,当前: "@ + "Creating"@,
            ),
        ),
        c.state == ContainerState::Running ==> starting(c) == TurnView::Failed(
            RuntimeErrorView::InvalidState(
                "容器必须处于 Created 状态才能启动,当前: "@ + "Running"@,
            ),
        ),
        c.state == ContainerState::Stopped ==> starting(c) == TurnView::Failed(
            RuntimeErrorView::InvalidState(
                "容器必须处于 Created 状态才能启动,当前: "@ + "Stopped"@,
            ),
        ),
        c.state == ContainerState::Paused ==> starting(c) == TurnView::Failed(
            RuntimeErrorView::InvalidState(
                "容器必须处于 Created 状态才能启动,当前: "@ + "Paused"@,
            ),
        ),
{
}

/// A record that is found leads to its container, or to its start where that
/// was asked for; one of another identifier is refused and both are named.
pub proof fn law_lookup_leads_to_the_container(
    id: Seq<char>,
    start: bool,
    record: OciStateView,
)
    ensures
        loading(id, start) == (SessionView {
            stage: StageView::Loading { id, start },
            steps: load_steps(id),
        }),
        record.id != id ==> found(id, start, record) == TurnView::Failed(
            RuntimeErrorView::IdMismatch { expected: id, got: record.id },
        ),
        record.id == id ==> match container_of(record) {
            Err(e) => found(id, start, record) == TurnView::Failed(e),
            Ok(c) => (start ==> found(id, start, record) == starting(c)) && (!start ==> found(
                id,
                start,
                record,
            ) == TurnView::Loaded(c)),
        },
{
}

/// A container that was to be created is created as it is, and one whose end
/// was recorded ends as it is.
pub proof fn law_stages_hand_their_container_out(c: ContainerView, reply: Reply)
    ensures
        advance(StageView::Creating(c), reply) == TurnView::Created(c),
        advance(StageView::Recording(c), reply) == TurnView::Ended(c),
{
}

/// What was looked up leads where its record leads, and what was configured is
/// forked off, or refused for the reason that its configuration gives.
pub proof fn law_configured_container_is_forked_off(
    id: Seq<char>,
    start: bool,
    record: OciState,
    c: ContainerView,
    text: String,
)
    ensures
        advance(StageView::Loading { id, start }, Reply::Record(record)) == found(
            id,
            start,
            record@,
        ),
        match parsed_config(text@) {
            Err(e) => advance(StageView::Configuring(c), Reply::Text(text)) == TurnView::Failed(
                RuntimeErrorView::ConfigParseError(e),
            ),
            Ok(config) => match launch_of(config) {
                Err(e) => advance(StageView::Configuring(c), Reply::Text(text))
                    == TurnView::Failed(e),
                Ok(launch) => advance(StageView::Configuring(c), Reply::Text(text))
                    == TurnView::Pending(
                    SessionView {
                        stage: StageView::Launching(c, launch),
                        steps: fork_steps(launch.terminal),
                    },
                ),
            },
        },
{
}

/// After the fork, the parent supervises the process that it forked, under
/// that process's number, and the child isolates itself in the same bundle for
/// the same launch.
pub proof fn law_fork_parts_parent_and_child(c: ContainerView, launch: LaunchView, pid: u32)
    ensures
        c.state == ContainerState::Created ==> advance(
            StageView::Launching(c, launch),
            Reply::Forked(Some(pid)),
        ) == TurnView::Pending(
            SessionView {
                stage: StageView::Supervising(
                    ContainerView {
                        id: c.id,
                        bundle: c.bundle,
                        state: ContainerState::Running,
                        pid: Some(pid),
                    },
                ),
                steps: supervise_steps(c, launch, pid),
            },
        ),
        c.state != ContainerState::Created ==> advance(
            StageView::Launching(c, launch),
            Reply::Forked(Some(pid)),
        ) == TurnView::Failed(
            RuntimeErrorView::InvalidAction { state: c.state, action: Action::Start },
        ),
        advance(StageView::Launching(c, launch), Reply::Forked(None)) == TurnView::Pending(
            SessionView {
                stage: StageView::Isolating(launch),
                steps: isolate_steps(c.bundle),
            },
        ),
        advance(StageView::Isolating(launch), Reply::Forked(Some(pid))) == TurnView::Pending(
            SessionView { stage: StageView::Reaping, steps: reap_steps(pid) },
        ),
        advance(StageView::Isolating(launch), Reply::Forked(None)) == TurnView::Pending(
            SessionView { stage: StageView::Entering, steps: enter_steps(launch) },
        ),
{
}

/// When the process of a running or paused container has ended, the container
/// is recorded as stopped, under the number that it had, whatever the status.
pub proof fn law_end_is_recorded(c: ContainerView, reply: Reply, stopped: ContainerView)
    requires
        stopped == (ContainerView {
            id: c.id,
            bundle: c.bundle,
            state: ContainerState::Stopped,
            pid: c.pid,
        }),
    ensures
        c.state == ContainerState::Running || c.state == ContainerState::Paused ==> advance(
            StageView::Supervising(c),
            reply,
        ) == TurnView::Pending(
            SessionView {
                stage: StageView::Recording(stopped),
                steps: save_steps(record_of(stopped), c.id),
            },
        ),
        !(c.state == ContainerState::Running || c.state == ContainerState::Paused) ==> advance(
            StageView::Supervising(c),
            reply,
        ) == TurnView::Failed(
            RuntimeErrorView::InvalidAction { state: c.state, action: Action::Kill },
        ),
{
}

/// A process that waited for another passes that one's status on, or fails
/// where it was made to end; one that did not turn into its program fails.
pub proof fn law_status_is_passed_on(code: i32, reply: Reply)
    ensures
        advance(StageView::Reaping, Reply::Exited(Some(code))) == TurnView::Exit(code),
        advance(StageView::Reaping, Reply::Exited(None)) == TurnView::Exit(1),
        advance(StageView::Entering, reply) == TurnView::Exit(1),
{
}

/// A command is carried out on the container that it names: the one creates it
/// of its bundle, the other looks it up and starts it.
pub proof fn law_commands_name_their_container(id: String, bundle: UnixPath)
    ensures
        session_of(Commands::Create { id, bundle }) == (SessionView {
            stage: StageView::Creating(
                ContainerView {
                    id: id@,
                    bundle: bundle@,
                    state: ContainerState::Created,
                    pid: None,
                },
            ),
            steps: create_steps(id@, bundle@),
        }),
        session_of(Commands::Start { id }) == (SessionView {
            stage: StageView::Loading { id: id@, start: true },
            steps: load_steps(id@),
        }),
{
}

// Values.

/// What is said of a container and of its record is said of their fields, each
/// taken whole.
pub proof fn law_containers_and_records_are_seen_whole(c: Container, o: OciState)
    ensures
        c@.id == c.id@,
        c@.bundle == c.bundle.bytes@,
        c@.state == c.state,
        c@.pid == c.pid,
        o@.oci_version == o.oci_version@,
        o@.id == o.id@,
        o@.status == o.status@,
        o@.pid == o.pid,
        o@.bundle == o.bundle@,
{
}

/// What is said of a call on a file is said of its path and of what is to be
/// written, each taken whole.
pub proof fn law_file_calls_are_seen_whole(call: HostCall)
    ensures
        match call {
            HostCall::IsDir(p) => call@ == HostCallView::IsDir(p.bytes@),
            HostCall::Exists(p) => call@ == HostCallView::Exists(p.bytes@),
            HostCall::CreateDirAll(p) => call@ == HostCallView::CreateDirAll(p.bytes@),
            HostCall::RemoveDir(p) => call@ == HostCallView::RemoveDir(p.bytes@),
            HostCall::MakeFifo(p) => call@ == HostCallView::MakeFifo(p.bytes@),
            HostCall::ReadText(p) => call@ == HostCallView::ReadText(p.bytes@),
            HostCall::ReadState(p) => call@ == HostCallView::ReadState(p.bytes@),
            HostCall::OpenForWriting(p) => call@ == HostCallView::OpenForWriting(p.bytes@),
            HostCall::WriteOpened(t) => call@ == HostCallView::WriteOpened(t@),
            HostCall::WriteText { path, text } => call@ == (HostCallView::WriteText {
                path: path.bytes@,
                text: text@,
            }),
            HostCall::WriteState { path, state } => call@ == (HostCallView::WriteState {
                path: path.bytes@,
                state: state@,
            }),
            _ => true,
        },
{
}

/// What is said of a call on processes, mounts and terminals is said of what
/// it holds, each part taken whole.
pub proof fn law_process_calls_are_seen_whole(call: HostCall)
    ensures
        match call {
            HostCall::OpenTerminal => call@ == HostCallView::OpenTerminal,
            HostCall::OpenPipe => call@ == HostCallView::OpenPipe,
            HostCall::Fork => call@ == HostCallView::Fork,
            HostCall::SendSignal => call@ == HostCallView::SendSignal,
            HostCall::AwaitSignal => call@ == HostCallView::AwaitSignal,
            HostCall::RelayTerminal => call@ == HostCallView::RelayTerminal,
            HostCall::AttachTerminal => call@ == HostCallView::AttachTerminal,
            HostCall::Wait(pid) => call@ == HostCallView::Wait(pid),
            HostCall::Unshare(n) => call@ == HostCallView::Unshare(n@),
            HostCall::ChangeDir(p) => call@ == HostCallView::ChangeDir(p.bytes@),
            HostCall::Detach(p) => call@ == HostCallView::Detach(p.bytes@),
            HostCall::PivotRoot { new_root, put_old } => call@ == (HostCallView::PivotRoot {
                new_root: new_root.bytes@,
                put_old: put_old.bytes@,
            }),
            HostCall::Mount { source, target, kind, flags } => {
                &&& call@ matches HostCallView::Mount { source: s, target: t, kind: k, flags: f }
                &&& (s is Some <==> source is Some)
                &&& (source matches Some(p) ==> s == Some(p.bytes@))
                &&& t == target.bytes@
                &&& (k is Some <==> kind is Some)
                &&& (kind matches Some(w) ==> k == Some(w@))
                &&& f == flags
            },
            HostCall::Exec { program, args, env } => {
                &&& call@ matches HostCallView::Exec { program: p, args: a, env: e }
                &&& (p is Some <==> program is Some)
                &&& (program matches Some(c) ==> p == Some(c@))
                &&& a.len() == args@.len()
                &&& (forall|i: int| 0 <= i < a.len() ==> #[trigger] a[i] == args@[i]@)
                &&& e.len() == env@.len()
                &&& (forall|i: int| 0 <= i < e.len() ==> #[trigger] e[i] == env@[i]@)
            },
            _ => true,
        },
{
}

/// What is said of a step is said of its call and its rule, and what is said
/// of a rule is said of what it holds.
pub proof fn law_steps_are_seen_whole(step: Step, rule: Rule)
    ensures
        step@.call == step.call@,
        step@.rule == step.rule@,
        match rule {
            Rule::Required => rule@ is Required,
            Rule::Optional => rule@ is Optional,
            Rule::Limit => rule@ is Limit,
            Rule::SkipIfPresent => rule@ is SkipIfPresent,
            Rule::Expect { flag, otherwise } => rule@ == (RuleView::Expect {
                flag,
                otherwise: otherwise@,
            }),
            Rule::Record => rule@ is Record,
            Rule::Text => rule@ is Text,
            Rule::Process => rule@ is Process,
            Rule::Exit => rule@ is Exit,
        },
{
}

/// What is said of an error is said of what it holds, taken whole.
pub proof fn law_errors_are_seen_whole(error: RuntimeError)
    ensures
        match error {
            RuntimeError::InvalidAction { state, action } => error@ == (
            RuntimeErrorView::InvalidAction { state, action }),
            RuntimeError::InvalidBundle(p) => error@ == RuntimeErrorView::InvalidBundle(p.bytes@),
            RuntimeError::InvalidState(s) => error@ == RuntimeErrorView::InvalidState(s@),
            RuntimeError::ConfigNotFound(p) => error@ == RuntimeErrorView::ConfigNotFound(
                p.bytes@,
            ),
            RuntimeError::ConfigParseError(e) => error@ == RuntimeErrorView::ConfigParseError(e),
            RuntimeError::ContainerNotFound(s) => error@ == RuntimeErrorView::ContainerNotFound(
                s@,
            ),
            RuntimeError::ContainerAlreadyExists(s) => error@
                == RuntimeErrorView::ContainerAlreadyExists(s@),
            RuntimeError::IoError(e) => error@ == RuntimeErrorView::IoError(e),
            RuntimeError::SerializationError(e) => error@
                == RuntimeErrorView::SerializationError(e),
            RuntimeError::DeserializationError(e) => error@
                == RuntimeErrorView::DeserializationError(e),
            RuntimeError::IdMismatch { expected, got } => error@ == (
            RuntimeErrorView::IdMismatch { expected: expected@, got: got@ }),
            RuntimeError::NixError(e) => error@ == RuntimeErrorView::NixError(e),
            RuntimeError::CgroupError(e) => error@ == RuntimeErrorView::CgroupError(e),
            RuntimeError::CStringError(e) => error@ == (RuntimeErrorView::CStringError {
                position: e.position as int,
                bytes: e.bytes@,
            }),
        },
{
}

/// What is said of a list of steps is said of each of them, in order.
pub proof fn law_step_lists_are_seen_whole(steps: Seq<Step>)
    ensures
        steps_view(steps).len() == steps.len(),
        forall|i: int| 0 <= i < steps.len() ==> #[trigger] steps_view(steps)[i] == steps[i]@,
{
}

/// What is said of the progress of a script, of the stage of a session and of
/// its outcome is said of what they hold, each part taken whole.
pub proof fn law_outcomes_are_seen_whole(progress: Progress, stage: Stage, turn: Turn)
    ensures
        match progress {
            Progress::Pending(s) => progress@ == ProgressView::Pending(s@),
            Progress::Finished(r) => progress@ == ProgressView::Finished(r),
            Progress::Failed(e) => progress@ == ProgressView::Failed(e@),
        },
        match stage {
            Stage::Creating(c) => stage@ == StageView::Creating(c@),
            Stage::Loading { id, start } => stage@ == (StageView::Loading { id: id@, start }),
            Stage::Configuring(c) => stage@ == StageView::Configuring(c@),
            Stage::Launching(c, l) => stage@ == StageView::Launching(c@, l@),
            Stage::Supervising(c) => stage@ == StageView::Supervising(c@),
            Stage::Recording(c) => stage@ == StageView::Recording(c@),
            Stage::Isolating(l) => stage@ == StageView::Isolating(l@),
            Stage::Reaping => stage@ == StageView::Reaping,
            Stage::Entering => stage@ == StageView::Entering,
        },
        match turn {
            Turn::Pending(s) => turn@ == TurnView::Pending(s@),
            Turn::Created(c) => turn@ == TurnView::Created(c@),
            Turn::Loaded(c) => turn@ == TurnView::Loaded(c@),
            Turn::Ended(c) => turn@ == TurnView::Ended(c@),
            Turn::Exit(status) => turn@ == TurnView::Exit(status),
            Turn::Failed(e) => turn@ == TurnView::Failed(e@),
        },
{
}

} // verus!
