//! Resource limits through control groups, version 2.

use vstd::prelude::*;
use vstd::string::*;
use vstd::utf8::*;

use crate::runtime::config::{CpuConfig, LinuxConfig, MemoryConfig, ResourceConfig};
use crate::runtime::host::{step, HostCall, HostCallView, Rule, RuleView, Step, StepView};
use crate::runtime::path::{joined, law_join_is_base_and_part, lemma_slash_bytes, UnixPath};
use crate::runtime::script::{append_steps, push_step, runnable, steps_view, Script};
use crate::runtime::text::{
    decimal, lemma_encode_concat, lemma_encode_first, lemma_encode_last, signed_decimal,
    unsigned_decimal,
};

verus! {

/// The directory of a container's control group.
pub open spec fn group_of(id: Seq<char>) -> Seq<u8> {
    joined(encode_utf8("/sys/fs/cgroup"@), encode_utf8(id))
}

/// The step that writes a value to a file of a group.
pub open spec fn write_step(group: Seq<u8>, file: Seq<char>, value: Seq<char>) -> StepView {
    step(
        HostCallView::WriteText { path: joined(group, encode_utf8(file)), text: value },
        RuleView::Limit,
    )
}

/// The step that writes a number to a file of a group, where there is one.
pub open spec fn number_steps(group: Seq<u8>, file: Seq<char>, number: Option<int>) -> Seq<
    StepView,
> {
    match number {
        Some(n) => seq![write_step(group, file, decimal(n))],
        None => Seq::empty(),
    }
}

/// A signed number as an integer, where there is one.
pub open spec fn opt_i64(n: Option<i64>) -> Option<int> {
    match n {
        Some(v) => Some(v as int),
        None => None,
    }
}

/// An unsigned number as an integer, where there is one.
pub open spec fn opt_u64(n: Option<u64>) -> Option<int> {
    match n {
        Some(v) => Some(v as int),
        None => None,
    }
}

/// The steps for memory limits: the limit to `memory.max`, the reservation to
/// `memory.low`.
pub open spec fn memory_steps(group: Seq<u8>, memory: MemoryConfig) -> Seq<StepView> {
    number_steps(group, "memory.max"@, opt_i64(memory.limit)) + number_steps(
        group,
        "memory.low"@,
        opt_i64(memory.reservation),
    )
}

/// The steps for processor limits: quota and period to `cpu.max` where both
/// are set, the shares to `cpu.weight`.
pub open spec fn cpu_steps(group: Seq<u8>, cpu: CpuConfig) -> Seq<StepView> {
    let bandwidth = match (cpu.quota, cpu.period) {
        (Some(quota), Some(period)) => seq![
            write_step(
                group,
                "cpu.max"@,
                decimal(quota as int) + " "@ + decimal(period as int),
            ),
        ],
        _ => Seq::empty(),
    };
    bandwidth + number_steps(group, "cpu.weight"@, opt_u64(cpu.shares))
}

/// The steps for all the limits of a resources section.
pub open spec fn resource_steps(group: Seq<u8>, resources: ResourceConfig) -> Seq<StepView> {
    let memory = match resources.memory {
        Some(m) => memory_steps(group, m),
        None => Seq::empty(),
    };
    let cpu = match resources.cpu {
        Some(c) => cpu_steps(group, c),
        None => Seq::empty(),
    };
    let pids = match resources.pids {
        Some(p) => seq![write_step(group, "pids.max"@, decimal(p.limit as int))],
        None => Seq::empty(),
    };
    memory + cpu + pids
}

/// The steps that turn the controllers on for the groups below the root.
/// Without the file there are no control groups; what it refuses is left off.
pub open spec fn controller_steps() -> Seq<StepView> {
    seq![
        step(
            HostCallView::OpenForWriting(
                encode_utf8("/sys/fs/cgroup/cgroup.subtree_control"@),
            ),
            RuleView::Limit,
        ),
        step(
            HostCallView::WriteOpened("+cpu +cpuset +memory +pids +io"@),
            RuleView::Optional,
        ),
    ]
}

/// The steps that set a group up for a process: the controllers, the group's
/// directory, the limits, and at last the process itself.
pub open spec fn limit_steps(group: Seq<u8>, linux: Option<LinuxConfig>, pid: u32) -> Seq<
    StepView,
> {
    let limits = match linux {
        Some(l) => match l.resources {
            Some(r) => resource_steps(group, r),
            None => Seq::empty(),
        },
        None => Seq::empty(),
    };
    controller_steps() + seq![
        step(HostCallView::Exists(group), RuleView::SkipIfPresent),
        step(HostCallView::CreateDirAll(group), RuleView::Limit),
    ] + limits + seq![write_step(group, "cgroup.procs"@, decimal(pid as int))]
}

/// The control group of a container.
#[derive(Debug)]
pub struct CgroupManager {
    root_path: UnixPath,
}

impl View for CgroupManager {
    type V = Seq<u8>;

    closed spec fn view(&self) -> Seq<u8> {
        self.root_path@
    }
}

impl Clone for CgroupManager {
    fn clone(&self) -> (m: Self)
        ensures
            m@ == self@,
    {
        CgroupManager { root_path: self.root_path.clone() }
    }
}

impl CgroupManager {
    /// The control group of the container with an identifier.
    pub fn new(container_id: &str) -> (m: CgroupManager)
        ensures
            m@ == group_of(container_id@),
    {
        CgroupManager { root_path: UnixPath::from_text("/sys/fs/cgroup").join(container_id) }
    }

    /// The directory of the group.
    pub fn root_path(&self) -> (p: &UnixPath)
        ensures
            p@ == self@,
    {
        &self.root_path
    }

    fn write_cgroup_file(&self, steps: &mut Vec<Step>, filename: &str, value: String)
        ensures
            steps_view(final(steps)@) == steps_view(old(steps)@).push(
                write_step(self@, filename@, value@),
            ),
    {
        push_step(
            steps,
            HostCall::WriteText { path: self.root_path.join(filename), text: value },
            Rule::Limit,
        );
    }

    fn enable_controllers() -> (steps: Vec<Step>)
        ensures
            steps_view(steps@) == controller_steps(),
    {
        let mut steps: Vec<Step> = Vec::new();
        assert(steps_view(steps@) =~= Seq::empty());
        push_step(
            &mut steps,
            HostCall::OpenForWriting(UnixPath::from_text("/sys/fs/cgroup/cgroup.subtree_control")),
            Rule::Limit,
        );
        push_step(
            &mut steps,
            HostCall::WriteOpened("+cpu +cpuset +memory +pids +io".to_string()),
            Rule::Optional,
        );
        assert(steps_view(steps@) =~= controller_steps());
        steps
    }

    fn memory_list(&self, memory: &MemoryConfig) -> (steps: Vec<Step>)
        ensures
            steps_view(steps@) == memory_steps(self@, *memory),
    {
        let mut steps: Vec<Step> = Vec::new();
        assert(steps_view(steps@) =~= Seq::empty());
        if let Some(limit) = memory.limit {
            self.write_cgroup_file(&mut steps, "memory.max", signed_decimal(limit));
        }
        if let Some(reservation) = memory.reservation {
            self.write_cgroup_file(&mut steps, "memory.low", signed_decimal(reservation));
        }
        assert(steps_view(steps@) =~= memory_steps(self@, *memory));
        steps
    }

    fn cpu_list(&self, cpu: &CpuConfig) -> (steps: Vec<Step>)
        ensures
            steps_view(steps@) == cpu_steps(self@, *cpu),
    {
        let mut steps: Vec<Step> = Vec::new();
        assert(steps_view(steps@) =~= Seq::empty());
        if let (Some(quota), Some(period)) = (cpu.quota, cpu.period) {
            let value = signed_decimal(quota).concat(" ").concat(
                unsigned_decimal(period).as_str(),
            );
            self.write_cgroup_file(&mut steps, "cpu.max", value);
        }
        if let Some(shares) = cpu.shares {
            self.write_cgroup_file(&mut steps, "cpu.weight", unsigned_decimal(shares));
        }
        assert(steps_view(steps@) =~= cpu_steps(self@, *cpu));
        steps
    }

    fn resource_list(&self, resources: &ResourceConfig) -> (steps: Vec<Step>)
        ensures
            steps_view(steps@) == resource_steps(self@, *resources),
    {
        let mut steps: Vec<Step> = Vec::new();
        assert(steps_view(steps@) =~= Seq::empty());
        if let Some(memory) = &resources.memory {
            append_steps(&mut steps, self.memory_list(memory));
        }
        if let Some(cpu) = &resources.cpu {
            append_steps(&mut steps, self.cpu_list(cpu));
        }
        if let Some(pids) = &resources.pids {
            self.write_cgroup_file(&mut steps, "pids.max", signed_decimal(pids.limit));
        }
        assert(steps_view(steps@) =~= resource_steps(self@, *resources));
        steps
    }

    /// The steps of [`CgroupManager::apply_limits`].
    pub(crate) fn limit_list(&self, linux: &Option<LinuxConfig>, pid: u32) -> (steps: Vec<Step>)
        ensures
            steps_view(steps@) == limit_steps(self@, *linux, pid),
    {
        let mut steps = Self::enable_controllers();
        push_step(&mut steps, HostCall::Exists(self.root_path.clone()), Rule::SkipIfPresent);
        push_step(&mut steps, HostCall::CreateDirAll(self.root_path.clone()), Rule::Limit);
        if let Some(linux) = linux {
            if let Some(resources) = &linux.resources {
                append_steps(&mut steps, self.resource_list(resources));
            }
        }
        self.write_cgroup_file(&mut steps, "cgroup.procs", unsigned_decimal(pid as u64));
        assert(steps_view(steps@) =~= limit_steps(self@, *linux, pid));
        steps
    }

    /// Puts a process under the limits of a configuration, as [`limit_steps`]
    /// says.
    pub fn apply_limits(&self, linux: &Option<LinuxConfig>, pid: u32) -> (s: Script)
        ensures
            s@ == limit_steps(self@, *linux, pid),
    {
        let steps = self.limit_list(linux, pid);
        proof {
            lemma_limits_runnable(self@, *linux, pid);
        }
        Script::new(steps)
    }
}

proof fn lemma_resources_are_writes(group: Seq<u8>, resources: ResourceConfig)
    ensures
        forall|i: int|
            0 <= i < resource_steps(group, resources).len() ==> (#[trigger] resource_steps(
                group,
                resources,
            )[i]).rule == RuleView::Limit,
{
}

/// Only the question whether the group exists can make a call needless, and
/// then it is the making of its directory. No answer is expected of it.
pub(crate) proof fn lemma_limits_runnable(group: Seq<u8>, linux: Option<LinuxConfig>, pid: u32)
    ensures
        runnable(limit_steps(group, linux, pid)),
        forall|i: int|
            0 <= i < limit_steps(group, linux, pid).len() && i != 2 ==> !((#[trigger] limit_steps(
                group,
                linux,
                pid,
            )[i]).rule is SkipIfPresent),
        forall|i: int|
            0 <= i < limit_steps(group, linux, pid).len() ==> !((#[trigger] limit_steps(
                group,
                linux,
                pid,
            )[i]).rule is Expect),
{
    if linux is Some && linux->0.resources is Some {
        lemma_resources_are_writes(group, linux->0.resources->0);
    }
}

/// The control group of a container is `/sys/fs/cgroup/<id>`; an absolute
/// identifier is a path of its own.
pub proof fn law_group_location(id: Seq<char>)
    ensures
        id.len() == 0 || id[0] != '/' ==> group_of(id) == encode_utf8("/sys/fs/cgroup/"@ + id),
        id.len() > 0 && id[0] == '/' ==> group_of(id) == encode_utf8(id),
{
    let root = "/sys/fs/cgroup"@;
    reveal_strlit("/sys/fs/cgroup");
    reveal_strlit("/sys/fs/cgroup/");
    if id.len() > 0 {
        lemma_encode_first(id);
    }
    lemma_encode_last(root);
    assert(root + seq!['/'] =~= "/sys/fs/cgroup/"@);
    law_join_is_base_and_part(encode_utf8(root), encode_utf8(id));
    lemma_encode_concat(root, seq!['/']);
    lemma_encode_concat("/sys/fs/cgroup/"@, id);
    lemma_slash_bytes();
}

/// A value is written to the file of its name in the group.
pub proof fn law_value_is_written_in_the_group(
    group: Seq<u8>,
    file: Seq<char>,
    value: Seq<char>,
)
    requires
        group.len() > 0,
        group.last() != 47u8,
        file.len() > 0,
        file[0] != '/',
    ensures
        write_step(group, file, value) == (StepView {
            call: HostCallView::WriteText {
                path: group + seq![47u8] + encode_utf8(file),
                text: value,
            },
            rule: RuleView::Limit,
        }),
{
    lemma_encode_first(file);
    law_join_is_base_and_part(group, encode_utf8(file));
}

/// How many limits a resources section sets.
pub open spec fn limits_set(resources: ResourceConfig) -> int {
    let max: int = if resources.memory is Some && resources.memory->0.limit is Some {
        1
    } else {
        0
    };
    let low: int = if resources.memory is Some && resources.memory->0.reservation is Some {
        1
    } else {
        0
    };
    let bandwidth: int = if resources.cpu is Some && resources.cpu->0.quota is Some
        && resources.cpu->0.period is Some {
        1
    } else {
        0
    };
    let weight: int = if resources.cpu is Some && resources.cpu->0.shares is Some { 1 } else { 0 };
    let pids: int = if resources.pids is Some { 1 } else { 0 };
    max + low + bandwidth + weight + pids
}

/// To put a process under limits is to turn the controllers on, to make the
/// group's directory where it is missing, to make one write for each limit
/// that is set, and at last to put the process into the group.
pub proof fn law_limits_are_framed(group: Seq<u8>, linux: Option<LinuxConfig>, pid: u32)
    ensures
        ({
            let steps = limit_steps(group, linux, pid);
            let n = steps.len() as int;
            &&& n == 5 + if linux is Some && linux->0.resources is Some {
                limits_set(linux->0.resources->0)
            } else {
                0
            }
            &&& steps[0] == (StepView {
                call: HostCallView::OpenForWriting(
                    encode_utf8("/sys/fs/cgroup/cgroup.subtree_control"@),
                ),
                rule: RuleView::Limit,
            })
            &&& steps[1] == (StepView {
                call: HostCallView::WriteOpened("+cpu +cpuset +memory +pids +io"@),
                rule: RuleView::Optional,
            })
            &&& steps[2] == (StepView {
                call: HostCallView::Exists(group),
                rule: RuleView::SkipIfPresent,
            })
            &&& steps[3] == (StepView {
                call: HostCallView::CreateDirAll(group),
                rule: RuleView::Limit,
            })
            &&& steps[n - 1] == write_step(group, "cgroup.procs"@, decimal(pid as int))
        }),
{
}

} // verus!
