//! The record of a container's state, and the places in which the runtime
//! keeps what it knows of containers.

use vstd::prelude::*;
use vstd::string::*;
use vstd::utf8::*;

use crate::runtime::container::{Container, ContainerView};
use crate::runtime::error::{RuntimeError, RuntimeErrorView};
use crate::runtime::host::{step, HostCall, HostCallView, Rule, RuleView, Step, StepView};
use crate::runtime::path::{
    joined, law_join_puts_one_slash_between, law_parent_undoes_join, parent_of, path_text,
    trimmed, UnixPath, SLASH,
};
use crate::runtime::script::{push_step, runnable, steps_view, Script};
use crate::runtime::state::state_word;
use crate::runtime::text::{lemma_encode_first, lemma_encode_injective};

verus! {

/// The record of a container, as it is kept in its state file.
#[derive(Debug)]
pub struct OciState {
    pub oci_version: String,
    pub id: String,
    pub status: String,
    pub pid: Option<i32>,
    pub bundle: String,
}

/// The mathematical value of an [`OciState`].
pub struct OciStateView {
    pub oci_version: Seq<char>,
    pub id: Seq<char>,
    pub status: Seq<char>,
    pub pid: Option<i32>,
    pub bundle: Seq<char>,
}

impl View for OciState {
    type V = OciStateView;

    open spec fn view(&self) -> OciStateView {
        OciStateView {
            oci_version: self.oci_version@,
            id: self.id@,
            status: self.status@,
            pid: self.pid,
            bundle: self.bundle@,
        }
    }
}

/// The directory under which the runtime keeps its containers.
pub open spec fn root_path() -> Seq<u8> {
    encode_utf8("/run/runsys"@)
}

/// The directory of a container.
pub open spec fn dir_of(id: Seq<char>) -> Seq<u8> {
    joined(root_path(), encode_utf8(id))
}

/// The state file of a container.
pub open spec fn state_file(id: Seq<char>) -> Seq<u8> {
    joined(dir_of(id), encode_utf8("state.json"@))
}

/// The FIFO of a container.
pub open spec fn fifo_file(id: Seq<char>) -> Seq<u8> {
    joined(dir_of(id), encode_utf8("exec.fifo"@))
}

/// The directory under which the runtime keeps its containers.
pub fn runtime_root() -> (p: UnixPath)
    ensures
        p@ == root_path(),
{
    UnixPath::from_text("/run/runsys")
}

/// The directory of a container.
pub fn container_dir(id: &str) -> (p: UnixPath)
    ensures
        p@ == dir_of(id@),
{
    runtime_root().join(id)
}

/// The state file of a container.
pub fn state_path(id: &str) -> (p: UnixPath)
    ensures
        p@ == state_file(id@),
{
    container_dir(id).join("state.json")
}

/// The FIFO of a container.
pub fn exec_fifo_path(id: &str) -> (p: UnixPath)
    ensures
        p@ == fifo_file(id@),
{
    container_dir(id).join("exec.fifo")
}

/// A process number as a record holds it.
pub open spec fn recorded_pid(pid: Option<u32>) -> Option<i32> {
    match pid {
        Some(p) => Some(p as i32),
        None => None,
    }
}

/// The record of a container.
pub open spec fn record_of(c: ContainerView) -> OciStateView {
    OciStateView {
        oci_version: "1.0.2"@,
        id: c.id,
        status: state_word(c.state),
        pid: recorded_pid(c.pid),
        bundle: path_text(c.bundle),
    }
}

/// The steps that write a record to the state file of an identifier: its
/// directory is made first.
pub open spec fn save_steps(record: OciStateView, id: Seq<char>) -> Seq<StepView> {
    let write = step(
        HostCallView::WriteState { path: state_file(id), state: record },
        RuleView::Required,
    );
    match parent_of(state_file(id)) {
        Some(dir) => seq![step(HostCallView::CreateDirAll(dir), RuleView::Required), write],
        None => seq![write],
    }
}

/// The steps that read the record in the state file of an identifier: there
/// must be such a file.
pub open spec fn load_steps(id: Seq<char>) -> Seq<StepView> {
    seq![
        step(
            HostCallView::Exists(state_file(id)),
            RuleView::Expect { flag: true, otherwise: RuntimeErrorView::ContainerNotFound(id) },
        ),
        step(HostCallView::ReadState(state_file(id)), RuleView::Record),
    ]
}

impl Clone for OciState {
    fn clone(&self) -> (o: Self)
        ensures
            o@ == self@,
    {
        OciState {
            oci_version: self.oci_version.clone(),
            id: self.id.clone(),
            status: self.status.clone(),
            pid: self.pid,
            bundle: self.bundle.clone(),
        }
    }
}

impl OciState {
    /// The record of a container, as [`record_of`] says.
    pub fn from(container: &Container) -> (o: OciState)
        ensures
            o@ == record_of(container@),
    {
        OciState {
            oci_version: "1.0.2".to_string(),
            id: container.id.clone(),
            status: container.state.to_string(),
            pid: match container.pid {
                Some(p) => Some(p as i32),
                None => None,
            },
            bundle: container.bundle.to_string_lossy(),
        }
    }

    /// The steps of [`OciState::save`].
    pub(crate) fn save_list(&self, id: &str) -> (steps: Vec<Step>)
        ensures
            steps_view(steps@) == save_steps(self@, id@),
            runnable(steps_view(steps@)),
    {
        let mut steps: Vec<Step> = Vec::new();
        assert(steps_view(steps@) =~= Seq::empty());
        let path = state_path(id);
        match path.parent() {
            Some(dir) => {
                push_step(&mut steps, HostCall::CreateDirAll(dir), Rule::Required);
            },
            None => {},
        }
        push_step(&mut steps, HostCall::WriteState { path, state: self.clone() }, Rule::Required);
        assert(steps_view(steps@) =~= save_steps(self@, id@));
        steps
    }

    /// Writes the record to the state file of an identifier.
    pub fn save(&self, id: &str) -> (s: Script)
        ensures
            s@ == save_steps(self@, id@),
    {
        Script::new(self.save_list(id))
    }

    /// Reads the record in the state file of an identifier. The record that
    /// comes back is for [`OciState::loaded`] to accept.
    pub fn load(id: &str) -> (s: Script)
        ensures
            s@ == load_steps(id@),
    {
        let mut steps: Vec<Step> = Vec::new();
        assert(steps_view(steps@) =~= Seq::empty());
        push_step(
            &mut steps,
            HostCall::Exists(state_path(id)),
            Rule::Expect { flag: true, otherwise: RuntimeError::ContainerNotFound(id.to_string()) },
        );
        push_step(&mut steps, HostCall::ReadState(state_path(id)), Rule::Record);
        assert(steps_view(steps@) =~= load_steps(id@));
        Script::new(steps)
    }

    /// Accepts a record that was found under an identifier: it must be the
    /// one of that identifier.
    pub fn loaded(self, id: &str) -> (r: Result<OciState, RuntimeError>)
        ensures
            if self.id@ == id@ {
                r == Ok::<OciState, RuntimeError>(self)
            } else {
                r matches Err(e) && e@ == (RuntimeErrorView::IdMismatch {
                    expected: id@,
                    got: self.id@,
                })
            },
    {
        if self.id != id.to_string() {
            return Err(RuntimeError::IdMismatch { expected: id.to_string(), got: self.id });
        }
        Ok(self)
    }
}

/// An identifier with no slash at either end.
pub open spec fn plain_id(id: Seq<char>) -> bool {
    id.len() > 0 && id[0] != '/' && id.last() != '/'
}

/// The state file of a container is `/run/runsys/<id>/state.json`, and its
/// FIFO `/run/runsys/<id>/exec.fifo`, where its identifier is plain.
pub proof fn law_state_file_location(id: Seq<char>)
    requires
        plain_id(id),
    ensures
        dir_of(id) == encode_utf8("/run/runsys/"@ + id),
        state_file(id) == encode_utf8("/run/runsys/"@ + id + "/state.json"@),
        fifo_file(id) == encode_utf8("/run/runsys/"@ + id + "/exec.fifo"@),
{
    reveal_strlit("/run/runsys");
    reveal_strlit("/run/runsys/");
    reveal_strlit("state.json");
    reveal_strlit("/state.json");
    let slash = seq!['/'];
    assert("/run/runsys"@ + slash =~= "/run/runsys/"@);
    law_join_puts_one_slash_between("/run/runsys"@, id);
    let dir = "/run/runsys/"@ + id;
    assert(dir.last() == id.last());
    law_join_puts_one_slash_between(dir, "state.json"@);
    assert(dir + slash + "state.json"@ =~= "/run/runsys/"@ + id + "/state.json"@);
    reveal_strlit("exec.fifo");
    reveal_strlit("/exec.fifo");
    law_join_puts_one_slash_between(dir, "exec.fifo"@);
    assert(dir + slash + "exec.fifo"@ =~= "/run/runsys/"@ + id + "/exec.fifo"@);
}

/// No two plain identifiers have the same state file path. Paths that differ
/// can still lead to one file, as those of `a/b` and `a//b` do.
pub proof fn law_state_paths_are_distinct(a: Seq<char>, b: Seq<char>)
    requires
        plain_id(a),
        plain_id(b),
        state_file(a) == state_file(b),
    ensures
        a == b,
{
    law_state_file_location(a);
    law_state_file_location(b);
    let root = "/run/runsys/"@;
    let name = "/state.json"@;
    lemma_encode_injective(root + a + name, root + b + name);
    assert((root + a + name).len() == (root + b + name).len());
    assert forall|i: int| 0 <= i < a.len() implies a[i] == b[i] by {
        assert((root + a + name)[root.len() + i] == a[i]);
        assert((root + b + name)[root.len() + i] == b[i]);
    }
    assert(a =~= b);
}

/// The directory that is made before a record is written is the container's
/// own, but for void components at its end.
pub proof fn law_record_is_kept_in_container_dir(id: Seq<char>)
    ensures
        parent_of(state_file(id)) == Some(trimmed(dir_of(id))),
{
    let name = "state.json"@;
    reveal_strlit("state.json");
    reveal_strlit("/run/runsys");
    lemma_encode_first("/run/runsys"@);
    if id.len() > 0 {
        lemma_encode_first(id);
    }
    is_ascii_chars_encode_utf8(name);
    assert(encode_utf8(name).len() == name.len());
    assert forall|i: int| 0 <= i < encode_utf8(name).len() implies encode_utf8(name)[i]
        != SLASH by {
        assert(encode_utf8(name)[i] == name[i] as u8);
    }
    law_parent_undoes_join(dir_of(id), encode_utf8(name));
}

} // verus!
