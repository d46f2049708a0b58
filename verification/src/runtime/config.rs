//! The part of an OCI configuration that the runtime reads, and what is to be
//! launched by it.

use vstd::prelude::*;
use vstd::string::*;
use vstd::utf8::*;

use oci_spec::runtime::Spec;

use crate::runtime::error::{InteriorNul, RuntimeError, RuntimeErrorView};
use crate::runtime::path::prefix;

verus! {

/// The views of a list of texts.
pub open spec fn texts(list: Seq<String>) -> Seq<Seq<char>> {
    list.map_values(|s: String| s@)
}

/// The views of a list of texts, where there is one.
pub open spec fn opt_texts(list: Option<Vec<String>>) -> Option<Seq<Seq<char>>> {
    match list {
        Some(v) => Some(texts(v@)),
        None => None,
    }
}

/// The view of a text, where there is one.
pub open spec fn opt_text(s: Option<String>) -> Option<Seq<char>> {
    match s {
        Some(t) => Some(t@),
        None => None,
    }
}

/// The process section: what to run, where, and whether on a terminal.
#[derive(Debug)]
pub struct ProcessConfig {
    pub terminal: Option<bool>,
    pub args: Option<Vec<String>>,
    pub env: Option<Vec<String>>,
    /// The working directory, where it is text.
    pub cwd: Option<String>,
}

/// The mathematical value of a [`ProcessConfig`].
pub struct ProcessView {
    pub terminal: Option<bool>,
    pub args: Option<Seq<Seq<char>>>,
    pub env: Option<Seq<Seq<char>>>,
    pub cwd: Option<Seq<char>>,
}

impl View for ProcessConfig {
    type V = ProcessView;

    open spec fn view(&self) -> ProcessView {
        ProcessView {
            terminal: self.terminal,
            args: opt_texts(self.args),
            env: opt_texts(self.env),
            cwd: opt_text(self.cwd),
        }
    }
}

/// Memory limits, in bytes.
#[derive(Debug, Clone, Copy)]
pub struct MemoryConfig {
    pub limit: Option<i64>,
    pub reservation: Option<i64>,
}

/// Processor limits.
#[derive(Debug, Clone, Copy)]
pub struct CpuConfig {
    pub quota: Option<i64>,
    pub period: Option<u64>,
    pub shares: Option<u64>,
}

/// The limit on the number of processes.
#[derive(Debug, Clone, Copy)]
pub struct PidsConfig {
    pub limit: i64,
}

/// The resources section.
#[derive(Debug, Clone, Copy)]
pub struct ResourceConfig {
    pub memory: Option<MemoryConfig>,
    pub cpu: Option<CpuConfig>,
    pub pids: Option<PidsConfig>,
}

/// The Linux section.
#[derive(Debug, Clone, Copy)]
pub struct LinuxConfig {
    pub resources: Option<ResourceConfig>,
}

/// A configuration.
#[derive(Debug)]
pub struct OciConfig {
    pub process: Option<ProcessConfig>,
    pub linux: Option<LinuxConfig>,
}

/// The mathematical value of an [`OciConfig`].
pub struct OciConfigView {
    pub process: Option<ProcessView>,
    pub linux: Option<LinuxConfig>,
}

/// The view of a process section, where there is one.
pub open spec fn opt_process(p: Option<ProcessConfig>) -> Option<ProcessView> {
    match p {
        Some(p) => Some(p@),
        None => None,
    }
}

impl View for OciConfig {
    type V = OciConfigView;

    open spec fn view(&self) -> OciConfigView {
        OciConfigView { process: opt_process(self.process), linux: self.linux }
    }
}

/// What `serde_json::from_str` reads from a text as an OCI configuration, or
/// its error where the text is not one.
pub uninterp spec fn parsed_config(text: Seq<char>) -> Result<OciConfigView, serde_json::Error>;

/// The fields of a process section that the runtime reads: terminal,
/// arguments, environment and working directory.
type ProcessParts = (Option<bool>, Option<Vec<String>>, Option<Vec<String>>, Option<String>);

/// The fields of a resources section that the runtime reads: limit and
/// reservation of memory; quota, period and shares of the processor; and the
/// limit on the number of processes.
type ResourceParts = (
    Option<(Option<i64>, Option<i64>)>,
    Option<(Option<i64>, Option<u64>, Option<u64>)>,
    Option<i64>,
);

/// The fields of a configuration that the runtime reads: those of its process
/// section, and those of the resources in its Linux section.
type ConfigParts = (Option<ProcessParts>, Option<Option<ResourceParts>>);

/// Memory limits, from their fields.
pub open spec fn memory_of(parts: Option<(Option<i64>, Option<i64>)>) -> Option<MemoryConfig> {
    match parts {
        Some((limit, reservation)) => Some(MemoryConfig { limit, reservation }),
        None => None,
    }
}

/// Processor limits, from their fields.
pub open spec fn cpu_of(parts: Option<(Option<i64>, Option<u64>, Option<u64>)>) -> Option<
    CpuConfig,
> {
    match parts {
        Some((quota, period, shares)) => Some(CpuConfig { quota, period, shares }),
        None => None,
    }
}

/// The limit on the number of processes, from its field.
pub open spec fn pids_of(parts: Option<i64>) -> Option<PidsConfig> {
    match parts {
        Some(limit) => Some(PidsConfig { limit }),
        None => None,
    }
}

/// A configuration, from its fields.
pub open spec fn config_of(parts: ConfigParts) -> OciConfigView {
    OciConfigView {
        process: match parts.0 {
            Some((terminal, args, env, cwd)) => Some(
                ProcessView {
                    terminal,
                    args: opt_texts(args),
                    env: opt_texts(env),
                    cwd: opt_text(cwd),
                },
            ),
            None => None,
        },
        linux: match parts.1 {
            Some(Some((memory, cpu, pids))) => Some(
                LinuxConfig {
                    resources: Some(
                        ResourceConfig {
                            memory: memory_of(memory),
                            cpu: cpu_of(cpu),
                            pids: pids_of(pids),
                        },
                    ),
                },
            ),
            Some(None) => Some(LinuxConfig { resources: None }),
            None => None,
        },
    }
}

/// Calls [`serde_json::from_str`] for an [`oci_spec::runtime::Spec`] and hands
/// out the fields that the runtime reads. Which texts are configurations, what
/// they say, and which error the others give is left to the name
/// `parsed_config`.
#[verifier::external_body]
fn parse_config(text: &str) -> (r: Result<ConfigParts, serde_json::Error>)
    ensures
        match r {
            Ok(parts) => parsed_config(text@) == Ok::<OciConfigView, serde_json::Error>(
                config_of(parts),
            ),
            Err(e) => parsed_config(text@) == Err::<OciConfigView, serde_json::Error>(e),
        },
{
    let spec: Spec = serde_json::from_str(text)?;
    Ok((
        spec.process().as_ref().map(|p| (
            p.terminal(), p.args().clone(), p.env().clone(), p.cwd().to_str().map(str::to_owned),
        )),
        spec.linux().as_ref().map(|l| l.resources().as_ref().map(|r| (
            r.memory().map(|m| (m.limit(), m.reservation())),
            r.cpu().as_ref().map(|c| (c.quota(), c.period(), c.shares())),
            r.pids().map(|p| p.limit()),
        ))),
    ))
}

fn resource_config(parts: ResourceParts) -> (r: ResourceConfig)
    ensures
        r.memory == memory_of(parts.0),
        r.cpu == cpu_of(parts.1),
        r.pids == pids_of(parts.2),
{
    ResourceConfig {
        memory: match parts.0 {
            Some((limit, reservation)) => Some(MemoryConfig { limit, reservation }),
            None => None,
        },
        cpu: match parts.1 {
            Some((quota, period, shares)) => Some(CpuConfig { quota, period, shares }),
            None => None,
        },
        pids: match parts.2 {
            Some(limit) => Some(PidsConfig { limit }),
            None => None,
        },
    }
}

/// Reads a configuration from the text of `config.json`.
pub fn read_config(text: &str) -> (r: Result<OciConfig, RuntimeError>)
    ensures
        match parsed_config(text@) {
            Ok(config) => r matches Ok(x) && x@ == config,
            Err(e) => r == Err::<OciConfig, RuntimeError>(RuntimeError::ConfigParseError(e)),
        },
{
    let (process, linux) = match parse_config(text) {
        Ok(parts) => parts,
        Err(e) => return Err(RuntimeError::ConfigParseError(e)),
    };
    Ok(
        OciConfig {
            process: match process {
                Some((terminal, args, env, cwd)) => Some(
                    ProcessConfig { terminal, args, env, cwd },
                ),
                None => None,
            },
            linux: match linux {
                Some(Some(resources)) => Some(
                    LinuxConfig { resources: Some(resource_config(resources)) },
                ),
                Some(None) => Some(LinuxConfig { resources: None }),
                None => None,
            },
        },
    )
}

/// The index of the first zero byte.
pub open spec fn first_nul(bytes: Seq<u8>) -> Option<int>
    decreases bytes.len(),
{
    if bytes.len() == 0 {
        None
    } else {
        match first_nul(bytes.drop_last()) {
            Some(i) => Some(i),
            None => if bytes.last() == 0 {
                Some(bytes.len() - 1)
            } else {
                None
            },
        }
    }
}

/// A byte string without zero bytes, fit to be a C string.
#[derive(Debug)]
pub struct CText {
    bytes: Vec<u8>,
}

impl View for CText {
    type V = Seq<u8>;

    closed spec fn view(&self) -> Seq<u8> {
        self.bytes@
    }
}

impl CText {
    #[verifier::type_invariant]
    closed spec fn inv(self) -> bool {
        first_nul(self.bytes@) is None
    }

    /// Takes a text as a C string; a zero byte in it is an error.
    pub fn new(text: &str) -> (r: Result<CText, InteriorNul>)
        ensures
            match first_nul(encode_utf8(text@)) {
                None => r matches Ok(c) && c@ == encode_utf8(text@),
                Some(i) => r matches Err(e) && e.position == i && e.bytes@ == encode_utf8(text@),
            },
    {
        let bytes = text.as_bytes_vec();
        let mut i: usize = 0;
        while i < bytes.len()
            invariant
                i <= bytes@.len(),
                bytes@ == encode_utf8(text@),
                first_nul(bytes@.take(i as int)) is None,
            decreases bytes@.len() - i,
        {
            assert(bytes@.take(i + 1).drop_last() =~= bytes@.take(i as int));
            if bytes[i] == 0 {
                proof {
                    lemma_first_nul_in_prefix(bytes@, i + 1);
                }
                return Err(InteriorNul { position: i, bytes });
            }
            i = i + 1;
        }
        assert(bytes@.take(i as int) =~= bytes@);
        Ok(CText { bytes })
    }

    /// The bytes, without a zero byte at the end.
    pub fn bytes(&self) -> (b: &Vec<u8>)
        ensures
            b@ == self@,
            first_nul(b@) is None,
    {
        proof {
            use_type_invariant(self);
        }
        &self.bytes
    }
}

impl Clone for CText {
    fn clone(&self) -> (c: Self)
        ensures
            c@ == self@,
    {
        proof {
            use_type_invariant(self);
        }
        let bytes = prefix(&self.bytes, self.bytes.len());
        assert(bytes@ =~= self.bytes@);
        CText { bytes }
    }
}

proof fn lemma_first_nul_in_prefix(bytes: Seq<u8>, n: int)
    requires
        0 <= n <= bytes.len(),
        first_nul(bytes.take(n)) is Some,
    ensures
        first_nul(bytes) == first_nul(bytes.take(n)),
    decreases bytes.len(),
{
    if n < bytes.len() {
        assert(bytes.drop_last().take(n) =~= bytes.take(n));
        lemma_first_nul_in_prefix(bytes.drop_last(), n);
    } else {
        assert(bytes.take(n) =~= bytes);
    }
}

/// A C string holds no zero byte: [`first_nul`] finds one exactly where there
/// is one.
pub proof fn law_first_nul_finds(bytes: Seq<u8>)
    ensures
        match first_nul(bytes) {
            Some(i) => 0 <= i < bytes.len() && bytes[i] == 0 && forall|j: int|
                0 <= j < i ==> bytes[j] != 0,
            None => forall|j: int| 0 <= j < bytes.len() ==> bytes[j] != 0,
        },
    decreases bytes.len(),
{
    if bytes.len() > 0 {
        let init = bytes.drop_last();
        law_first_nul_finds(init);
        assert(forall|j: int| 0 <= j < init.len() ==> init[j] == bytes[j]);
    }
}

/// The views of a list of C strings.
pub open spec fn c_texts(list: Seq<CText>) -> Seq<Seq<u8>> {
    list.map_values(|c: CText| c@)
}

/// The bytes of a list of texts.
pub open spec fn encoded(list: Seq<Seq<char>>) -> Seq<Seq<u8>> {
    list.map_values(|t: Seq<char>| encode_utf8(t))
}

/// The error for the first text of a list that holds a zero byte.
pub open spec fn nul_error(list: Seq<Seq<char>>) -> Option<RuntimeErrorView>
    decreases list.len(),
{
    if list.len() == 0 {
        None
    } else {
        match nul_error(list.drop_last()) {
            Some(e) => Some(e),
            None => match first_nul(encode_utf8(list.last())) {
                Some(i) => Some(
                    RuntimeErrorView::CStringError {
                        position: i,
                        bytes: encode_utf8(list.last()),
                    },
                ),
                None => None,
            },
        }
    }
}

proof fn lemma_nul_error_in_prefix(list: Seq<Seq<char>>, n: int)
    requires
        0 <= n <= list.len(),
        nul_error(list.take(n)) is Some,
    ensures
        nul_error(list) == nul_error(list.take(n)),
    decreases list.len(),
{
    if n < list.len() {
        assert(list.drop_last().take(n) =~= list.take(n));
        lemma_nul_error_in_prefix(list.drop_last(), n);
    } else {
        assert(list.take(n) =~= list);
    }
}

/// Takes each text of a list as a C string; the first that cannot be one is
/// the error.
fn to_c_texts(list: &Vec<String>) -> (r: Result<Vec<CText>, RuntimeError>)
    ensures
        match nul_error(texts(list@)) {
            None => r matches Ok(v) && c_texts(v@) == encoded(texts(list@)),
            Some(e) => r matches Err(x) && x@ == e,
        },
{
    let mut out: Vec<CText> = Vec::new();
    let mut i: usize = 0;
    let ghost all = texts(list@);
    assert(c_texts(out@) =~= encoded(all.take(0)));
    while i < list.len()
        invariant
            i <= list@.len(),
            all == texts(list@),
            nul_error(all.take(i as int)) is None,
            c_texts(out@) == encoded(all.take(i as int)),
        decreases list@.len() - i,
    {
        assert(all.take(i + 1).drop_last() =~= all.take(i as int));
        assert(all.take(i + 1).last() == list@[i as int]@);
        match CText::new(list[i].as_str()) {
            Ok(c) => {
                let ghost before = out@;
                out.push(c);
                assert(c_texts(out@) =~= c_texts(before).push(c@));
                assert(encoded(all.take(i + 1)) =~= encoded(all.take(i as int)).push(c@));
            },
            Err(e) => {
                proof {
                    lemma_nul_error_in_prefix(all, i + 1);
                }
                return Err(RuntimeError::CStringError(e));
            },
        }
        i = i + 1;
    }
    assert(all.take(i as int) =~= all);
    Ok(out)
}

/// What a container is to run: the program with its arguments, its
/// environment and its working directory, whether it gets a terminal, and its
/// limits.
#[derive(Debug)]
pub struct Launch {
    pub args: Vec<CText>,
    pub env: Vec<CText>,
    pub cwd: String,
    pub terminal: bool,
    pub linux: Option<LinuxConfig>,
}

/// The mathematical value of a [`Launch`].
pub struct LaunchView {
    pub args: Seq<Seq<u8>>,
    pub env: Seq<Seq<u8>>,
    pub cwd: Seq<char>,
    pub terminal: bool,
    pub linux: Option<LinuxConfig>,
}

impl View for Launch {
    type V = LaunchView;

    open spec fn view(&self) -> LaunchView {
        LaunchView {
            args: c_texts(self.args@),
            env: c_texts(self.env@),
            cwd: self.cwd@,
            terminal: self.terminal,
            linux: self.linux,
        }
    }
}

/// A list, which is empty where there is none.
pub open spec fn or_none(list: Option<Seq<Seq<char>>>) -> Seq<Seq<char>> {
    match list {
        Some(l) => l,
        None => Seq::empty(),
    }
}

/// The working directory: the configured one, or the root where none is
/// usable.
pub open spec fn working_dir(cwd: Option<Seq<char>>) -> Seq<char> {
    match cwd {
        Some(c) => if c.len() == 0 {
            "/"@
        } else {
            c
        },
        None => "/"@,
    }
}

/// What a configuration asks to be launched. There must be a process section;
/// arguments are looked at before variables.
pub open spec fn launch_of(config: OciConfigView) -> Result<LaunchView, RuntimeErrorView> {
    match config.process {
        None => Err(RuntimeErrorView::InvalidState("config.json 缺少 process 配置"@)),
        Some(p) => match nul_error(or_none(p.args)) {
            Some(e) => Err(e),
            None => match nul_error(or_none(p.env)) {
                Some(e) => Err(e),
                None => Ok(
                    LaunchView {
                        args: encoded(or_none(p.args)),
                        env: encoded(or_none(p.env)),
                        cwd: working_dir(p.cwd),
                        terminal: p.terminal == Some(true),
                        linux: config.linux,
                    },
                ),
            },
        },
    }
}

fn opt_c_texts(list: &Option<Vec<String>>) -> (r: Result<Vec<CText>, RuntimeError>)
    ensures
        match nul_error(or_none(opt_texts(*list))) {
            None => r matches Ok(v) && c_texts(v@) == encoded(or_none(opt_texts(*list))),
            Some(e) => r matches Err(x) && x@ == e,
        },
{
    match list {
        Some(v) => to_c_texts(v),
        None => {
            let out: Vec<CText> = Vec::new();
            assert(c_texts(out@) =~= encoded(Seq::empty()));
            Ok(out)
        },
    }
}

impl Launch {
    /// Draws from a configuration what is to be launched, as [`launch_of`]
    /// says.
    pub fn new(config: &OciConfig) -> (r: Result<Launch, RuntimeError>)
        ensures
            match launch_of(config@) {
                Ok(l) => r matches Ok(x) && x@ == l,
                Err(e) => r matches Err(x) && x@ == e,
            },
    {
        let process = match &config.process {
            Some(p) => p,
            None => {
                return Err(
                    RuntimeError::InvalidState("config.json 缺少 process 配置".to_string()),
                );
            },
        };
        let args = match opt_c_texts(&process.args) {
            Ok(v) => v,
            Err(e) => return Err(e),
        };
        let env = match opt_c_texts(&process.env) {
            Ok(v) => v,
            Err(e) => return Err(e),
        };
        let cwd = match &process.cwd {
            Some(c) => if c.as_str().is_empty() {
                "/".to_string()
            } else {
                c.clone()
            },
            None => "/".to_string(),
        };
        let terminal = match process.terminal {
            Some(t) => t,
            None => false,
        };
        Ok(Launch { args, env, cwd, terminal, linux: config.linux })
    }
}

/// A configuration holds the fields that were read of it, each in its place,
/// and a section where one was read.
pub proof fn law_config_holds_its_fields(
    process: Option<(Option<bool>, Option<Vec<String>>, Option<Vec<String>>, Option<String>)>,
    linux: Option<
        Option<
            (
                Option<(Option<i64>, Option<i64>)>,
                Option<(Option<i64>, Option<u64>, Option<u64>)>,
                Option<i64>,
            ),
        >,
    >,
)
    ensures
        ({
            let config = config_of((process, linux));
            &&& config.process is Some <==> process is Some
            &&& process matches Some(p) ==> {
                &&& config.process->0.terminal == p.0
                &&& texts_are(config.process->0.args, p.1)
                &&& texts_are(config.process->0.env, p.2)
                &&& config.process->0.cwd is Some <==> p.3 is Some
                &&& p.3 matches Some(c) ==> config.process->0.cwd == Some(c@)
            }
            &&& config.linux is Some <==> linux is Some
            &&& linux matches Some(l) ==> (config.linux->0.resources is Some <==> l is Some)
            &&& linux matches Some(l) ==> l matches Some(r) ==> {
                let resources = config.linux->0.resources->0;
                &&& resources.memory is Some <==> r.0 is Some
                &&& r.0 matches Some(m) ==> resources.memory->0.limit == m.0
                    && resources.memory->0.reservation == m.1
                &&& resources.cpu is Some <==> r.1 is Some
                &&& r.1 matches Some(c) ==> resources.cpu->0.quota == c.0
                    && resources.cpu->0.period == c.1 && resources.cpu->0.shares == c.2
                &&& resources.pids is Some <==> r.2 is Some
                &&& r.2 matches Some(n) ==> resources.pids->0.limit == n
            }
        }),
{
}

/// A list of texts has the characters of a list of strings, one by one, and is
/// there where that list is.
pub open spec fn texts_are(list: Option<Seq<Seq<char>>>, strings: Option<Vec<String>>) -> bool {
    match strings {
        Some(v) => {
            &&& list is Some
            &&& list->0.len() == v@.len()
            &&& forall|i: int| 0 <= i < v@.len() ==> #[trigger] list->0[i] == v@[i]@
        },
        None => list is None,
    }
}

/// What is said of a configuration is said of its fields, each taken whole.
pub proof fn law_configuration_is_seen_whole(config: OciConfig, process: ProcessConfig)
    ensures
        process@.terminal == process.terminal,
        texts_are(process@.args, process.args),
        texts_are(process@.env, process.env),
        process@.cwd is Some <==> process.cwd is Some,
        process.cwd matches Some(c) ==> process@.cwd == Some(c@),
        config@.process is Some <==> config.process is Some,
        config.process matches Some(p) ==> config@.process == Some(p@),
        config@.linux == config.linux,
{
}

/// What is said of a launch is said of its fields, each taken whole.
pub proof fn law_launch_is_seen_whole(launch: Launch)
    ensures
        launch@.args.len() == launch.args@.len(),
        forall|i: int|
            0 <= i < launch.args@.len() ==> #[trigger] launch@.args[i] == launch.args@[i]@,
        launch@.env.len() == launch.env@.len(),
        forall|i: int| 0 <= i < launch.env@.len() ==> #[trigger] launch@.env[i] == launch.env@[i]@,
        launch@.cwd == launch.cwd@,
        launch@.terminal == launch.terminal,
        launch@.linux == launch.linux,
{
}

/// The bytes of a text hold no zero.
pub open spec fn zero_free(text: Seq<char>) -> bool {
    forall|j: int| 0 <= j < encode_utf8(text).len() ==> encode_utf8(text)[j] != 0
}

/// No text of a list, where there is one, holds a zero byte.
pub open spec fn all_zero_free(list: Option<Seq<Seq<char>>>) -> bool {
    list matches Some(l) ==> forall|i: int| 0 <= i < l.len() ==> zero_free(#[trigger] l[i])
}

/// A list of byte strings holds the bytes of each text of a list, in order,
/// and nothing where there is no list.
pub open spec fn bytes_are(bytes: Seq<Seq<u8>>, list: Option<Seq<Seq<char>>>) -> bool {
    match list {
        Some(l) => bytes.len() == l.len() && forall|i: int|
            0 <= i < l.len() ==> #[trigger] bytes[i] == encode_utf8(l[i]),
        None => bytes.len() == 0,
    }
}

/// A list without zero bytes is accepted, and no other.
pub proof fn law_lists_without_zero_bytes_are_accepted(list: Seq<Seq<char>>)
    ensures
        nul_error(list) is None <==> forall|i: int|
            0 <= i < list.len() ==> zero_free(#[trigger] list[i]),
    decreases list.len(),
{
    if list.len() > 0 {
        let init = list.drop_last();
        law_lists_without_zero_bytes_are_accepted(init);
        law_first_nul_finds(encode_utf8(list.last()));
        assert(list.last() == list[list.len() - 1]);
        assert(forall|i: int| 0 <= i < init.len() ==> init[i] == #[trigger] list[i]);
        if first_nul(encode_utf8(list.last())) is Some {
            assert(!zero_free(list[list.len() - 1]));
        }
        if nul_error(init) is Some {
            let i = choose|i: int| 0 <= i < init.len() && !zero_free(#[trigger] init[i]);
            assert(!zero_free(list[i]));
        }
    }
}

/// The error for a list is about the first zero byte of the first text that
/// holds one, and holds that text's bytes.
pub proof fn law_first_zero_byte_is_reported(list: Seq<Seq<char>>, i: int, k: int)
    requires
        0 <= i < list.len(),
        forall|h: int| 0 <= h < i ==> zero_free(#[trigger] list[h]),
        0 <= k < encode_utf8(list[i]).len(),
        encode_utf8(list[i])[k] == 0,
        forall|j: int| 0 <= j < k ==> encode_utf8(list[i])[j] != 0,
    ensures
        nul_error(list) == Some(
            RuntimeErrorView::CStringError { position: k, bytes: encode_utf8(list[i]) },
        ),
{
    law_lists_without_zero_bytes_are_accepted(list.take(i));
    assert(list.take(i + 1).drop_last() =~= list.take(i));
    assert(list.take(i + 1).last() == list[i]);
    law_first_nul_finds(encode_utf8(list[i]));
    let found = first_nul(encode_utf8(list[i]));
    assert(found is Some);
    assert(found->0 == k);
    lemma_nul_error_in_prefix(list, i + 1);
}

/// A launch takes every argument and every variable of the configuration, in
/// order and byte for byte; its working directory is the configured one, or
/// the root where none is; it has a terminal where one is asked for; and its
/// limits are the configured ones.
pub proof fn law_launch_takes_what_is_configured(config: OciConfigView, launch: LaunchView)
    requires
        launch_of(config) == Ok::<LaunchView, RuntimeErrorView>(launch),
    ensures
        config.process is Some,
        bytes_are(launch.args, config.process->0.args),
        bytes_are(launch.env, config.process->0.env),
        config.process->0.cwd matches Some(c) ==> c.len() > 0 ==> launch.cwd == c,
        config.process->0.cwd matches Some(c) ==> c.len() == 0 ==> launch.cwd == seq!['/'],
        config.process->0.cwd is None ==> launch.cwd == seq!['/'],
        launch.terminal <==> config.process->0.terminal == Some(true),
        launch.linux == config.linux,
{
    reveal_strlit("/");
    assert("/"@ =~= seq!['/']);
}

/// A configuration can be launched where it has a process section and no
/// argument and no variable holds a zero byte, and nowhere else.
pub proof fn law_what_can_be_launched(config: OciConfigView)
    ensures
        launch_of(config) is Ok <==> config.process is Some && all_zero_free(
            config.process->0.args,
        ) && all_zero_free(config.process->0.env),
        config.process is None ==> launch_of(config) == Err::<LaunchView, RuntimeErrorView>(
            RuntimeErrorView::InvalidState("config.json 缺少 process 配置"@),
        ),
{
    if config.process is Some {
        law_lists_without_zero_bytes_are_accepted(or_none(config.process->0.args));
        law_lists_without_zero_bytes_are_accepted(or_none(config.process->0.env));
    }
}

/// The first argument that holds a zero byte is reported, and where none does,
/// the first variable.
pub proof fn law_launch_reports_the_first_zero_byte(
    config: OciConfigView,
    list: Seq<Seq<char>>,
    i: int,
    k: int,
)
    requires
        config.process is Some,
        config.process->0.args == Some(list) || (all_zero_free(config.process->0.args)
            && config.process->0.env == Some(list)),
        0 <= i < list.len(),
        forall|h: int| 0 <= h < i ==> zero_free(#[trigger] list[h]),
        0 <= k < encode_utf8(list[i]).len(),
        encode_utf8(list[i])[k] == 0,
        forall|j: int| 0 <= j < k ==> encode_utf8(list[i])[j] != 0,
    ensures
        launch_of(config) == Err::<LaunchView, RuntimeErrorView>(
            RuntimeErrorView::CStringError { position: k, bytes: encode_utf8(list[i]) },
        ),
{
    law_first_zero_byte_is_reported(list, i, k);
    if config.process->0.args != Some(list) {
        law_lists_without_zero_bytes_are_accepted(or_none(config.process->0.args));
    }
}

} // verus!
