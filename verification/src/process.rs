//! Process-per-agent isolation: the resource caps a host child applies, which
//! agent it hosts, where an agent runs, the recipe to (re)build a managed
//! agent, and its restart budget. Spawning processes and loading bundles
//! happen at the edge.
use vstd::prelude::*;
use crate::fmt::{decimal, push_decimal};

verus! {

#[verifier::external_type_specification]
#[verifier::external_body]
pub struct ExPathBuf(std::path::PathBuf);

/// Resource caps applied by a host child before it loads the agent; `0`
/// leaves a limit unchanged.
#[derive(Clone, Copy, Debug)]
pub struct Limits {
    /// Address-space cap in bytes.
    pub mem_bytes: u64,
    /// CPU-seconds cap.
    pub cpu_secs: u64,
}

impl Default for Limits {
    /// 256 MiB of address space and 30 CPU-seconds.
    fn default() -> (l: Self)
        ensures
            l.mem_bytes == 256 * 1024 * 1024,
            l.cpu_secs == 30,
    {
        Limits { mem_bytes: 256 * 1024 * 1024, cpu_secs: 30 }
    }
}

/// Which agent a host child runs.
#[derive(Debug)]
pub enum AgentSpec {
    /// A wasm agent bundle in a file.
    Wasm(std::path::PathBuf),
    /// A native agent compiled into the host, by name.
    Native(String),
}

/// Where an agent runs.
#[derive(Clone, Copy, Debug)]
pub enum Profile {
    /// In the node's own process.
    InProcess,
    /// In its own resource-capped child process.
    Hosted(Limits),
}

/// Everything needed to (re)build a managed agent.
#[derive(Debug)]
pub struct Recipe {
    pub spec: AgentSpec,
    pub profile: Profile,
    /// The host binary, used only by `Hosted`.
    pub host_bin: std::path::PathBuf,
    pub timeout: std::time::Duration,
    /// The agent's own UNL and data seed, replayed after every (re)start.
    pub seed_unl: Vec<u8>,
    pub seed_data: Vec<u8>,
    pub max_restarts: u32,
}

/// Whether a (re)started agent is seeded: it has a UNL or a data seed.
pub open spec fn needs_seed(seed_unl: Seq<u8>, seed_data: Seq<u8>) -> bool {
    seed_unl.len() != 0 || seed_data.len() != 0
}

impl Recipe {
    /// Whether a (re)started agent gets its seed replayed.
    pub fn seeds(&self) -> (r: bool)
        ensures
            r == needs_seed(self.seed_unl@, self.seed_data@),
    {
        self.seed_unl.len() != 0 || self.seed_data.len() != 0
    }
}

/// The restart budget: after `restarts` restarts, another is allowed while
/// fewer than `max_restarts` were made, and the count goes up by one;
/// otherwise the error names the budget.
pub fn next_restart(restarts: u32, max_restarts: u32) -> (r: Result<u32, String>)
    ensures
        restarts < max_restarts ==> r == Ok::<u32, String>((restarts + 1) as u32),
        restarts >= max_restarts ==> (r matches Err(m)
            && m@ == "agent exceeded max restarts ("@ + decimal(max_restarts as nat) + ")"@),
{
    if restarts >= max_restarts {
        let mut m = String::new();
        m.append("agent exceeded max restarts (");
        push_decimal(&mut m, max_restarts as u64);
        m.append(")");
        Err(m)
    } else {
        Ok(restarts + 1)
    }
}

/// The native agents a host has compiled in.
#[derive(Clone, Copy, Debug, PartialEq, Eq, Structural)]
pub enum NativeAgent {
    Echo,
    Boomer,
    Df,
    Ams,
}

/// The native agent a name selects, if any.
pub open spec fn native_spec(name: Seq<char>) -> Option<NativeAgent> {
    if name == "echo"@ {
        Some(NativeAgent::Echo)
    } else if name == "boomer"@ {
        Some(NativeAgent::Boomer)
    } else if name == "df"@ {
        Some(NativeAgent::Df)
    } else if name == "ams"@ {
        Some(NativeAgent::Ams)
    } else {
        None
    }
}

/// The native agent named `name`; `None` for an unknown name.
pub fn native_agent(name: &str) -> (r: Option<NativeAgent>)
    ensures
        r == native_spec(name@),
{
    if crate::text::str_eq(name, "echo") {
        Some(NativeAgent::Echo)
    } else if crate::text::str_eq(name, "boomer") {
        Some(NativeAgent::Boomer)
    } else if crate::text::str_eq(name, "df") {
        Some(NativeAgent::Df)
    } else if crate::text::str_eq(name, "ams") {
        Some(NativeAgent::Ams)
    } else {
        None
    }
}

/// How an agent's runtime is built: a native agent or the spec's wasm bundle
/// in the node's process, or a capped child process.
#[derive(Clone, Copy, Debug)]
pub enum RuntimePlan {
    Native(NativeAgent),
    Wasm,
    Hosted(Limits),
}

/// Decide how to build the runtime for `spec` under `profile`: in-process a
/// native agent must be known (else the error names it) and a wasm bundle
/// is loaded from its file; `Hosted` runs any spec in a child with its
/// limits.
pub fn build_runtime(spec: &AgentSpec, profile: &Profile) -> (r: Result<RuntimePlan, String>)
    ensures
        match (profile, spec) {
            (Profile::Hosted(l), _) => r matches Ok(RuntimePlan::Hosted(m)) && m == l,
            (Profile::InProcess, AgentSpec::Wasm(_)) => r matches Ok(RuntimePlan::Wasm),
            (Profile::InProcess, AgentSpec::Native(name)) => match native_spec(name@) {
                Some(a) => r matches Ok(RuntimePlan::Native(b)) && b == a,
                None => r matches Err(m) && m@ == "unknown native agent: "@ + name@,
            },
        },
{
    match profile {
        Profile::Hosted(l) => Ok(RuntimePlan::Hosted(*l)),
        Profile::InProcess => match spec {
            AgentSpec::Wasm(_) => Ok(RuntimePlan::Wasm),
            AgentSpec::Native(name) => match native_agent(name.as_str()) {
                Some(a) => Ok(RuntimePlan::Native(a)),
                None => Err(crate::text::concat("unknown native agent: ", name.as_str())),
            },
        },
    }
}

} // verus!
