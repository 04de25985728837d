//! Vector-store process supervisor: configuration, launch and stop
//! decisions, the readiness-poll schedule, and the health-cache rule. The
//! probes, container commands and process spawns run outside the library;
//! every decision about them is made here.

use vstd::prelude::*;
use crate::strutil::{spec_digits, u64_to_string};

verus! {

/// Default port of the vector store.
pub const DEFAULT_QDRANT_PORT: u16 = 6333;
/// Readiness polls before startup is declared failed.
pub const WAIT_ATTEMPTS: u32 = 15;
/// Seconds between readiness polls.
pub const WAIT_INTERVAL_SECS: u64 = 2;
/// Seconds a health-probe result stays fresh.
pub const HEALTH_CACHE_SECS: u64 = 30;

/// Supervisor configuration, set once at startup and replaced atomically
/// by an explicit reconfiguration.
#[derive(Debug, Clone)]
pub struct QdrantConfig {
    pub auto_start: bool,
    pub port: u16,
    pub use_docker: bool,
    pub data_path: Option<String>,
}

impl Default for QdrantConfig {
    /// Auto-start through a container on the default port.
    fn default() -> (r: Self)
        ensures
            r.auto_start == true,
            r.port == DEFAULT_QDRANT_PORT,
            r.use_docker == true,
            r.data_path is None,
    {
        QdrantConfig { auto_start: true, port: DEFAULT_QDRANT_PORT, use_docker: true, data_path: None }
    }
}

impl QdrantConfig {
    /// A configuration from a settings command; a missing port means the
    /// default.
    pub fn with(auto_start: bool, use_docker: bool, port: Option<u16>) -> (r: Self)
        ensures
            r.auto_start == auto_start,
            r.use_docker == use_docker,
            r.port == (match port {
                Some(p) => p,
                None => DEFAULT_QDRANT_PORT,
            }),
            r.data_path is None,
    {
        QdrantConfig {
            auto_start,
            port: match port {
                Some(p) => p,
                None => DEFAULT_QDRANT_PORT,
            },
            use_docker: use_docker,
            data_path: None,
        }
    }
}

/// Live status of the supervised process.
#[derive(Debug, Clone)]
pub struct QdrantStatus {
    pub running: bool,
    pub port: u16,
    pub method: String,
    pub auto_start: bool,
}

/// The supervisor's own state; the handle to a spawned process lives with
/// the caller that spawned it.
pub struct QdrantService {
    pub config: QdrantConfig,
}

impl QdrantService {
    /// A supervisor over the given configuration.
    pub fn new(config: QdrantConfig) -> (r: Self)
        ensures
            r.config == config,
    {
        QdrantService { config }
    }
}

/// What `ensure_running` must do next.
#[derive(Debug, Clone, Copy, PartialEq, Eq, Structural)]
pub enum LaunchPlan {
    /// Nothing to do: auto-start is off or the store already answers.
    NoAction,
    /// Start the container.
    Docker,
    /// Start the locally installed binary.
    Binary,
    /// No way to start: fail with a descriptive, non-retryable error.
    Unavailable,
}

/// The launch decision: no-op without auto-start or when already running;
/// the container when configured and available; otherwise the local
/// binary; otherwise failure.
pub open spec fn spec_launch_plan(
    config: QdrantConfig,
    already_running: bool,
    docker_available: bool,
    binary_available: bool,
) -> LaunchPlan {
    if !config.auto_start {
        LaunchPlan::NoAction
    } else if already_running {
        LaunchPlan::NoAction
    } else if config.use_docker && docker_available {
        LaunchPlan::Docker
    } else if binary_available {
        LaunchPlan::Binary
    } else {
        LaunchPlan::Unavailable
    }
}

/// Decide how to make the store reachable, given the probe results.
pub fn launch_plan(
    config: &QdrantConfig,
    already_running: bool,
    docker_available: bool,
    binary_available: bool,
) -> (r: LaunchPlan)
    ensures
        r == spec_launch_plan(*config, already_running, docker_available, binary_available),
{
    if !config.auto_start {
        LaunchPlan::NoAction
    } else if already_running {
        LaunchPlan::NoAction
    } else if config.use_docker && docker_available {
        LaunchPlan::Docker
    } else if binary_available {
        LaunchPlan::Binary
    } else {
        LaunchPlan::Unavailable
    }
}

/// The error text when neither launch method is available.
pub fn unavailable_message() -> (r: &'static str)
    ensures
        r@ == "Qdrant binary not found. Please install Qdrant or enable Docker mode. See: https://qdrant.tech/documentation/quick_start/"@,
{
    "Qdrant binary not found. Please install Qdrant or enable Docker mode. See: https://qdrant.tech/documentation/quick_start/"
}

/// The store's health endpoint for a port.
pub fn health_url(port: u16) -> (r: String)
    ensures
        r@ == "http://127.0.0.1:"@ + spec_digits(port as nat),
{
    let mut out = String::from_str("http://127.0.0.1:");
    let digits = u64_to_string(port as u64);
    out.append(digits.as_str());
    out
}

/// The container name the supervisor manages.
pub fn container_name() -> (r: &'static str)
    ensures
        r@ == "ollama-qdrant"@,
{
    "ollama-qdrant"
}

/// The arguments of the container-run command: detached, restarted unless
/// stopped, the port mapped, the data path mounted when one is set.
pub fn docker_run_args(port: u16, data_path: Option<&str>) -> (r: Vec<String>)
    ensures
        r.deep_view() == seq![
            "run"@,
            "--name"@,
            "ollama-qdrant"@,
            "--detach"@,
            "--restart"@,
            "unless-stopped"@,
            "-p"@,
            spec_digits(port as nat) + ":6333"@,
        ] + (match data_path {
            Some(d) => seq!["-v"@, d@ + ":/qdrant/storage"@],
            None => Seq::<Seq<char>>::empty(),
        }) + seq!["qdrant/qdrant"@],
{
    let mut out: Vec<String> = Vec::new();
    out.push(String::from_str("run"));
    out.push(String::from_str("--name"));
    out.push(String::from_str("ollama-qdrant"));
    out.push(String::from_str("--detach"));
    out.push(String::from_str("--restart"));
    out.push(String::from_str("unless-stopped"));
    out.push(String::from_str("-p"));
    let mut mapping = u64_to_string(port as u64);
    mapping.append(":6333");
    out.push(mapping);
    match data_path {
        Some(d) => {
            out.push(String::from_str("-v"));
            let mut vol = d.to_owned();
            vol.append(":/qdrant/storage");
            out.push(vol);
        },
        None => {},
    }
    out.push(String::from_str("qdrant/qdrant"));
    proof {
        assert(out.deep_view() =~~= seq![
            "run"@,
            "--name"@,
            "ollama-qdrant"@,
            "--detach"@,
            "--restart"@,
            "unless-stopped"@,
            "-p"@,
            spec_digits(port as nat) + ":6333"@,
        ] + (match data_path {
            Some(d) => seq!["-v"@, d@ + ":/qdrant/storage"@],
            None => Seq::<Seq<char>>::empty(),
        }) + seq!["qdrant/qdrant"@]);
    }
    out
}

/// The arguments that stop the managed container.
pub fn docker_stop_args() -> (r: Vec<String>)
    ensures
        r.deep_view() == seq!["stop"@, "ollama-qdrant"@],
{
    let mut out: Vec<String> = Vec::new();
    out.push(String::from_str("stop"));
    out.push(String::from_str("ollama-qdrant"));
    proof {
        assert(out.deep_view() =~~= seq!["stop"@, "ollama-qdrant"@]);
    }
    out
}

/// The arguments that remove the managed container.
pub fn docker_rm_args() -> (r: Vec<String>)
    ensures
        r.deep_view() == seq!["rm"@, "ollama-qdrant"@],
{
    let mut out: Vec<String> = Vec::new();
    out.push(String::from_str("rm"));
    out.push(String::from_str("ollama-qdrant"));
    proof {
        assert(out.deep_view() =~~= seq!["rm"@, "ollama-qdrant"@]);
    }
    out
}

/// One environment variable for the binary launch.
#[derive(Debug, Clone)]
pub struct EnvVar {
    pub key: String,
    pub value: String,
}

/// Environment for the locally installed binary: the port when it is not
/// the default, the storage path when one is set.
pub fn binary_env(port: u16, data_path: Option<&str>) -> (r: Vec<EnvVar>)
    ensures
        r@.len() == (if port != DEFAULT_QDRANT_PORT {
            1int
        } else {
            0
        }) + (if data_path is Some {
            1int
        } else {
            0
        }),
        port != DEFAULT_QDRANT_PORT ==> r@.index(0).key@ == "QDRANT__SERVICE__HTTP_PORT"@
            && r@.index(0).value@ == spec_digits(port as nat),
        data_path is Some ==> r@.last().key@ == "QDRANT__STORAGE__STORAGE_PATH"@
            && r@.last().value@ == data_path.unwrap()@,
{
    let mut out: Vec<EnvVar> = Vec::new();
    if port != DEFAULT_QDRANT_PORT {
        out.push(
            EnvVar {
                key: String::from_str("QDRANT__SERVICE__HTTP_PORT"),
                value: u64_to_string(port as u64),
            },
        );
    }
    match data_path {
        Some(d) => {
            out.push(
                EnvVar { key: String::from_str("QDRANT__STORAGE__STORAGE_PATH"), value: d.to_owned() },
            );
        },
        None => {},
    }
    out
}

/// One step of the readiness poll.
#[derive(Debug, Clone, Copy, PartialEq, Eq, Structural)]
pub enum WaitStep {
    /// The store answered: startup succeeded.
    Ready,
    /// Not answering yet: sleep one interval and probe again.
    Retry,
    /// The attempt budget is spent: startup failed.
    GiveUp,
}

/// Decide after the `attempt`-th probe (counting from one) whether the
/// store is ready, worth another poll, or has failed to start.
pub fn wait_step(attempt: u32, running: bool) -> (r: WaitStep)
    ensures
        running ==> r == WaitStep::Ready,
        !running && attempt < WAIT_ATTEMPTS ==> r == WaitStep::Retry,
        !running && attempt >= WAIT_ATTEMPTS ==> r == WaitStep::GiveUp,
{
    if running {
        WaitStep::Ready
    } else if attempt < WAIT_ATTEMPTS {
        WaitStep::Retry
    } else {
        WaitStep::GiveUp
    }
}

/// The error text when the readiness poll gives up.
pub fn wait_timeout_message() -> (r: &'static str)
    ensures
        r@ == "Qdrant failed to start within 30 seconds"@,
{
    "Qdrant failed to start within 30 seconds"
}

/// What `stop` must do: stop the container when that launch method is in
/// use, kill the spawned process when one is held, nothing otherwise —
/// so stopping twice is harmless.
#[derive(Debug, Clone, Copy, PartialEq, Eq, Structural)]
pub enum StopPlan {
    DockerStop,
    KillProcess,
    Nothing,
}

/// Decide how to stop the store.
pub fn stop_plan(use_docker: bool, has_process: bool) -> (r: StopPlan)
    ensures
        use_docker ==> r == StopPlan::DockerStop,
        !use_docker && has_process ==> r == StopPlan::KillProcess,
        !use_docker && !has_process ==> r == StopPlan::Nothing,
{
    if use_docker {
        StopPlan::DockerStop
    } else if has_process {
        StopPlan::KillProcess
    } else {
        StopPlan::Nothing
    }
}

/// The status label for the configured launch method.
pub fn status_method(use_docker: bool, docker_available: bool, binary_available: bool) -> (r:
    String)
    ensures
        use_docker && docker_available ==> r@ == "Docker"@,
        use_docker && !docker_available ==> r@ == "Docker (unavailable)"@,
        !use_docker && binary_available ==> r@ == "Binary"@,
        !use_docker && !binary_available ==> r@ == "Binary (unavailable)"@,
{
    if use_docker {
        if docker_available {
            String::from_str("Docker")
        } else {
            String::from_str("Docker (unavailable)")
        }
    } else {
        if binary_available {
            String::from_str("Binary")
        } else {
            String::from_str("Binary (unavailable)")
        }
    }
}

/// Assemble the live status from the probe results.
pub fn make_status(
    config: &QdrantConfig,
    running: bool,
    docker_available: bool,
    binary_available: bool,
) -> (r: QdrantStatus)
    ensures
        r.running == running,
        r.port == config.port,
        r.auto_start == config.auto_start,
        config.use_docker && docker_available ==> r.method@ == "Docker"@,
        config.use_docker && !docker_available ==> r.method@ == "Docker (unavailable)"@,
        !config.use_docker && binary_available ==> r.method@ == "Binary"@,
        !config.use_docker && !binary_available ==> r.method@ == "Binary (unavailable)"@,
{
    QdrantStatus {
        running,
        port: config.port,
        method: status_method(config.use_docker, docker_available, binary_available),
        auto_start: config.auto_start,
    }
}

/// Whether a cached health-probe result is still fresh.
pub fn health_cache_fresh(age_secs: u64) -> (r: bool)
    ensures
        r == (age_secs < HEALTH_CACHE_SECS),
{
    age_secs < HEALTH_CACHE_SECS
}

} // verus!
