use agent_runtime::supervisor::{
    binary_env, docker_rm_args, docker_run_args, docker_stop_args, health_cache_fresh, health_url,
    launch_plan, make_status, stop_plan, wait_step, LaunchPlan, QdrantConfig, QdrantService,
    StopPlan, WaitStep, DEFAULT_QDRANT_PORT, WAIT_ATTEMPTS, WAIT_INTERVAL_SECS,
};

#[test]
fn test_qdrant_config_default() {
    let config = QdrantConfig::default();
    assert_eq!(config.auto_start, true);
    assert_eq!(config.port, 6333);
    assert_eq!(config.use_docker, true);
    assert!(config.data_path.is_none());
}

#[test]
fn test_config_with() {
    let c = QdrantConfig::with(false, false, Some(7000));
    assert!(!c.auto_start);
    assert!(!c.use_docker);
    assert_eq!(c.port, 7000);
    let d = QdrantConfig::with(true, true, None);
    assert_eq!(d.port, DEFAULT_QDRANT_PORT);
}

#[test]
fn test_service_holds_config() {
    let service = QdrantService::new(QdrantConfig::default());
    assert_eq!(service.config.port, 6333);
}

#[test]
fn test_launch_plan_decisions() {
    let mut config = QdrantConfig::default();

    // Auto-start off: never launch.
    config.auto_start = false;
    assert_eq!(launch_plan(&config, false, true, true), LaunchPlan::NoAction);

    // Already running: nothing to do.
    config.auto_start = true;
    assert_eq!(launch_plan(&config, true, true, true), LaunchPlan::NoAction);

    // Container configured and available.
    assert_eq!(launch_plan(&config, false, true, false), LaunchPlan::Docker);

    // Container configured but unavailable: fall back to the binary.
    assert_eq!(launch_plan(&config, false, false, true), LaunchPlan::Binary);

    // Neither way works: a descriptive failure.
    assert_eq!(
        launch_plan(&config, false, false, false),
        LaunchPlan::Unavailable
    );

    // Binary mode skips the container even when it is available.
    config.use_docker = false;
    assert_eq!(launch_plan(&config, false, true, true), LaunchPlan::Binary);
}

#[test]
fn test_docker_args() {
    let run = docker_run_args(6333, None);
    assert_eq!(
        run,
        vec![
            "run",
            "--name",
            "ollama-qdrant",
            "--detach",
            "--restart",
            "unless-stopped",
            "-p",
            "6333:6333",
            "qdrant/qdrant"
        ]
    );

    let run = docker_run_args(7000, Some("/data/qdrant"));
    assert_eq!(run[7], "7000:6333");
    assert_eq!(run[8], "-v");
    assert_eq!(run[9], "/data/qdrant:/qdrant/storage");
    assert_eq!(run[10], "qdrant/qdrant");

    assert_eq!(docker_stop_args(), vec!["stop", "ollama-qdrant"]);
    assert_eq!(docker_rm_args(), vec!["rm", "ollama-qdrant"]);
}

#[test]
fn test_binary_env() {
    let env = binary_env(6333, None);
    assert!(env.is_empty());

    let env = binary_env(7000, Some("/data"));
    assert_eq!(env.len(), 2);
    assert_eq!(env[0].key, "QDRANT__SERVICE__HTTP_PORT");
    assert_eq!(env[0].value, "7000");
    assert_eq!(env[1].key, "QDRANT__STORAGE__STORAGE_PATH");
    assert_eq!(env[1].value, "/data");
}

#[test]
fn test_health_url() {
    assert_eq!(health_url(6333), "http://127.0.0.1:6333");
    assert_eq!(health_url(80), "http://127.0.0.1:80");
}

#[test]
fn test_wait_schedule() {
    assert_eq!(WAIT_ATTEMPTS, 15);
    assert_eq!(WAIT_INTERVAL_SECS, 2);
    assert_eq!(wait_step(1, true), WaitStep::Ready);
    assert_eq!(wait_step(1, false), WaitStep::Retry);
    assert_eq!(wait_step(14, false), WaitStep::Retry);
    assert_eq!(wait_step(15, false), WaitStep::GiveUp);
    assert_eq!(wait_step(15, true), WaitStep::Ready);
}

#[test]
fn test_stop_plan_idempotent() {
    assert_eq!(stop_plan(true, false), StopPlan::DockerStop);
    assert_eq!(stop_plan(false, true), StopPlan::KillProcess);
    // After the process handle is gone, stopping again does nothing.
    assert_eq!(stop_plan(false, false), StopPlan::Nothing);
}

#[test]
fn test_status_assembly() {
    let config = QdrantConfig::default();
    let s = make_status(&config, true, true, false);
    assert!(s.running);
    assert_eq!(s.port, 6333);
    assert_eq!(s.method, "Docker");
    assert!(s.auto_start);

    let s = make_status(&config, false, false, false);
    assert_eq!(s.method, "Docker (unavailable)");

    let mut binary_config = QdrantConfig::default();
    binary_config.use_docker = false;
    let s = make_status(&binary_config, false, false, true);
    assert_eq!(s.method, "Binary");
    let s = make_status(&binary_config, false, false, false);
    assert_eq!(s.method, "Binary (unavailable)");
}

#[test]
fn test_health_cache() {
    assert!(health_cache_fresh(0));
    assert!(health_cache_fresh(29));
    assert!(!health_cache_fresh(30));
}
