use soagents::commands::{cmd_get_tab_server_url, cmd_start_global_sidecar};
use soagents::sidecar::{
    spawn_error, termination_step, worker_cwd, LaunchPlan, ProcessStatus, ScriptLocation,
    SidecarInstance, SidecarManager, StartStep, StopAction, BASE_PORT, GLOBAL_SIDECAR_ID,
    PORT_VARIABLE, SIDECAR_MARKER, STOP_INTERVAL_MS, STOP_TIMEOUT_SECS,
};

fn bundled() -> ScriptLocation {
    ScriptLocation {
        extension: Some("js".to_string()),
        parent: Some("/app/Resources".to_string()),
        project_root: Some("/".to_string()),
    }
}

fn development() -> ScriptLocation {
    ScriptLocation {
        extension: Some("ts".to_string()),
        parent: Some("/work/proj/src/server".to_string()),
        project_root: Some("/work/proj".to_string()),
    }
}

fn start(manager: &mut SidecarManager<u32>, tab: &str, process: u32, healthy: bool) -> u16 {
    let status = match manager.process_mut(tab) {
        Some(_) => ProcessStatus::Running,
        None => ProcessStatus::Unknown,
    };
    match manager.start_sidecar(tab, status, &bundled()) {
        StartStep::Reuse { port } => port,
        StartStep::Launch { plan, .. } => {
            manager.finish_start(tab.to_string(), None, plan.port, process, healthy).0
        }
    }
}

#[test]
fn constants_of_the_worker_contract() {
    assert_eq!(BASE_PORT, 32415);
    assert_eq!(GLOBAL_SIDECAR_ID, "__global__");
    assert_eq!(SIDECAR_MARKER, "--soagents-sidecar");
    assert_eq!(PORT_VARIABLE, "PORT");
    assert_eq!(STOP_TIMEOUT_SECS, 5);
    assert_eq!(STOP_INTERVAL_MS, 100);
}

#[test]
fn first_start_gets_the_base_port() {
    let mut manager: SidecarManager<u32> = SidecarManager::new();
    assert_eq!(manager.len(), 0);
    let step = manager.start_sidecar("tab1", ProcessStatus::Unknown, &bundled());
    assert_eq!(
        step,
        StartStep::Launch {
            plan: LaunchPlan {
                port: 32415,
                port_text: "32415".to_string(),
                cwd: "/app/Resources".to_string(),
            },
            stale: None,
        }
    );
    assert_eq!(manager.get_port("tab1"), None);
    let (port, displaced) = manager.finish_start("tab1".to_string(), None, 32415, 7, true);
    assert_eq!(port, 32415);
    assert_eq!(displaced, None);
    assert_eq!(manager.get_port("tab1"), Some(32415));
    assert_eq!(manager.len(), 1);
}

#[test]
fn second_start_returns_the_same_port() {
    let mut manager: SidecarManager<u32> = SidecarManager::new();
    let first = start(&mut manager, "tab1", 7, true);
    let step = manager.start_sidecar("tab1", ProcessStatus::Running, &bundled());
    assert_eq!(step, StartStep::Reuse { port: first });
    assert_eq!(first, 32415);
    assert_eq!(manager.len(), 1);
    assert_eq!(manager.get_instance("tab1").map(|i| i.process), Some(7));
    assert_eq!(manager.next_port(), 32416);
}

#[test]
fn exited_worker_is_replaced_on_a_new_port() {
    let mut manager: SidecarManager<u32> = SidecarManager::new();
    let first = start(&mut manager, "tab1", 7, true);
    let step = manager.start_sidecar("tab1", ProcessStatus::Exited, &bundled());
    match step {
        StartStep::Launch { plan, stale } => {
            assert_eq!(plan.port, 32416);
            assert_eq!(plan.port_text, "32416");
            assert!(plan.port != first);
            assert_eq!(
                stale,
                Some(SidecarInstance { process: 7, port: 32415, agent_dir: None, healthy: true })
            );
            assert_eq!(manager.get_port("tab1"), None);
            manager.finish_start("tab1".to_string(), None, plan.port, 8, true);
        }
        StartStep::Reuse { .. } => panic!("an exited worker is not reused"),
    }
    assert_eq!(manager.get_port("tab1"), Some(32416));
    assert_eq!(manager.len(), 1);
}

#[test]
fn worker_that_cannot_be_looked_at_is_replaced() {
    let mut manager: SidecarManager<u32> = SidecarManager::new();
    start(&mut manager, "tab1", 7, true);
    let step = manager.start_sidecar("tab1", ProcessStatus::Unknown, &bundled());
    assert!(matches!(step, StartStep::Launch { .. }));
}

#[test]
fn running_status_without_a_worker_launches() {
    let mut manager: SidecarManager<u32> = SidecarManager::new();
    let step = manager.start_sidecar("tab1", ProcessStatus::Running, &bundled());
    assert!(matches!(step, StartStep::Launch { .. }));
}

#[test]
fn unready_worker_is_recorded_unhealthy() {
    let mut manager: SidecarManager<u32> = SidecarManager::new();
    let port = start(&mut manager, "tab1", 7, false);
    assert_eq!(port, 32415);
    assert_eq!(
        manager.get_instance("tab1"),
        Some(&SidecarInstance { process: 7, port: 32415, agent_dir: None, healthy: false })
    );
}

#[test]
fn agent_dir_is_recorded() {
    let mut manager: SidecarManager<u32> = SidecarManager::new();
    manager.finish_start("t".to_string(), Some("/home/me/ws".to_string()), 40000, 1, true);
    assert_eq!(
        manager.get_instance("t").and_then(|i| i.agent_dir.clone()),
        Some("/home/me/ws".to_string())
    );
}

#[test]
fn allocated_ports_increase() {
    let mut manager: SidecarManager<u32> = SidecarManager::new();
    let mut last = manager.next_port();
    assert_eq!(last, 32415);
    for _ in 0..1000 {
        let port = manager.next_port();
        assert!(port > last);
        assert_eq!(port, last + 1);
        last = port;
    }
}

#[test]
fn allocator_wraps_after_the_last_port() {
    let mut manager: SidecarManager<u32> = SidecarManager::new();
    let mut port = manager.next_port();
    while port != u16::MAX {
        port = manager.next_port();
    }
    assert_eq!(manager.next_port(), 0);
    assert_eq!(manager.next_port(), 1);
}

#[test]
fn sessions_get_distinct_ports() {
    let mut manager: SidecarManager<u32> = SidecarManager::new();
    let a = start(&mut manager, "tab1", 1, true);
    let b = start(&mut manager, "tab2", 2, true);
    let c = start(&mut manager, "tab3", 3, true);
    assert_eq!((a, b, c), (32415, 32416, 32417));
    assert_eq!(manager.get_port("tab2"), Some(32416));
    assert_eq!(manager.get_port("tab4"), None);
}

#[test]
fn stop_takes_the_worker_out() {
    let mut manager: SidecarManager<u32> = SidecarManager::new();
    start(&mut manager, "tab1", 1, true);
    start(&mut manager, "tab2", 2, true);
    let stopped = manager.stop_sidecar("tab1");
    assert_eq!(
        stopped,
        Some(SidecarInstance { process: 1, port: 32415, agent_dir: None, healthy: true })
    );
    assert_eq!(manager.get_port("tab1"), None);
    assert_eq!(manager.get_port("tab2"), Some(32416));
    assert_eq!(manager.len(), 1);
}

#[test]
fn stop_on_unknown_session_is_a_no_op() {
    let mut manager: SidecarManager<u32> = SidecarManager::new();
    assert_eq!(manager.stop_sidecar("nobody"), None);
    start(&mut manager, "tab1", 1, true);
    assert_eq!(manager.stop_sidecar("tab2"), None);
    assert_eq!(manager.len(), 1);
    assert_eq!(manager.get_port("tab1"), Some(32415));
    assert_eq!(manager.next_port(), 32416);
}

#[test]
fn port_is_not_reused_after_a_stop() {
    let mut manager: SidecarManager<u32> = SidecarManager::new();
    let first = start(&mut manager, "tab1", 1, true);
    manager.stop_sidecar("tab1");
    let second = start(&mut manager, "tab1", 2, true);
    assert_eq!(first, 32415);
    assert_eq!(second, 32416);
}

#[test]
fn stop_all_empties_the_registry() {
    let mut manager: SidecarManager<u32> = SidecarManager::new();
    start(&mut manager, "tab1", 1, true);
    start(&mut manager, "tab2", 2, false);
    start(&mut manager, "tab3", 3, true);
    let mut stopped = manager.stop_all();
    stopped.sort_by(|a, b| a.0.cmp(&b.0));
    let ids: Vec<&str> = stopped.iter().map(|e| e.0.as_str()).collect();
    assert_eq!(ids, vec!["tab1", "tab2", "tab3"]);
    let processes: Vec<u32> = stopped.iter().map(|e| e.1.process).collect();
    assert_eq!(processes, vec![1, 2, 3]);
    assert_eq!(manager.len(), 0);
    assert_eq!(manager.get_port("tab1"), None);
    assert_eq!(manager.get_port("tab3"), None);
    assert!(manager.stop_all().is_empty());
    assert_eq!(manager.next_port(), 32418);
}

#[test]
fn process_handle_can_be_changed_in_place() {
    let mut manager: SidecarManager<Vec<u8>> = SidecarManager::new();
    manager.finish_start("tab1".to_string(), None, 40000, vec![1], true);
    assert!(manager.process_mut("tab2").is_none());
    match manager.process_mut("tab1") {
        Some(p) => p.push(2),
        None => panic!("the session has a worker"),
    }
    assert_eq!(manager.get_instance("tab1").map(|i| i.process.clone()), Some(vec![1, 2]));
    assert_eq!(manager.get_port("tab1"), Some(40000));
}

#[test]
fn bundled_script_runs_beside_itself() {
    assert_eq!(worker_cwd(&bundled()), "/app/Resources");
}

#[test]
fn development_script_runs_at_the_project_root() {
    assert_eq!(worker_cwd(&development()), "/work/proj");
    let no_extension = ScriptLocation {
        extension: None,
        parent: Some("/a/b/c".to_string()),
        project_root: Some("/a".to_string()),
    };
    assert_eq!(worker_cwd(&no_extension), "/a");
}

#[test]
fn unknown_directory_falls_back_to_the_current_one() {
    let no_parent =
        ScriptLocation { extension: Some("js".to_string()), parent: None, project_root: None };
    assert_eq!(worker_cwd(&no_parent), ".");
    let shallow = ScriptLocation {
        extension: Some("ts".to_string()),
        parent: Some("/x".to_string()),
        project_root: None,
    };
    assert_eq!(worker_cwd(&shallow), ".");
    let upper = ScriptLocation {
        extension: Some("JS".to_string()),
        parent: Some("/x".to_string()),
        project_root: None,
    };
    assert_eq!(worker_cwd(&upper), ".");
}

#[test]
fn spawn_error_names_the_reason() {
    assert_eq!(spawn_error("No such file"), "Failed to spawn bun process: No such file");
}

#[test]
fn stopped_worker_is_waited_for_then_killed() {
    assert_eq!(
        termination_step(ProcessStatus::Running, 0, 0),
        StopAction::Wait { millis: 100 }
    );
    assert_eq!(
        termination_step(ProcessStatus::Running, 4, 999_999_999),
        StopAction::Wait { millis: 100 }
    );
    assert_eq!(
        termination_step(ProcessStatus::Running, 5, 0),
        StopAction::Wait { millis: 100 }
    );
    assert_eq!(termination_step(ProcessStatus::Running, 5, 1), StopAction::ForceKill);
    assert_eq!(termination_step(ProcessStatus::Running, 6, 0), StopAction::ForceKill);
    assert_eq!(termination_step(ProcessStatus::Exited, 0, 0), StopAction::Finished);
    assert_eq!(termination_step(ProcessStatus::Exited, 9, 0), StopAction::Finished);
    assert_eq!(termination_step(ProcessStatus::Unknown, 0, 0), StopAction::Finished);
}

#[test]
fn server_url_of_a_session() {
    let mut manager: SidecarManager<u32> = SidecarManager::new();
    start(&mut manager, "tab1", 1, true);
    assert_eq!(cmd_get_tab_server_url(&manager, "tab1"), Ok("http://127.0.0.1:32415".to_string()));
    assert_eq!(
        cmd_get_tab_server_url(&manager, "tab9"),
        Err("No sidecar running for tab 'tab9'".to_string())
    );
}

#[test]
fn global_worker_uses_the_reserved_session() {
    let mut manager: SidecarManager<u32> = SidecarManager::new();
    let step = cmd_start_global_sidecar(&mut manager, ProcessStatus::Unknown, &development());
    match step {
        StartStep::Launch { plan, stale } => {
            assert_eq!(plan.port, 32415);
            assert_eq!(plan.cwd, "/work/proj");
            assert_eq!(stale, None);
            manager.finish_start(GLOBAL_SIDECAR_ID.to_string(), None, plan.port, 5, true);
        }
        StartStep::Reuse { .. } => panic!("nothing to reuse"),
    }
    assert_eq!(manager.get_port("__global__"), Some(32415));
    assert_eq!(
        cmd_start_global_sidecar(&mut manager, ProcessStatus::Running, &development()),
        StartStep::Reuse { port: 32415 }
    );
}
