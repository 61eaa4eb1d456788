use desktop_commander::health::{health_probe_plan, health_verdict, finish_health_check, Probe, ProbeOutcome};
use desktop_commander::monitor::monitor_tick_plan;
use desktop_commander::orchestrator::{
    begin_restart, begin_stop, correlate_and_track, start_all_order, start_plan,
    toggle_auto_restart,
};
use desktop_commander::registry::{Registry, ServiceConfig};
use desktop_commander::status::{get_all_services_status, get_service_status, resolve_status, ProcEntry};
use desktop_commander::tracker::{ProcessInfo, ProcessTracker};
use desktop_commander::types::{Health, RunState, ServiceError};

fn cfg(name: &str, port: Option<u16>, url: Option<&str>, deps: &[&str], auto: bool) -> ServiceConfig {
    ServiceConfig {
        name: name.to_string(),
        command: format!("npm run {}", name),
        working_dir: "/tmp".to_string(),
        port,
        health_check_url: url.map(|u| u.to_string()),
        dependencies: deps.iter().map(|d| d.to_string()).collect(),
        auto_restart: auto,
        log_path: None,
    }
}

fn reg_of(configs: Vec<ServiceConfig>) -> Registry {
    let mut reg = Registry::new();
    for c in configs {
        assert!(reg.register(c));
    }
    reg
}

fn entry(pid: u32, cmd: &str, cpu: u32, mem: u64) -> ProcEntry {
    ProcEntry {
        pid,
        cmd: cmd.to_string(),
        cpu_centi_percent: cpu,
        memory_mb: mem,
    }
}

#[test]
fn standard_registry_has_the_five_services() {
    let reg = Registry::standard();
    assert_eq!(reg.list().len(), 5);
    let web = reg.get("web-app").unwrap();
    assert_eq!(web.port, Some(5173));
    assert_eq!(web.dependencies, vec!["backend".to_string()]);
    assert_eq!(web.health_check_url.as_deref(), Some("http://localhost:5173"));
    assert!(!web.auto_restart);
    let bot = reg.get("trading-bot").unwrap();
    assert_eq!(bot.port, None);
    assert_eq!(bot.health_check_url, None);
    assert_eq!(bot.log_path.as_deref(), Some("C:\\dev\\trading_new.log"));
    assert!(reg.get("nope").is_none());
}

#[test]
fn register_refuses_duplicate_names() {
    let mut reg = Registry::new();
    assert!(reg.register(cfg("a", None, None, &[], false)));
    assert!(!reg.register(cfg("a", Some(1), None, &[], true)));
    assert_eq!(reg.list().len(), 1);
}

#[test]
fn set_auto_restart_flips_only_that_flag() {
    let mut reg = reg_of(vec![cfg("a", Some(1000), None, &[], false), cfg("b", None, None, &[], false)]);
    assert!(reg.set_auto_restart("a", true));
    assert!(reg.get("a").unwrap().auto_restart);
    assert!(!reg.get("b").unwrap().auto_restart);
    assert_eq!(reg.get("a").unwrap().port, Some(1000));
    assert!(!reg.set_auto_restart("missing", true));
}

#[test]
fn tracker_tracks_and_untracks() {
    let mut t = ProcessTracker::new();
    assert!(t.get_process_info("a").is_none());
    t.track_process("a".to_string(), 41);
    let info = t.get_process_info("a").unwrap();
    assert_eq!(info.pid, 41);
    assert_eq!(info.restart_count, 0);
    assert_eq!(info.health_status, Health::Unknown);
    assert!(info.last_health_check.is_none());
    t.remove_process("a");
    assert!(t.get_process_info("a").is_none());
    t.remove_process("a");
    assert!(t.get_process_info("a").is_none());
}

#[test]
fn restart_count_survives_untracking() {
    let mut t = ProcessTracker::new();
    t.track_process("a".to_string(), 10);
    t.remove_process("a");
    t.increment_restart_count("a");
    assert_eq!(t.restart_count_of("a"), 1);
    assert!(t.get_process_info("a").is_none());
    t.track_process("a".to_string(), 11);
    assert_eq!(t.get_process_info("a").unwrap().restart_count, 1);
}

#[test]
fn increment_only_moves_the_counter_of_a_tracked_record() {
    let mut t = ProcessTracker::new();
    t.track_process("api".to_string(), 55);
    t.update_health("api", Health::Healthy);
    let before = t.get_process_info("api").unwrap();
    t.increment_restart_count("api");
    let after = t.get_process_info("api").unwrap();
    assert_eq!(after.pid, before.pid);
    assert_eq!(after.start_time, before.start_time);
    assert_eq!(after.health_status, before.health_status);
    assert_eq!(after.last_health_check, before.last_health_check);
    assert_eq!(after.restart_count, 1);
    assert_eq!(t.restart_count_of("api"), 1);
}

#[test]
fn update_health_is_a_no_op_when_untracked() {
    let mut t = ProcessTracker::new();
    t.update_health("ghostly", Health::Healthy);
    assert!(t.get_process_info("ghostly").is_none());
    t.track_process("a".to_string(), 7);
    t.update_health("a", Health::Healthy);
    let info = t.get_process_info("a").unwrap();
    assert_eq!(info.health_status, Health::Healthy);
    assert!(info.last_health_check.is_some());
}

#[test]
fn resolver_believes_a_tracked_live_pid() {
    let c = cfg("api", Some(3000), None, &[], false);
    let rec = ProcessInfo {
        pid: 77,
        start_time: 100,
        restart_count: 3,
        last_health_check: None,
        health_status: Health::Healthy,
    };
    let snap = vec![entry(5, "unrelated", 0, 0), entry(77, "node server.js", 150, 64)];
    let st = resolve_status(&c, Some(rec), &snap, 160);
    assert_eq!(st.status, RunState::Running);
    assert_eq!(st.pid, Some(77));
    assert_eq!(st.cpu_centi_percent, 150);
    assert_eq!(st.memory_mb, 64);
    assert_eq!(st.uptime, Some(60));
    assert_eq!(st.health, Health::Healthy);
    assert_eq!(st.restart_count, 3);
}

#[test]
fn resolver_scans_by_name_or_port_when_untracked() {
    let c = cfg("api", Some(3000), None, &[], false);
    let snap = vec![entry(9, "java -jar other", 0, 0), entry(12, "node --port 3000", 20, 8)];
    let st = resolve_status(&c, None, &snap, 0);
    assert_eq!(st.status, RunState::Running);
    assert_eq!(st.pid, Some(12));
    assert_eq!(st.uptime, None);
    assert_eq!(st.health, Health::Unknown);
    assert_eq!(st.restart_count, 0);
}

#[test]
fn resolver_reports_stopped_without_port_or_match() {
    let c = cfg("worker", None, None, &[], false);
    let snap = vec![entry(1, "worker of another kind", 0, 0)];
    let st = resolve_status(&c, None, &snap, 0);
    assert_eq!(st.status, RunState::Stopped);
    assert_eq!(st.pid, None);
}

#[test]
fn status_of_unknown_service_is_not_found() {
    let reg = reg_of(vec![cfg("a", None, None, &[], false)]);
    let t = ProcessTracker::new();
    let r = get_service_status(&reg, &t, &vec![], 0, "missing");
    assert_eq!(r.unwrap_err(), ServiceError::NotFound);
}

#[test]
fn all_statuses_cover_every_service() {
    let reg = reg_of(vec![cfg("a", None, None, &[], false), cfg("b", Some(2), None, &[], false)]);
    let t = ProcessTracker::new();
    let all = get_all_services_status(&reg, &t, &vec![], 0);
    assert_eq!(all.len(), 2);
    assert_eq!(all[0].name, "a");
    assert_eq!(all[1].name, "b");
}

#[test]
fn http_500_is_unhealthy_and_2xx_is_healthy() {
    assert_eq!(health_verdict(ProbeOutcome::Http(Some(500))), Health::Unhealthy);
    assert_eq!(health_verdict(ProbeOutcome::Http(Some(200))), Health::Healthy);
    assert_eq!(health_verdict(ProbeOutcome::Http(Some(299))), Health::Healthy);
    assert_eq!(health_verdict(ProbeOutcome::Http(Some(301))), Health::Unhealthy);
    assert_eq!(health_verdict(ProbeOutcome::Http(None)), Health::Unhealthy);
    assert_eq!(health_verdict(ProbeOutcome::Tcp(true)), Health::Healthy);
    assert_eq!(health_verdict(ProbeOutcome::Tcp(false)), Health::Unhealthy);
    assert_eq!(health_verdict(ProbeOutcome::NotProbed), Health::Unknown);
}

#[test]
fn probeless_service_yields_unknown_without_network() {
    let reg = reg_of(vec![cfg("quiet", None, None, &[], false)]);
    let plan = health_probe_plan(&reg, "quiet").unwrap();
    assert!(matches!(plan, Probe::NoProbe));
    let mut t = ProcessTracker::new();
    let verdict = finish_health_check(&mut t, "quiet", ProbeOutcome::NotProbed);
    assert_eq!(verdict, Health::Unknown);
}

#[test]
fn probe_plan_prefers_the_url_over_the_port() {
    let reg = reg_of(vec![
        cfg("web", Some(80), Some("http://localhost:80"), &[], false),
        cfg("raw", Some(9000), None, &[], false),
    ]);
    match health_probe_plan(&reg, "web").unwrap() {
        Probe::Http(u) => assert_eq!(u, "http://localhost:80"),
        _ => panic!("expected an HTTP probe"),
    }
    match health_probe_plan(&reg, "raw").unwrap() {
        Probe::Tcp(p) => assert_eq!(p, 9000),
        _ => panic!("expected a TCP probe"),
    }
    assert_eq!(health_probe_plan(&reg, "none").unwrap_err(), ServiceError::NotFound);
}

#[test]
fn finish_health_check_records_the_verdict() {
    let mut t = ProcessTracker::new();
    t.track_process("api".to_string(), 5);
    let verdict = finish_health_check(&mut t, "api", ProbeOutcome::Http(Some(500)));
    assert_eq!(verdict, Health::Unhealthy);
    assert_eq!(t.get_process_info("api").unwrap().health_status, Health::Unhealthy);
}

#[test]
fn start_plan_orders_dependencies_first() {
    let reg = reg_of(vec![
        cfg("a", None, None, &["b"], false),
        cfg("b", None, None, &["c"], false),
        cfg("c", None, None, &[], false),
    ]);
    let plan = start_plan(&reg, &vec![], "a").unwrap();
    assert_eq!(plan, vec!["c".to_string(), "b".to_string(), "a".to_string()]);
}

#[test]
fn start_plan_skips_running_dependencies() {
    let reg = reg_of(vec![
        cfg("a", None, None, &["b"], false),
        cfg("b", None, None, &["c"], false),
        cfg("c", None, None, &[], false),
    ]);
    let plan = start_plan(&reg, &vec!["b".to_string()], "a").unwrap();
    assert_eq!(plan, vec!["a".to_string()]);
    let plan2 = start_plan(&reg, &vec!["c".to_string()], "a").unwrap();
    assert_eq!(plan2, vec!["b".to_string(), "a".to_string()]);
}

#[test]
fn start_plan_schedules_a_shared_dependency_once() {
    let reg = reg_of(vec![
        cfg("top", None, None, &["left", "right"], false),
        cfg("left", None, None, &["base"], false),
        cfg("right", None, None, &["base"], false),
        cfg("base", None, None, &[], false),
    ]);
    let plan = start_plan(&reg, &vec![], "top").unwrap();
    assert_eq!(
        plan,
        vec!["base".to_string(), "left".to_string(), "right".to_string(), "top".to_string()]
    );
}

#[test]
fn start_plan_rejects_unknown_names_and_cycles() {
    let reg = reg_of(vec![
        cfg("a", None, None, &["b"], false),
        cfg("b", None, None, &["a"], false),
        cfg("lonely", None, None, &["missing"], false),
    ]);
    assert_eq!(start_plan(&reg, &vec![], "ghost").unwrap_err(), ServiceError::NotFound);
    assert_eq!(start_plan(&reg, &vec![], "lonely").unwrap_err(), ServiceError::NotFound);
    assert_eq!(start_plan(&reg, &vec![], "a").unwrap_err(), ServiceError::DependencyCycle);
}

#[test]
fn stopping_a_portless_service_takes_no_os_action() {
    let reg = reg_of(vec![cfg("bot", None, None, &[], false)]);
    let mut t = ProcessTracker::new();
    t.track_process("bot".to_string(), 9);
    let action = begin_stop(&reg, &mut t, "bot").unwrap();
    assert_eq!(action, None);
    assert!(t.get_process_info("bot").is_none());
}

#[test]
fn stopping_a_ported_service_kills_by_port() {
    let reg = reg_of(vec![cfg("web", Some(5173), None, &[], false)]);
    let mut t = ProcessTracker::new();
    let action = begin_stop(&reg, &mut t, "web").unwrap();
    assert_eq!(action, Some(5173));
    assert_eq!(begin_stop(&reg, &mut t, "gone").unwrap_err(), ServiceError::NotFound);
}

#[test]
fn restart_increments_the_counter_exactly_once() {
    let reg = reg_of(vec![cfg("api", Some(3000), None, &[], false)]);
    let mut t = ProcessTracker::new();
    assert_eq!(t.restart_count_of("api"), 0);
    let action = begin_restart(&reg, &mut t, "api").unwrap();
    assert_eq!(action, Some(3000));
    assert_eq!(t.restart_count_of("api"), 1);
    begin_restart(&reg, &mut t, "api").unwrap();
    assert_eq!(t.restart_count_of("api"), 2);
    assert_eq!(begin_restart(&reg, &mut t, "gone").unwrap_err(), ServiceError::NotFound);
    assert_eq!(t.restart_count_of("api"), 2);
}

#[test]
fn correlation_tracks_the_first_matching_process() {
    let mut t = ProcessTracker::new();
    let snap = vec![
        entry(3, "bash -c sleep", 0, 0),
        entry(8, "node api --port 3000", 10, 20),
        entry(9, "node api spare", 0, 0),
    ];
    let pid = correlate_and_track(&mut t, &snap, "api", Some(3000));
    assert_eq!(pid, Some(8));
    assert_eq!(t.get_process_info("api").unwrap().pid, 8);
    let none = correlate_and_track(&mut t, &vec![entry(1, "idle", 0, 0)], "zzz", None);
    assert_eq!(none, None);
    assert!(t.get_process_info("zzz").is_none());
}

#[test]
fn batch_order_sorts_by_direct_dependency_count() {
    let reg = Registry::standard();
    let order = start_all_order(&reg);
    assert_eq!(order.len(), 5);
    assert_eq!(order[4], "web-app");
    assert_eq!(
        order[..4].to_vec(),
        vec![
            "backend".to_string(),
            "trading-bot".to_string(),
            "booking-platform".to_string(),
            "content-builder".to_string()
        ]
    );
}

#[test]
fn toggling_auto_restart_marks_a_stopped_service_for_the_next_tick() {
    let mut reg = reg_of(vec![
        cfg("calm", Some(4000), None, &[], false),
        cfg("busy", Some(4100), None, &[], false),
    ]);
    let t = ProcessTracker::new();
    let empty_snap: Vec<ProcEntry> = vec![];
    assert!(monitor_tick_plan(&reg, &t, &empty_snap, 0).is_empty());
    assert!(toggle_auto_restart(&mut reg, "calm", true).unwrap());
    let plan = monitor_tick_plan(&reg, &t, &empty_snap, 0);
    assert_eq!(plan, vec!["calm".to_string()]);
    assert_eq!(
        toggle_auto_restart(&mut reg, "ghost", true).unwrap_err(),
        ServiceError::NotFound
    );
}

#[test]
fn monitor_skips_services_that_resolve_as_running() {
    let mut reg = reg_of(vec![cfg("api", Some(3000), None, &[], false)]);
    toggle_auto_restart(&mut reg, "api", true).unwrap();
    let t = ProcessTracker::new();
    let snap = vec![entry(4, "node api --port 3000", 0, 0)];
    assert!(monitor_tick_plan(&reg, &t, &snap, 0).is_empty());
    let empty_snap: Vec<ProcEntry> = vec![];
    assert_eq!(monitor_tick_plan(&reg, &t, &empty_snap, 0), vec!["api".to_string()]);
}

#[test]
fn dependency_is_launched_before_dependent_and_both_run() {
    let reg = reg_of(vec![
        cfg("a", Some(8080), None, &["b"], false),
        cfg("b", Some(8081), None, &[], false),
    ]);
    let mut t = ProcessTracker::new();

    let running: Vec<String> = vec![];
    let plan = start_plan(&reg, &running, "a").unwrap();
    assert_eq!(plan, vec!["b".to_string(), "a".to_string()]);

    let mut snap: Vec<ProcEntry> = Vec::new();
    let mut next_pid = 100;
    for name in &plan {
        let port = reg.get(name).unwrap().port.unwrap();
        snap.push(entry(next_pid, &format!("npm run {} --port {}", name, port), 1, 2));
        let got = correlate_and_track(&mut t, &snap, name, Some(port));
        assert_eq!(got, Some(next_pid));
        next_pid += 1;
    }

    let all = get_all_services_status(&reg, &t, &snap, 0);
    assert_eq!(all.len(), 2);
    for st in &all {
        assert_eq!(st.status, RunState::Running, "{} should run", st.name);
    }
}
