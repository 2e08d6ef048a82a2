use ultraman::launch::{base_port, export_port_for, launch_env, launch_plan, port_for, ps_for};
use ultraman::procfile::Procfile;

#[test]
fn test_port_for() {
    let port = base_port(Some(6000), None, None).unwrap();

    assert_eq!(port_for(port, 0 /* concurrency_index */), 6000);
    assert_eq!(port_for(port, 1 /* concurrency_index */), 6001);
    assert_eq!(port_for(port, 2 /* concurrency_index */), 6002);
}

#[test]
fn base_port_prefers_option_then_env_file_then_own_environment() {
    assert_eq!(base_port(Some(7000), Some("8000"), Some("9000")), Some(7000));
    assert_eq!(base_port(None, Some("8000"), Some("9000")), Some(8000));
    assert_eq!(base_port(None, None, Some("+9000")), Some(9000));
    assert_eq!(base_port(None, None, None), Some(5000));
    assert_eq!(base_port(None, Some("80a"), Some("9000")), None);
    assert_eq!(base_port(None, Some("4294967296"), None), None);
}

#[test]
fn replica_ports_are_consecutive_and_distinct() {
    let ports: Vec<u32> = (0..4).map(|i| port_for(6000, i)).collect();
    assert_eq!(ports, vec![6000, 6001, 6002, 6003]);
}

#[test]
fn export_ports_are_banded_by_process_type() {
    assert_eq!(export_port_for(5000, 2, 1), Some(5201));
    assert_eq!(export_port_for(u32::MAX, 0, 1), None);
}

#[test]
fn two_web_replicas_get_their_ports_and_names() {
    let mut pf = Procfile::new();
    pf.insert(String::from("web"), String::from("sleep 100"));
    pf.set_concurrency("web=2").unwrap();
    let plan = launch_plan(&pf, 6000).unwrap();
    assert_eq!(plan.len(), 2);
    assert_eq!(plan[0].port, 6000);
    assert_eq!(plan[1].port, 6001);
    assert_eq!(plan[0].ps, "web.1");
    assert_eq!(plan[1].ps, "web.2");
    assert_eq!(plan[1].command, "sleep 100");

    let loaded = vec![(String::from("PORT"), String::from("1")), (String::from("A"), String::from("b"))];
    let env = launch_env(&loaded, plan[1].port, &plan[1].ps);
    assert_eq!(
        env,
        vec![
            (String::from("PORT"), String::from("6001")),
            (String::from("A"), String::from("b")),
            (String::from("PS"), String::from("web.2")),
        ]
    );
}

#[test]
fn zero_replicas_launch_nothing() {
    let mut pf = Procfile::new();
    pf.insert(String::from("web"), String::from("sleep 100"));
    pf.set_concurrency("web=0").unwrap();
    assert_eq!(pf.process_len(), 0);
    assert_eq!(launch_plan(&pf, 5000).unwrap().len(), 0);
}

#[test]
fn plan_lists_types_in_order_with_group_index() {
    let mut pf = Procfile::new();
    pf.insert(String::from("web"), String::from("w"));
    pf.insert(String::from("app"), String::from("a"));
    pf.set_concurrency("app=1,web=2").unwrap();
    let plan = launch_plan(&pf, 5000).unwrap();
    let names: Vec<&str> = plan.iter().map(|r| r.ps.as_str()).collect();
    assert_eq!(names, vec!["app.1", "web.1", "web.2"]);
    assert_eq!(plan[0].group, 0);
    assert_eq!(plan[2].group, 1);
    assert_eq!(plan[0].port, 5000);
    assert_eq!(plan[2].port, 5001);
}

#[test]
fn plan_is_refused_when_ports_overflow() {
    let mut pf = Procfile::new();
    pf.insert(String::from("web"), String::from("w"));
    pf.set_concurrency("web=2").unwrap();
    assert!(launch_plan(&pf, u32::MAX).is_none());
    assert!(launch_plan(&pf, u32::MAX - 1).is_some());
}

#[test]
fn display_name_joins_type_and_number() {
    assert_eq!(ps_for("web", 1), "web.1");
    assert_eq!(ps_for("worker", 10), "worker.10");
}
