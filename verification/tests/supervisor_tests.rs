use node_supervisor::supervisor::NodeEntry;
use node_supervisor::supervisor::NodeManager;
use node_supervisor::supervisor::NodeProcess;
use node_supervisor::supervisor::StopAction;
use node_supervisor::types::NodeError;

#[test]
fn start_twice_reports_already_supervised() {
    let mut mgr = NodeManager::new();
    let name = String::from("alpha");
    assert!(mgr.start_node(&name).is_ok());
    mgr.register_node(name.clone(), true);
    let second = mgr.start_node(&name);
    assert!(matches!(second, Err(NodeError::AlreadySupervised)));
    // the first process is untouched: still registered, channel still live
    let out = mgr.get_node_output(&name);
    assert!(out.is_ok());
    assert!(mgr.send_input_to_node(&name, &String::from("ping")).is_ok());
}

#[test]
fn stop_unregistered_but_running_kills_externally() {
    let mut mgr = NodeManager::new();
    let action = mgr.stop_node_process(&String::from("ghost"), true);
    assert_eq!(action, StopAction::KillExternal);
}

#[test]
fn stop_unregistered_and_not_running_is_a_no_op() {
    let mut mgr = NodeManager::new();
    let action = mgr.stop_node_process(&String::from("ghost"), false);
    assert_eq!(action, StopAction::NotRunning);
}

#[test]
fn stop_registered_node_removes_entry() {
    let mut mgr = NodeManager::new();
    let name = String::from("alpha");
    mgr.register_node(name.clone(), true);
    let action = mgr.stop_node_process(&name, true);
    assert_eq!(action, StopAction::Graceful(true));
    assert!(!mgr.contains_node(&name));
    assert!(matches!(mgr.get_node_output(&name), Err(NodeError::NotFound)));
}

#[test]
fn stop_entry_without_handle_requests_external_fallback() {
    let entry = NodeEntry {
        name: String::from("alpha"),
        process: NodeProcess { has_process: false, has_stdin: false, output: String::new() },
    };
    let mut mgr = NodeManager { nodes: vec![entry] };
    let action = mgr.stop_node_process(&String::from("alpha"), true);
    assert_eq!(action, StopAction::Graceful(false));
    assert!(!mgr.contains_node(&String::from("alpha")));
}

#[test]
fn send_input_without_channel_reports_not_running() {
    let mut mgr = NodeManager::new();
    let name = String::from("alpha");
    mgr.register_node(name.clone(), false);
    let r = mgr.send_input_to_node(&name, &String::from("hello"));
    assert!(matches!(r, Err(NodeError::NotRunning)));
}

#[test]
fn send_input_to_unknown_node_reports_not_found() {
    let mgr = NodeManager::new();
    let r = mgr.send_input_to_node(&String::from("nobody"), &String::from("hello"));
    assert!(matches!(r, Err(NodeError::NotFound)));
}

#[test]
fn send_input_after_close_reports_not_running() {
    let mut mgr = NodeManager::new();
    let name = String::from("alpha");
    mgr.register_node(name.clone(), true);
    assert!(mgr.send_input_to_node(&name, &String::from("one")).is_ok());
    mgr.close_input(&name);
    let r = mgr.send_input_to_node(&name, &String::from("two"));
    assert!(matches!(r, Err(NodeError::NotRunning)));
}

#[test]
fn output_is_empty_right_after_start() {
    let mut mgr = NodeManager::new();
    let name = String::from("alpha");
    mgr.register_node(name.clone(), true);
    let out = mgr.get_node_output(&name).unwrap();
    assert_eq!(out, "");
}

#[test]
fn output_accumulates_lines_in_order() {
    let mut mgr = NodeManager::new();
    let name = String::from("alpha");
    mgr.register_node(name.clone(), true);
    mgr.append_output(&name, &String::from("first")).unwrap();
    mgr.append_output(&name, &String::from("second")).unwrap();
    let out = mgr.get_node_output(&name).unwrap();
    assert_eq!(out, "first\nsecond\n");
}

#[test]
fn append_output_to_unknown_node_reports_not_found() {
    let mut mgr = NodeManager::new();
    let r = mgr.append_output(&String::from("nobody"), &String::from("line"));
    assert!(matches!(r, Err(NodeError::NotFound)));
}

#[test]
fn registry_tracks_each_node_independently() {
    let mut mgr = NodeManager::new();
    mgr.register_node(String::from("a"), true);
    mgr.register_node(String::from("b"), false);
    mgr.append_output(&String::from("a"), &String::from("from a")).unwrap();
    assert_eq!(mgr.get_node_output(&String::from("a")).unwrap(), "from a\n");
    assert_eq!(mgr.get_node_output(&String::from("b")).unwrap(), "");
    let action = mgr.stop_node_process(&String::from("a"), true);
    assert_eq!(action, StopAction::Graceful(true));
    assert!(mgr.contains_node(&String::from("b")));
}
