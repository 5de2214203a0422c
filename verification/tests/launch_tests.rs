use node_supervisor::launch::init_args;
use node_supervisor::launch::output_channel_name;
use node_supervisor::launch::run_args;
use node_supervisor::ports::check_ports_availability;
use node_supervisor::text::u64_string;
use node_supervisor::types::NodeConfig;
use node_supervisor::types::PortError;

#[test]
fn init_arguments_are_exact() {
    let args = init_args(&String::from("alpha"), &String::from("/tmp/nodes"), 2428, 2528);
    let expect = vec![
        "--node-name", "alpha", "--home", "/tmp/nodes", "init", "--server-port", "2428",
        "--swarm-port", "2528",
    ];
    assert_eq!(args, expect);
}

#[test]
fn run_arguments_are_exact() {
    let args = run_args(&String::from("beta"), &String::from("/home/user/nodes"));
    let expect = vec!["--node-name", "beta", "--home", "/home/user/nodes", "run"];
    assert_eq!(args, expect);
}

#[test]
fn channel_name_embeds_node_name() {
    assert_eq!(output_channel_name(&String::from("alpha")), "node-output-alpha");
}

#[test]
fn decimal_rendering_is_exact() {
    assert_eq!(u64_string(0), "0");
    assert_eq!(u64_string(7), "7");
    assert_eq!(u64_string(2428), "2428");
    assert_eq!(u64_string(65535), "65535");
}

#[test]
fn port_check_names_first_conflict() {
    let config = NodeConfig { server_port: 2428, swarm_port: 2528 };
    assert!(check_ports_availability(&config, true, true).is_ok());
    assert!(matches!(
        check_ports_availability(&config, false, true),
        Err(PortError::InUse(2428))
    ));
    assert!(matches!(
        check_ports_availability(&config, false, false),
        Err(PortError::InUse(2428))
    ));
    assert!(matches!(
        check_ports_availability(&config, true, false),
        Err(PortError::InUse(2528))
    ));
}
