use node_supervisor::config::ports_of_doc;
use node_supervisor::config::update_listen_section;
use node_supervisor::config::update_node_config;
use node_supervisor::types::AddressError;
use node_supervisor::types::NodeError;

fn sample_config() -> String {
    let mut s = String::new();
    s.push_str("[server]\n");
    s.push_str("listen = [\"/ip4/127.0.0.1/tcp/2428\"]\n");
    s.push_str("[swarm]\n");
    s.push_str("listen = [\"/ip4/0.0.0.0/tcp/2528\"]\n");
    s
}

#[test]
fn rewrite_server_section_scenario() {
    let doc_text = sample_config();
    let updated = update_node_config(&doc_text, &String::from("a"), &String::from("a"), false,
        9000, 2528).unwrap();
    let doc: serde_json::Value = toml::from_str(&updated).unwrap();
    assert_eq!(doc["server"]["listen"][0].as_str().unwrap(), "/ip4/127.0.0.1/tcp/9000");
    assert_eq!(doc["swarm"]["listen"][0].as_str().unwrap(), "/ip4/0.0.0.0/tcp/2528");
}

#[test]
fn rewrite_both_sections() {
    let doc_text = sample_config();
    let updated = update_node_config(&doc_text, &String::from("a"), &String::from("a"), false,
        9000, 9001).unwrap();
    let doc: serde_json::Value = toml::from_str(&updated).unwrap();
    assert_eq!(doc["server"]["listen"][0].as_str().unwrap(), "/ip4/127.0.0.1/tcp/9000");
    assert_eq!(doc["swarm"]["listen"][0].as_str().unwrap(), "/ip4/0.0.0.0/tcp/9001");
}

#[test]
fn absent_listen_key_is_a_no_op() {
    let mut doc: serde_json::Value = toml::from_str("[server]\nname = \"x\"\n").unwrap();
    let before = doc.clone();
    let r = update_listen_section(&mut doc, "server", 9000);
    assert!(r.is_ok());
    assert_eq!(doc, before);
}

#[test]
fn absent_section_is_a_no_op() {
    let mut doc: serde_json::Value = toml::from_str("[other]\nname = \"x\"\n").unwrap();
    let before = doc.clone();
    let r = update_listen_section(&mut doc, "server", 9000);
    assert!(r.is_ok());
    assert_eq!(doc, before);
}

#[test]
fn absent_listen_ignores_even_a_bad_port() {
    let mut doc: serde_json::Value = toml::from_str("[server]\nname = \"x\"\n").unwrap();
    let before = doc.clone();
    let r = update_listen_section(&mut doc, "server", 70000);
    assert!(r.is_ok());
    assert_eq!(doc, before);
}

#[test]
fn oversized_port_with_no_listen_lists_succeeds() {
    let r = update_node_config("[other]\nname = \"x\"\n", &String::from("a"),
        &String::from("a"), false, 70000, 70000);
    assert!(r.is_ok());
}

#[test]
fn ports_of_doc_reads_both_sections() {
    let text = "[server]\nlisten = [\"/ip4/127.0.0.1/tcp/2428\"]\n[swarm]\nlisten = [\"/ip4/0.0.0.0/udp/2528\"]\n";
    let doc: serde_json::Value = toml::from_str(text).unwrap();
    let c = ports_of_doc(&doc).unwrap();
    assert_eq!(c.server_port, 2428);
    assert_eq!(c.swarm_port, 2528);
}

#[test]
fn ports_of_doc_missing_section_is_none() {
    let doc: serde_json::Value =
        toml::from_str("[server]\nlisten = [\"/ip4/127.0.0.1/tcp/2428\"]\n").unwrap();
    assert!(ports_of_doc(&doc).is_none());
}

#[test]
fn malformed_listen_entry_leaves_document_untouched() {
    let mut doc: serde_json::Value =
        toml::from_str("[server]\nlisten = [\"/ip4/127.0.0.1/tcp/1\", \"nonsense\"]\n").unwrap();
    let before = doc.clone();
    let r = update_listen_section(&mut doc, "server", 9000);
    assert!(matches!(r, Err(AddressError::Malformed)));
    assert_eq!(doc, before);
}

#[test]
fn non_string_listen_entries_are_kept() {
    let mut doc: serde_json::Value =
        toml::from_str("[server]\nlisten = [17, \"/ip4/127.0.0.1/tcp/2428\"]\n").unwrap();
    let r = update_listen_section(&mut doc, "server", 9000);
    assert!(r.is_ok());
    assert_eq!(doc["server"]["listen"][0].as_i64().unwrap(), 17);
    assert_eq!(doc["server"]["listen"][1].as_str().unwrap(), "/ip4/127.0.0.1/tcp/9000");
}

#[test]
fn rename_to_existing_name_is_a_conflict() {
    let doc_text = sample_config();
    let r = update_node_config(&doc_text, &String::from("alpha"), &String::from("beta"), true,
        9000, 9001);
    assert!(matches!(r, Err(NodeError::NameConflict)));
}

#[test]
fn rename_to_same_name_is_no_conflict() {
    let doc_text = sample_config();
    let r = update_node_config(&doc_text, &String::from("alpha"), &String::from("alpha"), true,
        9000, 9001);
    assert!(r.is_ok());
}

#[test]
fn invalid_port_is_reported() {
    let doc_text = sample_config();
    let r = update_node_config(&doc_text, &String::from("a"), &String::from("a"), false, 70000,
        9001);
    assert!(matches!(r, Err(NodeError::InvalidPort)));
}

#[test]
fn unparseable_config_text_is_reported() {
    let r = update_node_config("this is = not [ toml", &String::from("a"), &String::from("a"),
        false, 9000, 9001);
    assert!(matches!(r, Err(NodeError::ConfigIo)));
}
