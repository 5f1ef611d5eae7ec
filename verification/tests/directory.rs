use sharded_ledger::network::bootstrap::{known_nodes, BootstrapNode};

#[test]
fn new_directory_is_empty() {
    let directory = BootstrapNode::new();
    assert_eq!(directory.len(), 0);
    assert!(directory.nodes().is_empty());
    assert_eq!(directory.response(), "");
}

#[test]
fn registration_is_answered_with_the_listing() {
    let mut directory = BootstrapNode::new();
    assert_eq!(directory.handle_message("n1,10.0.0.1:8090"), "n1,10.0.0.1:8090");
    assert_eq!(
        directory.handle_message("n2,10.0.0.2:8090"),
        "n1,10.0.0.1:8090\nn2,10.0.0.2:8090"
    );
    assert_eq!(directory.len(), 2);
    assert!(directory.contains("n1"));
    assert!(!directory.contains("n3"));
    assert_eq!(directory.nodes()[1].id, "n2");
    assert_eq!(directory.nodes()[1].addr, "10.0.0.2:8090");
}

#[test]
fn white_space_around_a_message_is_ignored() {
    let mut directory = BootstrapNode::new();
    assert_eq!(directory.handle_message("  n1,addr \r\n"), "n1,addr");
    assert_eq!(directory.handle_message("\u{a0}n2, a b\u{3000}"), "n1,addr\nn2, a b");
    assert_eq!(directory.nodes()[1].addr, " a b");
}

#[test]
fn first_to_register_keeps_the_id() {
    let mut directory = BootstrapNode::new();
    directory.handle_message("n1,first");
    assert_eq!(directory.handle_message("n1,second"), "n1,first");
    assert_eq!(directory.len(), 1);
    directory.register("n1".to_string(), "third".to_string());
    directory.register("n2".to_string(), "other".to_string());
    assert_eq!(directory.response(), "n1,first\nn2,other");
}

#[test]
fn invalid_messages_are_refused() {
    let mut directory = BootstrapNode::new();
    for message in ["", "   ", "n1", "a,b,c", ",,", "n1;addr"] {
        assert_eq!(directory.handle_message(message), "Invalid registration message");
    }
    assert_eq!(directory.len(), 0);
}

#[test]
fn empty_parts_are_registered() {
    let mut directory = BootstrapNode::new();
    assert_eq!(directory.handle_message(","), ",");
    assert_eq!(directory.handle_message("x,"), ",\nx,");
    assert_eq!(directory.handle_message(",y"), ",\nx,");
    assert_eq!(directory.len(), 2);
}

#[test]
fn messages_beyond_ascii() {
    let mut directory = BootstrapNode::new();
    assert_eq!(directory.handle_message("n\u{e9},\u{20ac}1"), "n\u{e9},\u{20ac}1");
    assert!(directory.contains("n\u{e9}"));
}

#[test]
fn listed_nodes_are_the_lines_with_a_colon() {
    assert_eq!(
        known_nodes("0.0.0.0:8090,0.0.0.0:8090\nn2,addr\nx:y\n"),
        vec!["0.0.0.0:8090,0.0.0.0:8090".to_string(), "x:y".to_string()]
    );
    assert_eq!(known_nodes("a:b\r\nc:d"), vec!["a:b".to_string(), "c:d".to_string()]);
    assert_eq!(known_nodes("a:b\r"), vec!["a:b\r".to_string()]);
    assert_eq!(known_nodes("\n\n:\n\r\n"), vec![":".to_string()]);
    assert!(known_nodes("").is_empty());
    assert!(known_nodes("Invalid registration message").is_empty());
}

#[test]
fn listing_is_read_back() {
    let mut directory = BootstrapNode::new();
    directory.handle_message("10.0.0.1:8090,10.0.0.1:8090");
    let answer = directory.handle_message("10.0.0.2:8091,10.0.0.2:8091");
    assert_eq!(
        known_nodes(&answer),
        vec!["10.0.0.1:8090,10.0.0.1:8090".to_string(), "10.0.0.2:8091,10.0.0.2:8091".to_string()]
    );
}
