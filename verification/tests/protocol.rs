use zvec_grep::domain::CURRENT_PROTOCOL_VERSION;
use zvec_grep::protocol::{HelloRequest, CURRENT_DAEMON_PROTOCOL_VERSION};

#[test]
fn hello_uses_current_protocol_version() {
    let hello = HelloRequest::current("fixture-client");
    assert_eq!(hello.protocol_version, CURRENT_DAEMON_PROTOCOL_VERSION);
}

#[test]
fn hello_keeps_the_client_version_and_protocols_start_at_one() {
    let hello = HelloRequest::current("zg 0.1.0");
    assert_eq!(hello.client_version, "zg 0.1.0");
    assert_eq!(CURRENT_DAEMON_PROTOCOL_VERSION, 1);
    assert_eq!(CURRENT_PROTOCOL_VERSION, 1);
}
