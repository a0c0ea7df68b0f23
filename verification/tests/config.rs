use pointzerver::codec::decode;
use pointzerver::command::DecodeError;
use pointzerver::config::ServerConfig;

#[test]
fn the_socket_is_bound_to_every_interface_at_the_command_port() {
    assert_eq!(ServerConfig::bind_address(), format!("0.0.0.0:{}", ServerConfig::COMMAND_PORT));
    assert_eq!(ServerConfig::bind_address(), "0.0.0.0:45455");
}

#[test]
fn a_command_cut_to_the_buffer_is_dropped() {
    let mut long = b"{\"type\":\"move\",\"dx\":5,\"dy\":3,\"pad\":\"".to_vec();
    long.resize(2 * ServerConfig::COMMAND_BUFFER_SIZE, b'x');
    long.extend_from_slice(b"\"}");
    assert!(decode(&long).is_ok());
    assert_eq!(
        decode(&long[..ServerConfig::COMMAND_BUFFER_SIZE]),
        Err(DecodeError::Malformed)
    );
}
