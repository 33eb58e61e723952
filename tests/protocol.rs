use roblox_browser::protocol::{
    ChunkPos, ClientCommand, MouseButton, MouseEvent, ProtocolError, ServerCommand,
};

fn client_round_trip(c: ClientCommand) {
    let mut out = Vec::new();
    c.write(&mut out);
    let (back, n) = ClientCommand::read(&out).unwrap();
    assert_eq!(back, c);
    assert_eq!(n, out.len());
}

fn server_round_trip(c: ServerCommand) {
    let mut out = Vec::new();
    c.write(&mut out);
    let (back, n) = ServerCommand::read(&out).unwrap();
    assert_eq!(back, c);
    assert_eq!(n, out.len());
}

#[test]
fn chunk_pos_writes_x_then_y() {
    let mut out = vec![9];
    ChunkPos::new(3, 250).write(&mut out);
    assert_eq!(out, vec![9, 3, 250]);
}

#[test]
fn reset_encodes_as_single_zero() {
    let mut out = Vec::new();
    ClientCommand::Reset.write(&mut out);
    assert_eq!(out, vec![0]);
}

#[test]
fn load_is_length_prefixed() {
    let mut out = Vec::new();
    ClientCommand::Load { url: "héllo".to_string() }.write(&mut out);
    assert_eq!(out, vec![1, 6, 0, 0, 0, b'h', 0xc3, 0xa9, b'l', b'l', b'o']);
}

#[test]
fn mouse_is_little_endian() {
    let mut out = Vec::new();
    ClientCommand::Mouse { x: 0x0102_0304, y: 5, event: MouseEvent::Released(MouseButton::Right) }
        .write(&mut out);
    assert_eq!(out, vec![2, 4, 3, 2, 1, 5, 0, 0, 0, 4]);
}

#[test]
fn resize_and_chunk_data_bytes() {
    let mut out = Vec::new();
    ServerCommand::Resize { width: 256, height: 1 }.write(&mut out);
    assert_eq!(out, vec![0, 0, 1, 0, 0, 1, 0, 0, 0]);
    let mut out = Vec::new();
    ServerCommand::ChunkData { chunk_pos: ChunkPos::new(1, 2), data: vec![7, 8] }.write(&mut out);
    assert_eq!(out, vec![1, 1, 2, 2, 0, 0, 0, 7, 8]);
}

#[test]
fn client_commands_round_trip() {
    client_round_trip(ClientCommand::Reset);
    client_round_trip(ClientCommand::Load { url: String::new() });
    client_round_trip(ClientCommand::Load { url: "https://example.com/ü".to_string() });
    for event in [
        MouseEvent::Move,
        MouseEvent::Pressed(MouseButton::Left),
        MouseEvent::Pressed(MouseButton::Right),
        MouseEvent::Released(MouseButton::Left),
        MouseEvent::Released(MouseButton::Right),
    ] {
        client_round_trip(ClientCommand::Mouse { x: u32::MAX, y: 17, event });
    }
}

#[test]
fn server_commands_round_trip() {
    server_round_trip(ServerCommand::Resize { width: 1024, height: 768 });
    server_round_trip(ServerCommand::ChunkData { chunk_pos: ChunkPos::new(0, 0), data: vec![] });
    server_round_trip(ServerCommand::ChunkData {
        chunk_pos: ChunkPos::new(255, 7),
        data: (0..=255u8).collect(),
    });
}

#[test]
fn decoding_stops_after_one_command() {
    let bytes = vec![0, 2, 1, 0, 0, 0, 2, 0, 0, 0, 0];
    let (c, n) = ClientCommand::read(&bytes).unwrap();
    assert_eq!(c, ClientCommand::Reset);
    assert_eq!(n, 1);
    let (c, n) = ClientCommand::read(&bytes[1..]).unwrap();
    assert_eq!(c, ClientCommand::Mouse { x: 1, y: 2, event: MouseEvent::Move });
    assert_eq!(n, 10);
}

#[test]
fn unknown_tag_fails() {
    assert_eq!(ClientCommand::read(&[3]), Err(ProtocolError::UnknownCommand(3)));
    assert_eq!(ServerCommand::read(&[2, 0]), Err(ProtocolError::UnknownCommand(2)));
}

#[test]
fn unknown_mouse_event_fails() {
    let bytes = [2, 0, 0, 0, 0, 0, 0, 0, 0, 5];
    assert_eq!(ClientCommand::read(&bytes), Err(ProtocolError::UnknownMouseEvent(5)));
    assert_eq!(MouseEvent::from_code(200), Err(ProtocolError::UnknownMouseEvent(200)));
    assert_eq!(MouseEvent::from_code(3), Ok(MouseEvent::Released(MouseButton::Left)));
    assert_eq!(MouseEvent::Pressed(MouseButton::Right).code(), 2);
}

#[test]
fn truncated_input_fails() {
    assert_eq!(ClientCommand::read(&[]), Err(ProtocolError::Truncated));
    assert_eq!(ClientCommand::read(&[1, 3, 0, 0]), Err(ProtocolError::Truncated));
    assert_eq!(ClientCommand::read(&[1, 3, 0, 0, 0, b'a', b'b']), Err(ProtocolError::Truncated));
    assert_eq!(ClientCommand::read(&[2, 0, 0, 0, 0, 0, 0, 0, 0]), Err(ProtocolError::Truncated));
    assert_eq!(ServerCommand::read(&[0, 1, 0, 0, 0]), Err(ProtocolError::Truncated));
    assert_eq!(ServerCommand::read(&[1, 0, 0, 2, 0, 0, 0, 9]), Err(ProtocolError::Truncated));
}

#[test]
fn invalid_utf8_url_fails() {
    assert_eq!(ClientCommand::read(&[1, 1, 0, 0, 0, 0xff]), Err(ProtocolError::InvalidUtf8));
}
