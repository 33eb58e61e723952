//! Binary wire format of the commands exchanged between client and server.
//! Every integer is little-endian and every command starts with a tag byte.
use vstd::prelude::*;
use vstd::utf8::*;
use vstd::string::*;

verus! {

broadcast use group_utf8_lib;

/// Four little-endian bytes of `v`.
pub open spec fn le_bytes(v: u32) -> Seq<u8> {
    seq![
        (v % 256) as u8,
        ((v / 256) % 256) as u8,
        ((v / 65536) % 256) as u8,
        (v / 16777216) as u8,
    ]
}

/// The little-endian integer held by `s[i..i + 4]`.
pub open spec fn le_value(s: Seq<u8>, i: int) -> int {
    s[i] as int + s[i + 1] as int * 256 + s[i + 2] as int * 65536 + s[i + 3] as int * 16777216
}

pub proof fn lemma_le_round_trip(v: u32)
    ensures
        le_bytes(v).len() == 4,
        le_value(le_bytes(v), 0) == v as int,
{
    let b = le_bytes(v);
    let a0 = v % 256;
    let q0 = v / 256;
    let a1 = q0 % 256;
    let q1 = q0 / 256;
    let a2 = q1 % 256;
    let q2 = q1 / 256;
    assert(v == q0 * 256 + a0);
    assert(q0 == q1 * 256 + a1);
    assert(q1 == q2 * 256 + a2);
    assert(q1 == v / 65536) by {
        vstd::arithmetic::div_mod::lemma_div_denominator(v as int, 256, 256);
    }
    assert(q2 == v / 16777216) by {
        vstd::arithmetic::div_mod::lemma_div_denominator(v as int, 65536, 256);
    }
    assert(q2 < 256);
    assert(b[0] == a0 && b[1] == a1 && b[2] == a2 && b[3] == q2);
    assert(v as int == a0 + a1 * 256 + a2 * 65536 + q2 * 16777216) by (nonlinear_arith)
        requires
            v == q0 * 256 + a0,
            q0 == q1 * 256 + a1,
            q1 == q2 * 256 + a2,
    ;
}

/// Grid coordinate of a chunk within a frame.
#[derive(Clone, Copy, Debug, Default, PartialEq, Eq, Structural, PartialOrd, Ord)]
pub struct ChunkPos {
    pub x: u8,
    pub y: u8,
}

impl ChunkPos {
    pub fn new(x: u8, y: u8) -> (r: Self)
        ensures
            r.x == x,
            r.y == y,
    {
        Self { x, y }
    }

    /// Appends the two coordinate bytes, `x` first.
    pub fn write(&self, out: &mut Vec<u8>)
        ensures
            final(out)@ == old(out)@ + seq![self.x, self.y],
    {
        out.push(self.x);
        out.push(self.y);
        assert(out@ =~= old(out)@ + seq![self.x, self.y]);
    }
}

#[derive(Clone, Copy, Debug, PartialEq, Eq, Structural)]
pub enum MouseButton {
    Left,
    Right,
}

#[derive(Clone, Copy, Debug, PartialEq, Eq, Structural)]
pub enum MouseEvent {
    Move,
    Pressed(MouseButton),
    Released(MouseButton),
}

/// Why a byte sequence does not decode to a command.
#[derive(Clone, Copy, Debug, PartialEq, Eq, Structural)]
pub enum ProtocolError {
    /// The tag byte names no command.
    UnknownCommand(u8),
    /// The event byte of a mouse command names no event.
    UnknownMouseEvent(u8),
    /// The bytes end before the command does.
    Truncated,
    /// The url of a load command is not UTF-8.
    InvalidUtf8,
}

pub open spec fn event_code(e: MouseEvent) -> u8 {
    match e {
        MouseEvent::Move => 0,
        MouseEvent::Pressed(MouseButton::Left) => 1,
        MouseEvent::Pressed(MouseButton::Right) => 2,
        MouseEvent::Released(MouseButton::Left) => 3,
        MouseEvent::Released(MouseButton::Right) => 4,
    }
}

/// The event that `code` stands for; meaningful for codes up to 4.
pub open spec fn event_of_code(code: u8) -> MouseEvent {
    if code == 1 {
        MouseEvent::Pressed(MouseButton::Left)
    } else if code == 2 {
        MouseEvent::Pressed(MouseButton::Right)
    } else if code == 3 {
        MouseEvent::Released(MouseButton::Left)
    } else if code == 4 {
        MouseEvent::Released(MouseButton::Right)
    } else {
        MouseEvent::Move
    }
}

impl MouseEvent {
    pub fn code(self) -> (r: u8)
        ensures
            r == event_code(self),
    {
        match self {
            MouseEvent::Move => 0,
            MouseEvent::Pressed(MouseButton::Left) => 1,
            MouseEvent::Pressed(MouseButton::Right) => 2,
            MouseEvent::Released(MouseButton::Left) => 3,
            MouseEvent::Released(MouseButton::Right) => 4,
        }
    }

    pub fn from_code(code: u8) -> (r: Result<MouseEvent, ProtocolError>)
        ensures
            code <= 4 ==> r == Ok::<MouseEvent, ProtocolError>(event_of_code(code)),
            code > 4 ==> r == Err::<MouseEvent, ProtocolError>(ProtocolError::UnknownMouseEvent(code)),
    {
        match code {
            0 => Ok(MouseEvent::Move),
            1 => Ok(MouseEvent::Pressed(MouseButton::Left)),
            2 => Ok(MouseEvent::Pressed(MouseButton::Right)),
            3 => Ok(MouseEvent::Released(MouseButton::Left)),
            4 => Ok(MouseEvent::Released(MouseButton::Right)),
            _ => Err(ProtocolError::UnknownMouseEvent(code)),
        }
    }
}

pub proof fn lemma_event_code_round_trip(e: MouseEvent)
    ensures
        event_code(e) <= 4,
        event_of_code(event_code(e)) == e,
{
}


/// A command from the client to the server.
#[derive(Clone, Debug, PartialEq, Eq)]
pub enum ClientCommand {
    Reset,
    Load { url: String },
    Mouse { x: u32, y: u32, event: MouseEvent },
}

/// What a client command carries, with the url as characters.
pub enum ClientMsg {
    Reset,
    Load(Seq<char>),
    Mouse(u32, u32, MouseEvent),
}

/// A command from the server to the client.
#[derive(Clone, Debug, PartialEq, Eq)]
pub enum ServerCommand {
    Resize { width: u32, height: u32 },
    ChunkData { chunk_pos: ChunkPos, data: Vec<u8> },
}

/// What a server command carries.
pub enum ServerMsg {
    Resize(u32, u32),
    ChunkData(ChunkPos, Seq<u8>),
}

impl View for ClientCommand {
    type V = ClientMsg;

    open spec fn view(&self) -> ClientMsg {
        match self {
            ClientCommand::Reset => ClientMsg::Reset,
            ClientCommand::Load { url } => ClientMsg::Load(url@),
            ClientCommand::Mouse { x, y, event } => ClientMsg::Mouse(*x, *y, *event),
        }
    }
}

impl View for ServerCommand {
    type V = ServerMsg;

    open spec fn view(&self) -> ServerMsg {
        match self {
            ServerCommand::Resize { width, height } => ServerMsg::Resize(*width, *height),
            ServerCommand::ChunkData { chunk_pos, data } => ServerMsg::ChunkData(*chunk_pos, data@),
        }
    }
}

/// A client command can be written: its url takes fewer than 2^32 bytes.
pub open spec fn client_msg_fits(c: ClientMsg) -> bool {
    match c {
        ClientMsg::Load(url) => encode_utf8(url).len() <= u32::MAX,
        _ => true,
    }
}

/// A server command can be written: its payload takes fewer than 2^32 bytes.
pub open spec fn server_msg_fits(c: ServerMsg) -> bool {
    match c {
        ServerMsg::ChunkData(_, data) => data.len() <= u32::MAX,
        _ => true,
    }
}

/// The bytes of a client command on the wire.
pub open spec fn client_bytes(c: ClientMsg) -> Seq<u8> {
    match c {
        ClientMsg::Reset => seq![0u8],
        ClientMsg::Load(url) => seq![1u8] + le_bytes(encode_utf8(url).len() as u32) + encode_utf8(
            url,
        ),
        ClientMsg::Mouse(x, y, e) => seq![2u8] + le_bytes(x) + le_bytes(y) + seq![event_code(e)],
    }
}

/// The bytes of a server command on the wire.
pub open spec fn server_bytes(c: ServerMsg) -> Seq<u8> {
    match c {
        ServerMsg::Resize(w, h) => seq![0u8] + le_bytes(w) + le_bytes(h),
        ServerMsg::ChunkData(pos, data) => seq![1u8, pos.x, pos.y] + le_bytes(data.len() as u32)
            + data,
    }
}

/// The client command at the front of `s` and the number of bytes it takes,
/// or why there is none.
pub open spec fn decode_client(s: Seq<u8>) -> Result<(ClientMsg, nat), ProtocolError> {
    if s.len() < 1 {
        Err(ProtocolError::Truncated)
    } else if s[0] == 0 {
        Ok((ClientMsg::Reset, 1))
    } else if s[0] == 1 {
        if s.len() < 5 {
            Err(ProtocolError::Truncated)
        } else if s.len() < 5 + le_value(s, 1) {
            Err(ProtocolError::Truncated)
        } else {
            let b = s.subrange(5, 5 + le_value(s, 1));
            if valid_utf8(b) {
                Ok((ClientMsg::Load(decode_utf8(b)), (5 + le_value(s, 1)) as nat))
            } else {
                Err(ProtocolError::InvalidUtf8)
            }
        }
    } else if s[0] == 2 {
        if s.len() < 10 {
            Err(ProtocolError::Truncated)
        } else if s[9] > 4 {
            Err(ProtocolError::UnknownMouseEvent(s[9]))
        } else {
            Ok(
                (
                    ClientMsg::Mouse(le_value(s, 1) as u32, le_value(s, 5) as u32, event_of_code(s[9])),
                    10,
                ),
            )
        }
    } else {
        Err(ProtocolError::UnknownCommand(s[0]))
    }
}

/// The server command at the front of `s` and the number of bytes it takes,
/// or why there is none.
pub open spec fn decode_server(s: Seq<u8>) -> Result<(ServerMsg, nat), ProtocolError> {
    if s.len() < 1 {
        Err(ProtocolError::Truncated)
    } else if s[0] == 0 {
        if s.len() < 9 {
            Err(ProtocolError::Truncated)
        } else {
            Ok((ServerMsg::Resize(le_value(s, 1) as u32, le_value(s, 5) as u32), 9))
        }
    } else if s[0] == 1 {
        if s.len() < 7 || s.len() < 7 + le_value(s, 3) {
            Err(ProtocolError::Truncated)
        } else {
            Ok(
                (
                    ServerMsg::ChunkData(
                        ChunkPos { x: s[1], y: s[2] },
                        s.subrange(7, 7 + le_value(s, 3)),
                    ),
                    (7 + le_value(s, 3)) as nat,
                ),
            )
        }
    } else {
        Err(ProtocolError::UnknownCommand(s[0]))
    }
}

/// Appends the four little-endian bytes of `v`.
fn write_u32_le(out: &mut Vec<u8>, v: u32)
    ensures
        final(out)@ == old(out)@ + le_bytes(v),
{
    out.push((v % 256) as u8);
    out.push(((v / 256) % 256) as u8);
    out.push(((v / 65536) % 256) as u8);
    out.push((v / 16777216) as u8);
    assert(out@ =~= old(out)@ + le_bytes(v));
}

/// The little-endian integer in `b[i..i + 4]`.
fn read_u32_le(b: &[u8], i: usize) -> (r: u32)
    requires
        i + 4 <= b@.len(),
    ensures
        r as int == le_value(b@, i as int),
{
    let b0 = b[i] as u32;
    let b1 = b[i + 1] as u32;
    let b2 = b[i + 2] as u32;
    let b3 = b[i + 3] as u32;
    assert(b0 + b1 * 256 + b2 * 65536 + b3 * 16777216 <= u32::MAX) by (nonlinear_arith)
        requires
            b0 <= 255,
            b1 <= 255,
            b2 <= 255,
            b3 <= 255,
    ;
    b0 + b1 * 256 + b2 * 65536 + b3 * 16777216
}

/// Appends every byte of `src`.
fn append_bytes(out: &mut Vec<u8>, src: &[u8])
    ensures
        final(out)@ == old(out)@ + src@,
{
    let mut i: usize = 0;
    while i < src.len()
        invariant
            i <= src@.len(),
            out@ == old(out)@ + src@.subrange(0, i as int),
        decreases src@.len() - i,
    {
        out.push(src[i]);
        i = i + 1;
        assert(out@ =~= old(out)@ + src@.subrange(0, i as int));
    }
    assert(src@.subrange(0, i as int) =~= src@);
}

/// Relies on `String::from_utf8`: it returns the string that the bytes
/// encode when they are valid UTF-8, and an error otherwise.
#[verifier::external_body]
fn string_from_utf8(bytes: Vec<u8>) -> (r: Option<String>)
    ensures
        r is Some <==> valid_utf8(bytes@),
        r matches Some(s) ==> s@ == decode_utf8(bytes@),
{
    String::from_utf8(bytes).ok()
}

impl ClientCommand {
    /// Appends the wire bytes of this command.
    pub fn write(&self, out: &mut Vec<u8>)
        requires
            client_msg_fits(self@),
        ensures
            final(out)@ == old(out)@ + client_bytes(self@),
    {
        match self {
            ClientCommand::Reset => {
                out.push(0);
                assert(out@ =~= old(out)@ + client_bytes(self@));
            },
            ClientCommand::Load { url } => {
                let bytes = url.as_str().as_bytes();
                out.push(1);
                write_u32_le(out, bytes.len() as u32);
                append_bytes(out, bytes);
                assert(out@ =~= old(out)@ + client_bytes(self@));
            },
            ClientCommand::Mouse { x, y, event } => {
                out.push(2);
                write_u32_le(out, *x);
                write_u32_le(out, *y);
                out.push(event.code());
                assert(out@ =~= old(out)@ + client_bytes(self@));
            },
        }
    }

    /// Decodes the command at the front of `bytes`, with the number of bytes
    /// it takes.
    pub fn read(bytes: &[u8]) -> (r: Result<(ClientCommand, usize), ProtocolError>)
        ensures
            match r {
                Ok((c, n)) => decode_client(bytes@) == Ok::<(ClientMsg, nat), ProtocolError>(
                    (c@, n as nat),
                ),
                Err(e) => decode_client(bytes@) == Err::<(ClientMsg, nat), ProtocolError>(e),
            },
    {
        if bytes.len() < 1 {
            return Err(ProtocolError::Truncated);
        }
        let op = bytes[0];
        if op == 0 {
            Ok((ClientCommand::Reset, 1))
        } else if op == 1 {
            if bytes.len() < 5 {
                return Err(ProtocolError::Truncated);
            }
            let len = read_u32_le(bytes, 1) as usize;
            if bytes.len() - 5 < len {
                return Err(ProtocolError::Truncated);
            }
            let mut url: Vec<u8> = Vec::new();
            append_bytes(&mut url, &bytes[5..5 + len]);
            match string_from_utf8(url) {
                Some(url) => Ok((ClientCommand::Load { url }, 5 + len)),
                None => Err(ProtocolError::InvalidUtf8),
            }
        } else if op == 2 {
            if bytes.len() < 10 {
                return Err(ProtocolError::Truncated);
            }
            let x = read_u32_le(bytes, 1);
            let y = read_u32_le(bytes, 5);
            match MouseEvent::from_code(bytes[9]) {
                Ok(event) => Ok((ClientCommand::Mouse { x, y, event }, 10)),
                Err(e) => Err(e),
            }
        } else {
            Err(ProtocolError::UnknownCommand(op))
        }
    }
}

impl ServerCommand {
    /// Appends the wire bytes of this command.
    pub fn write(&self, out: &mut Vec<u8>)
        requires
            server_msg_fits(self@),
        ensures
            final(out)@ == old(out)@ + server_bytes(self@),
    {
        match self {
            ServerCommand::Resize { width, height } => {
                out.push(0);
                write_u32_le(out, *width);
                write_u32_le(out, *height);
                assert(out@ =~= old(out)@ + server_bytes(self@));
            },
            ServerCommand::ChunkData { chunk_pos, data } => {
                out.push(1);
                chunk_pos.write(out);
                write_u32_le(out, data.len() as u32);
                append_bytes(out, data.as_slice());
                assert(out@ =~= old(out)@ + server_bytes(self@));
            },
        }
    }

    /// Decodes the command at the front of `bytes`, with the number of bytes
    /// it takes.
    pub fn read(bytes: &[u8]) -> (r: Result<(ServerCommand, usize), ProtocolError>)
        ensures
            match r {
                Ok((c, n)) => decode_server(bytes@) == Ok::<(ServerMsg, nat), ProtocolError>(
                    (c@, n as nat),
                ),
                Err(e) => decode_server(bytes@) == Err::<(ServerMsg, nat), ProtocolError>(e),
            },
    {
        if bytes.len() < 1 {
            return Err(ProtocolError::Truncated);
        }
        let op = bytes[0];
        if op == 0 {
            if bytes.len() < 9 {
                return Err(ProtocolError::Truncated);
            }
            let width = read_u32_le(bytes, 1);
            let height = read_u32_le(bytes, 5);
            Ok((ServerCommand::Resize { width, height }, 9))
        } else if op == 1 {
            if bytes.len() < 7 {
                return Err(ProtocolError::Truncated);
            }
            let len = read_u32_le(bytes, 3) as usize;
            if bytes.len() - 7 < len {
                return Err(ProtocolError::Truncated);
            }
            let mut data: Vec<u8> = Vec::new();
            append_bytes(&mut data, &bytes[7..7 + len]);
            let chunk_pos = ChunkPos::new(bytes[1], bytes[2]);
            Ok((ServerCommand::ChunkData { chunk_pos, data }, 7 + len))
        } else {
            Err(ProtocolError::UnknownCommand(op))
        }
    }
}


/// Decoding the bytes of a client command, whatever bytes follow them, gives
/// back that command and the number of bytes it was written in.
pub proof fn lemma_client_round_trip(c: ClientMsg, rest: Seq<u8>)
    requires
        client_msg_fits(c),
    ensures
        decode_client(client_bytes(c) + rest) == Ok::<(ClientMsg, nat), ProtocolError>(
            (c, client_bytes(c).len()),
        ),
{
    let s = client_bytes(c) + rest;
    match c {
        ClientMsg::Reset => {},
        ClientMsg::Load(url) => {
            let b = encode_utf8(url);
            let n = b.len() as u32;
            lemma_le_round_trip(n);
            assert(s.subrange(1, 5) =~= le_bytes(n));
            assert(le_value(s, 1) == le_value(le_bytes(n), 0));
            assert(s.subrange(5, 5 + le_value(s, 1)) =~= b);
            encode_utf8_valid_utf8(url);
            encode_utf8_decode_utf8(url);
        },
        ClientMsg::Mouse(x, y, e) => {
            lemma_le_round_trip(x);
            lemma_le_round_trip(y);
            lemma_event_code_round_trip(e);
            assert(s.subrange(1, 5) =~= le_bytes(x));
            assert(s.subrange(5, 9) =~= le_bytes(y));
            assert(le_value(s, 1) == le_value(le_bytes(x), 0));
            assert(le_value(s, 5) == le_value(le_bytes(y), 0));
            assert(s[9] == event_code(e));
        },
    }
}

/// Decoding the bytes of a server command, whatever bytes follow them, gives
/// back that command and the number of bytes it was written in.
pub proof fn lemma_server_round_trip(c: ServerMsg, rest: Seq<u8>)
    requires
        server_msg_fits(c),
    ensures
        decode_server(server_bytes(c) + rest) == Ok::<(ServerMsg, nat), ProtocolError>(
            (c, server_bytes(c).len()),
        ),
{
    let s = server_bytes(c) + rest;
    match c {
        ServerMsg::Resize(w, h) => {
            lemma_le_round_trip(w);
            lemma_le_round_trip(h);
            assert(s.subrange(1, 5) =~= le_bytes(w));
            assert(s.subrange(5, 9) =~= le_bytes(h));
            assert(le_value(s, 1) == le_value(le_bytes(w), 0));
            assert(le_value(s, 5) == le_value(le_bytes(h), 0));
        },
        ServerMsg::ChunkData(pos, data) => {
            let n = data.len() as u32;
            lemma_le_round_trip(n);
            assert(s.subrange(3, 7) =~= le_bytes(n));
            assert(le_value(s, 3) == le_value(le_bytes(n), 0));
            assert(s.subrange(7, 7 + le_value(s, 3)) =~= data);
            assert(ChunkPos { x: s[1], y: s[2] } == pos);
        },
    }
}

} // verus!
