use vstd::prelude::*;
use vstd::string::StringSliceAdditionalSpecFns;

verus! {

/// The size in bytes of a message header: the magic string and two 32-bit fields.
pub const HEADER_SIZE: usize = 14;

/// The message types that a client sends.
#[derive(Debug, Clone, Copy, PartialEq, Eq, Structural)]
pub enum Request {
    Command,
    GetWorkspaces,
    Subscribe,
    GetOutputs,
    GetTree,
    GetMarks,
    GetBarConfig,
    GetVersion,
    GetBindingModes,
    GetConfig,
    SendTick,
    Sync,
    GetBindingState,
}

/// The message types of the replies.
#[derive(Debug, Clone, Copy, PartialEq, Eq, Structural)]
pub enum Response {
    Command,
    Workspaces,
    Subscribe,
    Outputs,
    Tree,
    Marks,
    BarConfig,
    Version,
    BindingModes,
    Config,
    Tick,
    Sync,
    GetBindingState,
}

/// The number that stands for a request type on the wire.
pub open spec fn request_code(r: Request) -> u32 {
    match r {
        Request::Command => 0,
        Request::GetWorkspaces => 1,
        Request::Subscribe => 2,
        Request::GetOutputs => 3,
        Request::GetTree => 4,
        Request::GetMarks => 5,
        Request::GetBarConfig => 6,
        Request::GetVersion => 7,
        Request::GetBindingModes => 8,
        Request::GetConfig => 9,
        Request::SendTick => 10,
        Request::Sync => 11,
        Request::GetBindingState => 12,
    }
}

/// The number that stands for a reply type on the wire.
pub open spec fn response_code(r: Response) -> u32 {
    match r {
        Response::Command => 0,
        Response::Workspaces => 1,
        Response::Subscribe => 2,
        Response::Outputs => 3,
        Response::Tree => 4,
        Response::Marks => 5,
        Response::BarConfig => 6,
        Response::Version => 7,
        Response::BindingModes => 8,
        Response::Config => 9,
        Response::Tick => 10,
        Response::Sync => 11,
        Response::GetBindingState => 12,
    }
}

impl Request {
    /// The number that stands for this request type on the wire.
    pub fn code(&self) -> (r: u32)
        ensures
            r == request_code(*self),
    {
        match self {
            Request::Command => 0,
            Request::GetWorkspaces => 1,
            Request::Subscribe => 2,
            Request::GetOutputs => 3,
            Request::GetTree => 4,
            Request::GetMarks => 5,
            Request::GetBarConfig => 6,
            Request::GetVersion => 7,
            Request::GetBindingModes => 8,
            Request::GetConfig => 9,
            Request::SendTick => 10,
            Request::Sync => 11,
            Request::GetBindingState => 12,
        }
    }
}

impl Response {
    /// The number that stands for this reply type on the wire.
    pub fn code(&self) -> (r: u32)
        ensures
            r == response_code(*self),
    {
        match self {
            Response::Command => 0,
            Response::Workspaces => 1,
            Response::Subscribe => 2,
            Response::Outputs => 3,
            Response::Tree => 4,
            Response::Marks => 5,
            Response::BarConfig => 6,
            Response::Version => 7,
            Response::BindingModes => 8,
            Response::Config => 9,
            Response::Tick => 10,
            Response::Sync => 11,
            Response::GetBindingState => 12,
        }
    }
}

impl From<Request> for Response {
    /// The type of the reply to a request: the one with the same number.
    fn from(request_type: Request) -> (r: Response) {
        match request_type {
            Request::Command => Response::Command,
            Request::GetWorkspaces => Response::Workspaces,
            Request::Subscribe => Response::Subscribe,
            Request::GetOutputs => Response::Outputs,
            Request::GetTree => Response::Tree,
            Request::GetMarks => Response::Marks,
            Request::GetBarConfig => Response::BarConfig,
            Request::GetVersion => Response::Version,
            Request::GetBindingModes => Response::BindingModes,
            Request::GetConfig => Response::Config,
            Request::SendTick => Response::Tick,
            Request::Sync => Response::Sync,
            Request::GetBindingState => Response::GetBindingState,
        }
    }
}

impl vstd::std_specs::convert::FromSpecImpl<Request> for Response {
    open spec fn obeys_from_spec() -> bool {
        true
    }

    open spec fn from_spec(v: Request) -> Response {
        match v {
            Request::Command => Response::Command,
            Request::GetWorkspaces => Response::Workspaces,
            Request::Subscribe => Response::Subscribe,
            Request::GetOutputs => Response::Outputs,
            Request::GetTree => Response::Tree,
            Request::GetMarks => Response::Marks,
            Request::GetBarConfig => Response::BarConfig,
            Request::GetVersion => Response::Version,
            Request::GetBindingModes => Response::BindingModes,
            Request::GetConfig => Response::Config,
            Request::SendTick => Response::Tick,
            Request::Sync => Response::Sync,
            Request::GetBindingState => Response::GetBindingState,
        }
    }
}

/// The magic string that opens every message: `i3-ipc`.
pub open spec fn magic_spec() -> Seq<u8> {
    seq![0x69u8, 0x33u8, 0x2du8, 0x69u8, 0x70u8, 0x63u8]
}

/// The four bytes of `v`, least significant first.
pub open spec fn u32_le(v: u32) -> Seq<u8> {
    seq![
        (v % 256) as u8,
        ((v / 256) % 256) as u8,
        ((v / 65536) % 256) as u8,
        (v / 16777216) as u8,
    ]
}

/// The number that four bytes stand for, least significant first.
pub open spec fn u32_of(b0: u8, b1: u8, b2: u8, b3: u8) -> int {
    b0 + 256 * b1 + 65536 * b2 + 16777216 * b3
}

/// The header of a message: the magic string, the size of the payload that follows, and
/// the message type.
#[derive(Debug, Clone, Copy, PartialEq, Eq)]
pub struct Header {
    pub magic: [u8; 6],
    pub payload_size: u32,
    pub msg_type: u32,
}

/// The bytes of a header on the wire.
pub open spec fn header_bytes(h: Header) -> Seq<u8> {
    h.magic@ + u32_le(h.payload_size) + u32_le(h.msg_type)
}

fn push_u32_le(buffer: &mut Vec<u8>, v: u32)
    ensures
        final(buffer)@ == old(buffer)@ + u32_le(v),
{
    buffer.push((v % 256) as u8);
    buffer.push(((v / 256) % 256) as u8);
    buffer.push(((v / 65536) % 256) as u8);
    buffer.push((v / 16777216) as u8);
    assert(final(buffer)@ =~= old(buffer)@ + u32_le(v));
}

fn read_u32_le(bytes: &[u8], at: usize) -> (r: u32)
    requires
        at + 4 <= bytes@.len(),
    ensures
        r == u32_of(bytes@[at as int], bytes@[at + 1], bytes@[at + 2], bytes@[at + 3]),
{
    let b0 = bytes[at] as u32;
    let b1 = bytes[at + 1] as u32;
    let b2 = bytes[at + 2] as u32;
    let b3 = bytes[at + 3] as u32;
    b0 + 256 * b1 + 65536 * b2 + 16777216 * b3
}

impl Header {
    /// A header with the magic string and the given fields.
    pub fn new(payload_size: u32, msg_type: u32) -> (r: Self)
        ensures
            r.magic@ == magic_spec(),
            r.payload_size == payload_size,
            r.msg_type == msg_type,
    {
        let magic: [u8; 6] = [0x69u8, 0x33u8, 0x2du8, 0x69u8, 0x70u8, 0x63u8];
        assert(magic@ =~= magic_spec());
        Header { magic, payload_size, msg_type }
    }

    /// Reads a header from the first bytes of `bytes`.
    pub fn from_bytes(bytes: &[u8]) -> (r: Self)
        requires
            bytes@.len() >= HEADER_SIZE,
        ensures
            r.magic@ == bytes@.subrange(0, 6),
            r.payload_size == u32_of(bytes@[6], bytes@[7], bytes@[8], bytes@[9]),
            r.msg_type == u32_of(bytes@[10], bytes@[11], bytes@[12], bytes@[13]),
    {
        let magic: [u8; 6] = [bytes[0], bytes[1], bytes[2], bytes[3], bytes[4], bytes[5]];
        assert(magic@ =~= bytes@.subrange(0, 6));
        let payload_size = read_u32_le(bytes, 6);
        let msg_type = read_u32_le(bytes, 10);
        Header { magic, payload_size, msg_type }
    }

    /// The bytes of this header on the wire.
    pub fn to_bytes(&self) -> (r: Vec<u8>)
        ensures
            r@ == header_bytes(*self),
    {
        let mut buffer: Vec<u8> = Vec::new();
        let mut i: usize = 0;
        while i < 6
            invariant
                i <= 6,
                buffer@ =~= self.magic@.take(i as int),
            decreases 6 - i,
        {
            buffer.push(self.magic[i]);
            i = i + 1;
        }
        assert(self.magic@.take(6) =~= self.magic@);
        push_u32_le(&mut buffer, self.payload_size);
        push_u32_le(&mut buffer, self.msg_type);
        buffer
    }

    /// Whether the header opens with the magic string.
    pub fn has_magic(&self) -> (r: bool)
        ensures
            r == (self.magic@ == magic_spec()),
    {
        let expected = Header::new(0, 0);
        let mut i: usize = 0;
        while i < 6
            invariant
                i <= 6,
                expected.magic@ == magic_spec(),
                forall|k: int| 0 <= k < i ==> self.magic@[k] == magic_spec()[k],
            decreases 6 - i,
        {
            if self.magic[i] != expected.magic[i] {
                return false;
            }
            i = i + 1;
        }
        assert(self.magic@ =~= magic_spec());
        true
    }
}

/// The message that sends `payload` as a request of type `request_type`: a header with the
/// payload's size in bytes and the request's number, then the payload's bytes.
pub fn pack(request_type: Request, payload: &str) -> (r: Vec<u8>)
    requires
        payload.spec_bytes().len() <= u32::MAX,
    ensures
        r@ == magic_spec() + u32_le(payload.spec_bytes().len() as u32) + u32_le(
            request_code(request_type),
        ) + payload.spec_bytes(),
{
    let header = Header::new(payload.len() as u32, request_type.code());
    let mut buffer = header.to_bytes();
    let bytes = payload.as_bytes();
    let mut i: usize = 0;
    let ghost start = buffer@;
    while i < bytes.len()
        invariant
            i <= bytes@.len(),
            buffer@ =~= start + bytes@.take(i as int),
        decreases bytes@.len() - i,
    {
        buffer.push(bytes[i]);
        i = i + 1;
    }
    assert(bytes@.take(i as int) =~= bytes@);
    buffer
}

} // verus!
