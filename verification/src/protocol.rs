//! Binary protocol spoken over the WebSocket between the browser terminal and
//! the PTY server.
//!
//! Wire format:
//! - `0x00` + bytes        = PTY data (both directions)
//! - `0x01` + 4x u16 LE    = resize (client to server): cols, rows, cell_w, cell_h
//! - `0x02` + optional u8  = child exited (server to client), with optional exit code
use vstd::prelude::*;

verus! {

/// Tag of a PTY data message.
pub const MSG_DATA: u8 = 0x00;

/// Tag of a resize message.
pub const MSG_RESIZE: u8 = 0x01;

/// Tag of a child-exited message.
pub const MSG_EXIT: u8 = 0x02;

/// Smallest and largest column count a resize request is clamped to.
pub const MIN_COLS: u16 = 1;
pub const MAX_COLS: u16 = 500;

/// Smallest and largest row count a resize request is clamped to.
pub const MIN_ROWS: u16 = 1;
pub const MAX_ROWS: u16 = 200;

/// A parsed message from the client.
#[derive(Debug)]
pub enum ClientMessage {
    /// PTY input data.
    Data(Vec<u8>),
    /// Resize request: (cols, rows, cell_width, cell_height).
    Resize { cols: u16, rows: u16, cell_w: u16, cell_h: u16 },
}

/// Mathematical form of a client message.
pub enum ClientMessageModel {
    Data(Seq<u8>),
    Resize { cols: u16, rows: u16, cell_w: u16, cell_h: u16 },
}

impl View for ClientMessage {
    type V = ClientMessageModel;

    open spec fn view(&self) -> ClientMessageModel {
        match self {
            ClientMessage::Data(bytes) => ClientMessageModel::Data(bytes@),
            ClientMessage::Resize { cols, rows, cell_w, cell_h } => ClientMessageModel::Resize {
                cols: *cols,
                rows: *rows,
                cell_w: *cell_w,
                cell_h: *cell_h,
            },
        }
    }
}

/// The model of an optional message.
pub open spec fn option_model(m: Option<ClientMessage>) -> Option<ClientMessageModel> {
    match m {
        Some(msg) => Some(msg@),
        None => None,
    }
}

/// The value of two bytes read as a little-endian u16.
pub open spec fn le_u16(lo: u8, hi: u8) -> u16 {
    (lo + 256 * hi) as u16
}

/// The two little-endian bytes of a u16.
pub open spec fn le_bytes(v: u16) -> Seq<u8> {
    seq![(v % 256) as u8, (v / 256) as u8]
}

/// `v` clamped into `lo..=hi`.
pub open spec fn clamp(v: int, lo: int, hi: int) -> int {
    if v < lo {
        lo
    } else if v > hi {
        hi
    } else {
        v
    }
}

/// What a binary client message means: `None` for an empty message, an
/// unknown tag or a resize message shorter than nine bytes; bytes past the
/// ninth of a resize message are ignored.
pub open spec fn parse_spec(data: Seq<u8>) -> Option<ClientMessageModel> {
    if data.len() == 0 {
        None
    } else if data[0] == MSG_DATA {
        Some(ClientMessageModel::Data(data.drop_first()))
    } else if data[0] == MSG_RESIZE {
        if data.len() < 9 {
            None
        } else {
            Some(
                ClientMessageModel::Resize {
                    cols: clamp(le_u16(data[1], data[2]) as int, MIN_COLS as int, MAX_COLS as int)
                        as u16,
                    rows: clamp(le_u16(data[3], data[4]) as int, MIN_ROWS as int, MAX_ROWS as int)
                        as u16,
                    cell_w: le_u16(data[5], data[6]),
                    cell_h: le_u16(data[7], data[8]),
                },
            )
        }
    } else {
        None
    }
}

/// Read a little-endian u16 at `data[i]`, `data[i + 1]`.
fn read_le_u16(data: &[u8], i: usize) -> (v: u16)
    requires
        i + 1 < data@.len(),
    ensures
        v == le_u16(data@[i as int], data@[i + 1]),
{
    data[i] as u16 + (data[i + 1] as u16) * 256
}

/// `v` clamped into `lo..=hi`.
fn clamp_u16(v: u16, lo: u16, hi: u16) -> (r: u16)
    requires
        lo <= hi,
    ensures
        r == clamp(v as int, lo as int, hi as int),
{
    if v < lo {
        lo
    } else if v > hi {
        hi
    } else {
        v
    }
}

/// Parse a binary WebSocket message from the client.
pub fn parse_client_message(data: &[u8]) -> (r: Option<ClientMessage>)
    ensures
        option_model(r) == parse_spec(data@),
{
    if data.len() == 0 {
        return None;
    }
    if data[0] == MSG_DATA {
        let mut payload: Vec<u8> = Vec::with_capacity(data.len() - 1);
        let mut i: usize = 1;
        while i < data.len()
            invariant
                1 <= i <= data@.len(),
                payload@ == data@.subrange(1, i as int),
            decreases data@.len() - i,
        {
            payload.push(data[i]);
            i = i + 1;
        }
        assert(payload@ =~= data@.drop_first());
        Some(ClientMessage::Data(payload))
    } else if data[0] == MSG_RESIZE {
        if data.len() < 9 {
            // One tag byte and four u16 values make nine bytes.
            return None;
        }
        let raw_cols = read_le_u16(data, 1);
        let raw_rows = read_le_u16(data, 3);
        let cell_w = read_le_u16(data, 5);
        let cell_h = read_le_u16(data, 7);
        // Clamping keeps a client from asking for an absurd PTY size.
        let cols = clamp_u16(raw_cols, MIN_COLS, MAX_COLS);
        let rows = clamp_u16(raw_rows, MIN_ROWS, MAX_ROWS);
        Some(ClientMessage::Resize { cols, rows, cell_w, cell_h })
    } else {
        None
    }
}

/// Build a PTY data message: the data tag followed by the payload.
pub fn encode_data(payload: &[u8]) -> (msg: Vec<u8>)
    ensures
        msg@ == seq![MSG_DATA] + payload@,
{
    let mut msg: Vec<u8> = Vec::with_capacity(1);
    msg.push(MSG_DATA);
    let mut i: usize = 0;
    while i < payload.len()
        invariant
            i <= payload@.len(),
            msg@ == seq![MSG_DATA] + payload@.subrange(0, i as int),
        decreases payload@.len() - i,
    {
        msg.push(payload[i]);
        i = i + 1;
        assert(msg@ =~= seq![MSG_DATA] + payload@.subrange(0, i as int));
    }
    assert(payload@.subrange(0, payload@.len() as int) =~= payload@);
    msg
}

/// Build a child-exited message, with the exit code when there is one.
pub fn encode_exit(exit_code: Option<u8>) -> (msg: Vec<u8>)
    ensures
        msg@ == match exit_code {
            Some(code) => seq![MSG_EXIT, code],
            None => seq![MSG_EXIT],
        },
{
    let mut msg: Vec<u8> = Vec::with_capacity(2);
    msg.push(MSG_EXIT);
    match exit_code {
        Some(code) => {
            msg.push(code);
        },
        None => {},
    }
    assert(msg@ =~= match exit_code {
        Some(code) => seq![MSG_EXIT, code],
        None => seq![MSG_EXIT],
    });
    msg
}

/// Push the two little-endian bytes of `v`.
fn push_le_u16(msg: &mut Vec<u8>, v: u16)
    ensures
        final(msg)@ == old(msg)@ + le_bytes(v),
{
    msg.push((v % 256) as u8);
    msg.push((v / 256) as u8);
    assert(final(msg)@ =~= old(msg)@ + le_bytes(v));
}

/// Build a resize message: the resize tag followed by the four values as
/// little-endian u16.
pub fn encode_resize(cols: u16, rows: u16, cell_w: u16, cell_h: u16) -> (msg: Vec<u8>)
    ensures
        msg@ == seq![MSG_RESIZE] + le_bytes(cols) + le_bytes(rows) + le_bytes(cell_w) + le_bytes(
            cell_h,
        ),
{
    let mut msg: Vec<u8> = Vec::with_capacity(9);
    msg.push(MSG_RESIZE);
    push_le_u16(&mut msg, cols);
    push_le_u16(&mut msg, rows);
    push_le_u16(&mut msg, cell_w);
    push_le_u16(&mut msg, cell_h);
    msg
}

/// Reading back the little-endian bytes of a value gives the value.
pub proof fn lemma_le_u16_roundtrip(v: u16)
    ensures
        le_u16(le_bytes(v)[0], le_bytes(v)[1]) == v,
{
}

/// A data message carries its payload unchanged: parsing what
/// `encode_data` built gives back the payload.
pub proof fn law_data_roundtrip(payload: Seq<u8>)
    ensures
        parse_spec(seq![MSG_DATA] + payload) == Some(ClientMessageModel::Data(payload)),
{
    assert((seq![MSG_DATA] + payload).drop_first() =~= payload);
}

/// A resize message that the client built is read back by the server with
/// its columns clamped into `1..=500`, its rows into `1..=200` and its cell
/// size unchanged.
pub proof fn law_resize_roundtrip(cols: u16, rows: u16, cell_w: u16, cell_h: u16)
    ensures
        parse_spec(
            seq![MSG_RESIZE] + le_bytes(cols) + le_bytes(rows) + le_bytes(cell_w) + le_bytes(
                cell_h,
            ),
        ) == Some(
            ClientMessageModel::Resize {
                cols: clamp(cols as int, MIN_COLS as int, MAX_COLS as int) as u16,
                rows: clamp(rows as int, MIN_ROWS as int, MAX_ROWS as int) as u16,
                cell_w,
                cell_h,
            },
        ),
{
    let m = seq![MSG_RESIZE] + le_bytes(cols) + le_bytes(rows) + le_bytes(cell_w) + le_bytes(
        cell_h,
    );
    assert(m.len() == 9);
    assert(m[1] == le_bytes(cols)[0] && m[2] == le_bytes(cols)[1]);
    assert(m[3] == le_bytes(rows)[0] && m[4] == le_bytes(rows)[1]);
    assert(m[5] == le_bytes(cell_w)[0] && m[6] == le_bytes(cell_w)[1]);
    assert(m[7] == le_bytes(cell_h)[0] && m[8] == le_bytes(cell_h)[1]);
}

/// Every parsed resize lies within the clamp bounds.
pub proof fn law_resize_within_bounds(data: Seq<u8>)
    ensures
        parse_spec(data) matches Some(ClientMessageModel::Resize { cols, rows, .. }) ==> {
            &&& MIN_COLS <= cols <= MAX_COLS
            &&& MIN_ROWS <= rows <= MAX_ROWS
        },
{
}

} // verus!
