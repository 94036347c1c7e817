use vstd::prelude::*;

verus! {

#[verifier::external_type_specification]
#[verifier::external_body]
pub struct ExSystemTime(std::time::SystemTime);

/// Calls `std::time::SystemTime::now`. Nothing is claimed of the value: it
/// is the machine's clock.
#[verifier::external_body]
fn system_now() -> std::time::SystemTime {
    std::time::SystemTime::now()
}

/// Calls `SystemTime::duration_since(UNIX_EPOCH)` on `t` and gives the
/// elapsed time in whole milliseconds (`Duration::as_millis`), or `None`
/// where `t` is earlier than the epoch (the call's error). Nothing is claimed
/// of the value: `t` is opaque here.
#[verifier::external_body]
fn millis_since_epoch(t: &std::time::SystemTime) -> Option<u128> {
    match t.duration_since(std::time::UNIX_EPOCH) {
        Ok(d) => Some(d.as_millis()),
        Err(_) => None,
    }
}

/// Milliseconds elapsed since the Unix epoch on the system clock, or `None`
/// where the clock reads earlier than the epoch.
pub fn get_millis() -> Option<u128> {
    let now = system_now();
    millis_since_epoch(&now)
}

/// The clock in milliseconds, cut to an `i64` the way `as` cuts it, or
/// `None` where the clock reads earlier than the epoch.
pub fn get_millis_as_i64() -> Option<i64> {
    match get_millis() {
        Some(ms) => Some(millis_to_i64(ms)),
        None => None,
    }
}

/// Cuts a millisecond count to `i64` the way `as` does (keeps the low 64
/// bits).
pub fn millis_to_i64(ms: u128) -> (r: i64)
    ensures
        r == ms as i64,
{
    ms as i64
}

/// Cuts a millisecond count to the 32 bits that a probe record carries.
pub fn millis_to_u32(ms: i64) -> (r: u32)
    ensures
        r == ms as u32,
{
    ms as u32
}

/// Value of the first four bytes of `b`, read as a little-endian number.
pub open spec fn le_u32_value(b: Seq<u8>) -> int
    recommends
        b.len() >= 4,
{
    b[0] + 256 * b[1] + 65536 * b[2] + 16777216 * b[3]
}

/// The four little-endian bytes of `x`.
pub open spec fn u32_le_bytes(x: u32) -> Seq<u8> {
    seq![
        (x % 256) as u8,
        ((x / 256) % 256) as u8,
        ((x / 65536) % 256) as u8,
        ((x / 16777216) % 256) as u8,
    ]
}

/// Reads the first four bytes of `bytes` as a little-endian `u32`.
pub fn bytes_to_u32(bytes: &[u8]) -> (r: Result<u32, &'static str>)
    requires
        bytes@.len() >= 4,
    ensures
        r matches Ok(v) && v == le_u32_value(bytes@),
{
    let v: u32 = bytes[0] as u32 + (bytes[1] as u32) * 256 + (bytes[2] as u32) * 65536
        + (bytes[3] as u32) * 16777216;
    Ok(v)
}

/// Reading back the little-endian bytes of a number gives the number.
pub proof fn lemma_u32_le_roundtrip(x: u32)
    ensures
        u32_le_bytes(x).len() == 4,
        le_u32_value(u32_le_bytes(x)) == x,
{
    let b = u32_le_bytes(x);
    assert(b[0] == x % 256);
    assert(b[1] == (x / 256) % 256);
    assert(b[2] == (x / 65536) % 256);
    assert(b[3] == (x / 16777216) % 256);
    assert(x % 256 + 256 * ((x / 256) % 256) + 65536 * ((x / 65536) % 256) + 16777216 * ((x
        / 16777216) % 256) == x) by (nonlinear_arith)
        requires
            0 <= x < 0x1_0000_0000,
    ;
}

/// The eight little-endian bytes of `x`.
pub open spec fn u64_le_bytes(x: u64) -> Seq<u8> {
    seq![
        (x % 0x100) as u8,
        ((x / 0x100) % 0x100) as u8,
        ((x / 0x1_0000) % 0x100) as u8,
        ((x / 0x100_0000) % 0x100) as u8,
        ((x / 0x1_0000_0000) % 0x100) as u8,
        ((x / 0x100_0000_0000) % 0x100) as u8,
        ((x / 0x1_0000_0000_0000) % 0x100) as u8,
        ((x / 0x100_0000_0000_0000) % 0x100) as u8,
    ]
}

/// The probe record that the client sends and the server echoes back:
/// a sequence number, the sender's clock (milliseconds, truncated to 32
/// bits) and a payload.
pub struct Data {
    pub seq: u32,
    pub ts: u32,
    pub data: Vec<u8>,
}

/// Bytes of a probe record on the wire: `seq` and `ts` as little-endian
/// `u32`, the payload length as a little-endian `u64`, then the payload.
pub open spec fn wire_bytes(seq: u32, ts: u32, payload: Seq<u8>) -> Seq<u8> {
    u32_le_bytes(seq) + u32_le_bytes(ts) + u64_le_bytes(payload.len() as u64) + payload
}

#[verifier::external_type_specification]
#[verifier::external_body]
pub struct ExBincodeErrorKind(bincode::ErrorKind);

/// Calls `bincode::serialize` (bincode 1.x: fixed-width little-endian
/// integers, sequence lengths as `u64`) on the tuple `(seq, ts, payload)`.
/// Claimed: it succeeds, with the bytes `wire_bytes(seq, ts, payload)`. It
/// uses no size limit, writes into a `Vec`, and the payload reports its
/// length, so none of its error paths can be taken.
#[verifier::external_body]
fn bincode_serialize_record(seq: u32, ts: u32, payload: &Vec<u8>) -> (r: Result<
    Vec<u8>,
    Box<bincode::ErrorKind>,
>)
    ensures
        r is Ok,
        r matches Ok(b) ==> b@ == wire_bytes(seq, ts, payload@),
{
    bincode::serialize(&(seq, ts, payload))
}

impl Data {
    /// Encodes the record in the wire format (the same bytes that
    /// `bincode::serialize` gives for the record).
    pub fn encode(&self) -> (r: Vec<u8>)
        ensures
            r@ == wire_bytes(self.seq, self.ts, self.data@),
    {
        match bincode_serialize_record(self.seq, self.ts, &self.data) {
            Ok(b) => b,
            Err(_) => Vec::new(),
        }
    }
}

/// Sequence number and send time carried at the start of a probe record.
#[derive(Debug, Clone, Copy, PartialEq, Eq, Structural)]
pub struct PacketHeader {
    pub seq: u32,
    pub ts: u32,
}

/// Reads the sequence number (bytes 0..4) and the send time (bytes 4..8)
/// of a received probe record.
pub fn parse_header(data: &[u8]) -> (r: PacketHeader)
    requires
        data@.len() >= 8,
    ensures
        r.seq == le_u32_value(data@),
        r.ts == le_u32_value(data@.subrange(4, 8)),
{
    let seq = match bytes_to_u32(&data[0..4]) {
        Ok(n) => n,
        Err(_) => 0,
    };
    let ts = match bytes_to_u32(&data[4..8]) {
        Ok(n) => n,
        Err(_) => 0,
    };
    PacketHeader { seq, ts }
}

/// The header read back from an encoded record is the one written:
/// sequence number and send time survive the trip through the wire format.
pub proof fn lemma_header_of_wire(seq: u32, ts: u32, payload: Seq<u8>)
    requires
        payload.len() <= u64::MAX,
    ensures
        wire_bytes(seq, ts, payload).len() == 16 + payload.len(),
        le_u32_value(wire_bytes(seq, ts, payload)) == seq,
        le_u32_value(wire_bytes(seq, ts, payload).subrange(4, 8)) == ts,
{
    lemma_u32_le_roundtrip(seq);
    lemma_u32_le_roundtrip(ts);
    let w = wire_bytes(seq, ts, payload);
    assert(w.subrange(0, 4) =~= u32_le_bytes(seq));
    assert(w.subrange(4, 8) =~= u32_le_bytes(ts));
    assert(w[0] == u32_le_bytes(seq)[0]);
    assert(w[1] == u32_le_bytes(seq)[1]);
    assert(w[2] == u32_le_bytes(seq)[2]);
    assert(w[3] == u32_le_bytes(seq)[3]);
}

} // verus!
