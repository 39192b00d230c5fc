use vstd::prelude::*;
use vstd::string::StringExecFns;

use crate::config::ServerConfig;
use crate::model::json::{fields_view, lemma_object_view, Json, JsonView};

verus! {

/// The server that clients connect to.
#[derive(Debug)]
pub struct Server {
    pub port: u16,
}

impl Server {
    /// A server on the port of `config`.
    pub fn new(config: ServerConfig) -> (r: Server)
        ensures
            r.port == config.port,
    {
        let ServerConfig { port } = config;
        Server { port }
    }
}

/// The four bytes, big-endian, of `n`.
pub open spec fn be_bytes(n: u32) -> Seq<u8> {
    seq![(n / 0x1000000) as u8, ((n / 0x10000) % 0x100) as u8, ((n / 0x100) % 0x100) as u8, (n % 0x100) as u8]
}

/// The number that four big-endian bytes write.
pub open spec fn be_value(b: Seq<u8>) -> int {
    b[0] * 0x1000000 + b[1] * 0x10000 + b[2] * 0x100 + b[3]
}

/// A message as it goes over the connection: its length in four big-endian bytes
/// (the length's low 32 bits), then its bytes.
pub open spec fn framed(payload: Seq<u8>) -> Seq<u8> {
    be_bytes((payload.len() % 0x1_0000_0000) as u32) + payload
}

/// Frames a message: its length in four big-endian bytes, then its bytes.
pub fn frame(payload: &[u8]) -> (r: Vec<u8>)
    ensures
        r@ == framed(payload@),
{
    let n = (payload.len() as u64 % 0x1_0000_0000u64) as u32;
    let mut r: Vec<u8> = Vec::new();
    r.push((n / 0x1000000) as u8);
    r.push(((n / 0x10000) % 0x100) as u8);
    r.push(((n / 0x100) % 0x100) as u8);
    r.push((n % 0x100) as u8);
    let mut i: usize = 0;
    while i < payload.len()
        invariant
            i <= payload@.len(),
            r@ == be_bytes(n) + payload@.take(i as int),
        decreases payload@.len() - i,
    {
        r.push(payload[i]);
        assert(payload@.take(i + 1) =~= payload@.take(i as int).push(payload@[i as int]));
        assert(r@ =~= be_bytes(n) + payload@.take(i + 1));
        i = i + 1;
    }
    assert(payload@.take(payload@.len() as int) =~= payload@);
    r
}

/// The length that the four bytes before a message announce.
pub fn message_len(b: [u8; 4]) -> (r: u32)
    ensures
        r == be_value(b@),
{
    let r = (b[0] as u32) * 0x1000000 + (b[1] as u32) * 0x10000 + (b[2] as u32) * 0x100 + (b[3] as u32);
    r
}

/// Reading back the length of a framed message gives the message's length.
pub proof fn lemma_frame_len_roundtrip(n: u32)
    ensures
        be_value(be_bytes(n)) == n,
{
    let b = be_bytes(n);
    assert(b[0] == n / 0x1000000);
    assert(b[1] == (n / 0x10000) % 0x100);
    assert(b[2] == (n / 0x100) % 0x100);
    assert(b[3] == n % 0x100);
    assert((n / 0x1000000) * 0x1000000 + ((n / 0x10000) % 0x100) * 0x10000 + ((n / 0x100) % 0x100) * 0x100 + n % 0x100 == n) by (nonlinear_arith);
}

/// The first message to a client: `{"version": version}`.
pub fn welcome(version: &str) -> (r: Json)
    ensures
        r@ == JsonView::Object(seq![("version"@, JsonView::Str(version@))]),
{
    let mut fields: Vec<(String, Json)> = Vec::new();
    fields.push((String::from_str("version"), Json::Str(String::from_str(version))));
    let r = Json::Object(fields);
    proof {
        lemma_object_view(&r, fields);
        assert(fields_view(fields@) =~= seq![("version"@, JsonView::Str(version@))]);
    }
    r
}

} // verus!
