//! The answer of the captive DNS server that runs while the device offers its
//! own access point: every query is answered with the device's address.
use vstd::prelude::*;

verus! {

/// The answer record appended to the query: a pointer to the queried name, type A,
/// class IN, a TTL of 60 seconds and the four address bytes.
pub open spec fn answer_record(addr: Seq<u8>) -> Seq<u8> {
    seq![0xc0u8, 0x0cu8, 0x00u8, 0x01u8, 0x00u8, 0x01u8, 0x00u8, 0x00u8, 0x00u8, 0x3cu8, 0x00u8, 0x04u8]
        + addr
}

/// The query header turned into that of a response with one answer: the QR bit and
/// the top bit of the flags' second byte set, the answer count set to one.
pub open spec fn response_header(query: Seq<u8>) -> Seq<u8> {
    query.update(2, query[2] | 0x80u8).update(3, query[3] | 0x80u8).update(6, 0u8).update(7, 1u8)
}

/// Answers a DNS query with the server's own IPv4 address.
pub fn build_dns_response(query: &[u8], server_addr: &[u8; 4]) -> (r: Vec<u8>)
    requires
        query@.len() >= 8,
    ensures
        r@ == response_header(query@) + answer_record(server_addr@),
{
    let mut resp: Vec<u8> = Vec::new();
    let n = query.len();
    let mut i: usize = 0;
    while i < n
        invariant
            n == query@.len(),
            i <= n,
            resp@ == query@.take(i as int),
        decreases n - i,
    {
        resp.push(query[i]);
        assert(resp@ =~= query@.take(i + 1));
        i = i + 1;
    }
    assert(resp@ =~= query@);
    let b2 = resp[2] | 0x80;
    resp.set(2, b2);
    let b3 = resp[3] | 0x80;
    resp.set(3, b3);
    resp.set(6, 0x00);
    resp.set(7, 0x01);
    let tail: [u8; 12] = [0xc0, 0x0c, 0x00, 0x01, 0x00, 0x01, 0x00, 0x00, 0x00, 0x3c, 0x00, 0x04];
    let ghost head = resp@;
    let mut j: usize = 0;
    while j < 12
        invariant
            j <= 12,
            resp@ == head + tail@.take(j as int),
        decreases 12 - j,
    {
        resp.push(tail[j]);
        assert(resp@ =~= head + tail@.take(j + 1));
        j = j + 1;
    }
    let mut k: usize = 0;
    let ghost with_tail = resp@;
    while k < 4
        invariant
            k <= 4,
            resp@ == with_tail + server_addr@.take(k as int),
        decreases 4 - k,
    {
        resp.push(server_addr[k]);
        assert(resp@ =~= with_tail + server_addr@.take(k + 1));
        k = k + 1;
    }
    assert(tail@.take(12) =~= tail@);
    assert(server_addr@.take(4) =~= server_addr@);
    assert(resp@ =~= response_header(query@) + answer_record(server_addr@));
    resp
}

} // verus!
