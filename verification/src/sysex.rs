//! Roland System Exclusive messages: the data-set (DT1) frame and its checksum.
use vstd::prelude::*;

verus! {

/// Sum of a byte sequence, as a mathematical integer.
pub open spec fn byte_sum(s: Seq<u8>) -> int
    decreases s.len(),
{
    if s.len() == 0 {
        0
    } else {
        byte_sum(s.drop_last()) + s.last() as int
    }
}

/// The Roland checksum of `s`: the value that brings the sum of `s` to a
/// multiple of 128.
pub open spec fn checksum_of(s: Seq<u8>) -> u8 {
    let rem = byte_sum(s) % 128;
    if rem == 0 {
        0u8
    } else {
        (128 - rem) as u8
    }
}

/// The fixed start of a data-set message to a Katana MkII: exclusive status,
/// Roland manufacturer id, device id, the model id and the DT1 command.
pub open spec fn sysex_header() -> Seq<u8> {
    seq![0xF0u8, 0x41u8, 0x00u8, 0x00u8, 0x00u8, 0x00u8, 0x33u8, 0x12u8]
}

/// The complete data-set message for `address` and `payload`.
pub open spec fn sysex_message(address: Seq<u8>, payload: Seq<u8>) -> Seq<u8> {
    sysex_header() + address + payload + seq![checksum_of(address + payload), 0xF7u8]
}

/// Roland checksum of `payload`: `0` when the byte sum is a multiple of
/// 128, else `128` minus the sum modulo 128.
pub fn roland_checksum(payload: &[u8]) -> (cs: u8)
    ensures
        cs == checksum_of(payload@),
{
    let mut acc: u32 = 0;
    let mut i: usize = 0;
    while i < payload.len()
        invariant
            i <= payload@.len(),
            acc < 128,
            acc as int == byte_sum(payload@.take(i as int)) % 128,
        decreases payload@.len() - i,
    {
        proof {
            assert(payload@.take(i + 1).drop_last() =~= payload@.take(i as int));
            let s = byte_sum(payload@.take(i as int));
            assert((s % 128 + payload@[i as int] as int) % 128 == (s + payload@[i as int] as int) % 128)
                by (nonlinear_arith);
        }
        acc = (acc + payload[i] as u32) % 128;
        i = i + 1;
    }
    assert(payload@.take(payload@.len() as int) =~= payload@);
    if acc == 0 {
        0
    } else {
        (128 - acc) as u8
    }
}

/// Data-set message to the amplifier: the Katana MkII header, the four
/// address bytes, the payload, the Roland checksum of address and payload,
/// and the end-of-exclusive byte.
pub fn build_sysex(address: [u8; 4], payload_data: &[u8]) -> (msg: Vec<u8>)
    ensures
        msg@ == sysex_message(address@, payload_data@),
{
    let mut msg: Vec<u8> = vec![0xF0, 0x41, 0x00, 0x00, 0x00, 0x00, 0x33, 0x12];
    let mut checksum_payload: Vec<u8> = Vec::new();
    let mut k: usize = 0;
    while k < 4
        invariant
            k <= 4,
            checksum_payload@ == address@.take(k as int),
        decreases 4 - k,
    {
        checksum_payload.push(address[k]);
        k = k + 1;
        assert(checksum_payload@ =~= address@.take(k as int));
    }
    assert(address@.take(4) =~= address@);
    let mut j: usize = 0;
    while j < payload_data.len()
        invariant
            j <= payload_data@.len(),
            checksum_payload@ == address@ + payload_data@.take(j as int),
        decreases payload_data@.len() - j,
    {
        checksum_payload.push(payload_data[j]);
        j = j + 1;
        assert(checksum_payload@ =~= address@ + payload_data@.take(j as int));
    }
    assert(payload_data@.take(payload_data@.len() as int) =~= payload_data@);
    let mut m: usize = 0;
    while m < checksum_payload.len()
        invariant
            m <= checksum_payload@.len(),
            msg@ == sysex_header() + checksum_payload@.take(m as int),
        decreases checksum_payload@.len() - m,
    {
        msg.push(checksum_payload[m]);
        m = m + 1;
        assert(msg@ =~= sysex_header() + checksum_payload@.take(m as int));
    }
    assert(checksum_payload@.take(checksum_payload@.len() as int) =~= checksum_payload@);
    let cs = roland_checksum(checksum_payload.as_slice());
    msg.push(cs);
    msg.push(0xF7);
    assert(msg@ =~= sysex_message(address@, payload_data@));
    msg
}

/// The checksum is a 7-bit value, and adding it to the checksummed bytes
/// gives a sum that is a multiple of 128.
pub proof fn lemma_checksum_closes_sum(s: Seq<u8>)
    ensures
        checksum_of(s) < 128,
        (byte_sum(s) + checksum_of(s) as int) % 128 == 0,
{
}

/// Every data-set message is framed: it starts with the exclusive status
/// and the Katana MkII header, carries the address and the payload in
/// order, and ends with the end-of-exclusive byte; the bytes from the
/// address up to the checksum sum to a multiple of 128, which is what the
/// receiver checks.
pub proof fn lemma_sysex_message_framed(address: Seq<u8>, payload: Seq<u8>)
    requires
        address.len() == 4,
    ensures
        ({
            let msg = sysex_message(address, payload);
            &&& msg.len() == 14 + payload.len()
            &&& msg[0] == 0xF0u8
            &&& msg[msg.len() - 1] == 0xF7u8
            &&& msg.subrange(0, 8) == sysex_header()
            &&& msg.subrange(8, 12) == address
            &&& msg.subrange(12, 12 + payload.len() as int) == payload
            &&& msg[12 + payload.len() as int] == checksum_of(address + payload)
            &&& byte_sum(msg.subrange(8, msg.len() - 1)) % 128 == 0
        }),
{
    let msg = sysex_message(address, payload);
    let data = address + payload;
    assert(msg.subrange(0, 8) =~= sysex_header());
    assert(msg.subrange(8, 12) =~= address);
    assert(msg.subrange(12, 12 + payload.len() as int) =~= payload);
    let body = msg.subrange(8, msg.len() - 1);
    assert(body =~= data.push(checksum_of(data)));
    assert(body.drop_last() =~= data);
    lemma_checksum_closes_sum(data);
}

} // verus!
