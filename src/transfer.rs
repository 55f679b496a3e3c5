//! Chunked memory writes: a buffer goes out as consecutive memory write
//! packets of at most `MAX_CHUNK` bytes each, at consecutive addresses.
use vstd::prelude::*;
use crate::checksum::le_bytes;
use crate::command::Command;
use crate::packet::{build, frame, packet_of, Request, ValidationError, MAX_CHUNK};
use crate::reply::{Outcome, Reply, ReplyError, ReplyModel};

verus! {

/// Number of chunks for a buffer of `len` bytes.
pub open spec fn chunk_count(len: nat) -> nat {
    ((len + 127) / 128) as nat
}

/// Offset of chunk `i` in the buffer.
pub open spec fn chunk_offset(i: nat) -> nat {
    128 * i
}

/// The bytes of chunk `i` of `data`.
pub open spec fn chunk_data(data: Seq<u8>, i: nat) -> Seq<u8> {
    let start = chunk_offset(i) as int;
    let end = if start + 128 <= data.len() {
        start + 128
    } else {
        data.len() as int
    };
    data.subrange(start, end)
}

/// Address field of chunk `i` of a transfer that starts at `base`.
pub open spec fn chunk_address(base: u32, i: nat) -> u32 {
    (base + chunk_offset(i)) as u32
}

/// The packet of chunk `i` of writing `data` at `base`.
pub open spec fn chunk_packet(base: u32, data: Seq<u8>, i: nat) -> Seq<u8> {
    frame(
        Command::MemoryWrite.opcode_spec(),
        le_bytes(chunk_address(base, i)).push(chunk_data(data, i).len() as u8) + chunk_data(
            data,
            i,
        ),
    )
}

/// Total length of the first `k` chunks.
pub open spec fn sent_before(data: Seq<u8>, k: nat) -> nat
    decreases k,
{
    if k == 0 {
        0
    } else {
        sent_before(data, (k - 1) as nat) + chunk_data(data, (k - 1) as nat).len()
    }
}

/// Whether writing `len` bytes at `base` stays inside the 32-bit address
/// space.
pub open spec fn fits(base: u32, len: nat) -> bool {
    base + len <= 0x1_0000_0000
}

proof fn lemma_chunk_bounds(len: nat, i: nat)
    ensures
        i < chunk_count(len) <==> 128 * i < len,
{
    assert(i < chunk_count(len) <==> 128 * i < len) by (nonlinear_arith);
}

proof fn lemma_sent_before(data: Seq<u8>, k: nat)
    requires
        k <= chunk_count(data.len()),
    ensures
        sent_before(data, k) == if 128 * k <= data.len() {
            128 * k
        } else {
            data.len()
        },
    decreases k,
{
    if k > 0 {
        lemma_sent_before(data, (k - 1) as nat);
        lemma_chunk_bounds(data.len(), (k - 1) as nat);
    }
}

/// Splitting `data` into chunks: there are `ceil(len / 128)` of them, all
/// but the last exactly 128 bytes long, the last one not empty; together they
/// make up `data` in order, their lengths add up to its length, and each
/// chunk's address is the base address plus the lengths of the chunks
/// before it.
pub proof fn lemma_chunking(base: u32, data: Seq<u8>)
    requires
        fits(base, data.len()),
    ensures
        chunk_count(data.len()) * 128 >= data.len(),
        chunk_count(data.len()) * 128 < data.len() + 128,
        forall|i: nat| #![trigger chunk_data(data, i)]
            i + 1 < chunk_count(data.len()) ==> chunk_data(data, i).len() == 128,
        forall|i: nat| #![trigger chunk_data(data, i)]
            i < chunk_count(data.len()) ==> 0 < chunk_data(data, i).len() <= 128
                && chunk_data(data, i) == data.subrange(
                sent_before(data, i) as int,
                (sent_before(data, i) + chunk_data(data, i).len()) as int,
            ),
        sent_before(data, chunk_count(data.len())) == data.len(),
        forall|i: nat| #![trigger chunk_address(base, i)]
            i < chunk_count(data.len()) ==> chunk_address(base, i) == base + sent_before(data, i),
{
    let n = chunk_count(data.len());
    let len = data.len();
    assert(n * 128 >= len && n * 128 < len + 128) by (nonlinear_arith)
        requires
            n == (len + 127) / 128,
    ;
    assert forall|i: nat| #![trigger chunk_data(data, i)]
        i + 1 < chunk_count(data.len()) implies chunk_data(data, i).len() == 128 by {
        lemma_chunk_bounds(len, i + 1);
    }
    assert forall|i: nat| #![trigger chunk_data(data, i)]
        i < chunk_count(data.len()) implies 0 < chunk_data(data, i).len() <= 128
            && chunk_data(data, i) == data.subrange(
            sent_before(data, i) as int,
            (sent_before(data, i) + chunk_data(data, i).len()) as int,
        ) by {
        lemma_chunk_bounds(len, i);
        lemma_sent_before(data, i);
    }
    lemma_sent_before(data, n);
    assert forall|i: nat| #![trigger chunk_address(base, i)]
        i < chunk_count(data.len()) implies chunk_address(base, i) == base + sent_before(
            data,
            i,
        ) by {
        lemma_chunk_bounds(len, i);
        lemma_sent_before(data, i);
    }
}

/// Builds the memory write packets that deliver `bytes` to `base_address`
/// and on, one per chunk, in order. A transfer that would run past the end of
/// the 32-bit address space is refused.
pub fn write_memory(base_address: u32, bytes: &[u8]) -> (r: Result<
    Vec<Vec<u8>>,
    ValidationError,
>)
    ensures
        r is Err <==> !fits(base_address, bytes@.len()),
        r matches Err(e) ==> e == ValidationError::AddressOverflow,
        r matches Ok(ps) ==> ps@.len() == chunk_count(bytes@.len()) && forall|i: int|
            0 <= i < ps@.len() ==> #[trigger] ps@[i]@ == chunk_packet(
                base_address,
                bytes@,
                i as nat,
            ),
{
    let len = bytes.len();
    if len as u64 > 0x1_0000_0000u64 - base_address as u64 {
        return Err(ValidationError::AddressOverflow);
    }
    let ghost n = chunk_count(len as nat);
    let mut packets: Vec<Vec<u8>> = Vec::new();
    let mut sent: usize = 0;
    let mut k: usize = 0;
    while sent < len
        invariant
            len == bytes@.len(),
            fits(base_address, len as nat),
            sent <= len,
            k <= n,
            n == chunk_count(len as nat),
            sent == 128 * k || (sent == len && k == n),
            sent < len ==> k < n,
            packets@.len() == k,
            forall|i: int|
                0 <= i < k ==> #[trigger] packets@[i]@ == chunk_packet(
                    base_address,
                    bytes@,
                    i as nat,
                ),
        decreases len - sent,
    {
        proof {
            lemma_chunk_bounds(len as nat, k as nat);
            lemma_chunk_bounds(len as nat, (k + 1) as nat);
        }
        let size: usize = if len - sent >= MAX_CHUNK {
            MAX_CHUNK
        } else {
            len - sent
        };
        let mut chunk: Vec<u8> = Vec::new();
        let mut j: usize = sent;
        while j < sent + size
            invariant
                sent + size <= len == bytes@.len(),
                sent <= j <= sent + size,
                chunk@ == bytes@.subrange(sent as int, j as int),
            decreases sent + size - j,
        {
            chunk.push(bytes[j]);
            assert(chunk@ =~= bytes@.subrange(sent as int, j as int + 1));
            j = j + 1;
        }
        let address = base_address + sent as u32;
        let req = Request::MemoryWrite { address, data: chunk };
        assert(chunk@ == chunk_data(bytes@, k as nat));
        let packet = match build(&req) {
            Ok(p) => p,
            Err(_) => {
                assert(false);
                Vec::new()
            },
        };
        assert(packet@ == chunk_packet(base_address, bytes@, k as nat));
        packets.push(packet);
        sent = sent + size;
        k = k + 1;
        assert(sent == 128 * k || (sent == len && k == n));
    }
    Ok(packets)
}

/// What a chunked write does after a chunk that failed.
#[derive(PartialEq, Eq, Structural, Clone, Copy, Debug)]
pub enum FailurePolicy {
    /// Send the remaining chunks anyway.
    Continue,
    /// Send no further chunk.
    Abort,
}

/// Whether the write goes on after a chunk's reply `result`.
pub fn continue_after(policy: FailurePolicy, result: &Result<Reply, ReplyError>) -> (r: bool)
    ensures
        r == (policy == FailurePolicy::Continue || (result matches Ok(reply) && reply@
            == ReplyModel::MemoryWrite(Outcome::Success))),
{
    match policy {
        FailurePolicy::Continue => true,
        FailurePolicy::Abort => match result {
            Ok(Reply::MemoryWrite(Outcome::Success)) => true,
            _ => false,
        },
    }
}

} // verus!
