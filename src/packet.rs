//! Requests with their arguments, their validation, and the packets that
//! carry them: `[wire length][opcode][arguments][checksum, low byte first]`.
use vstd::prelude::*;
use crate::checksum::{checksum, get_crc, le_bytes, u32_le_bytes};
use crate::command::Command;

verus! {

/// Number of flash sectors; sectors are numbered from 0.
pub const FLASH_SECTORS: u8 = 8;

/// Largest payload of one memory write packet.
pub const MAX_CHUNK: usize = 128;

/// Why a command was refused before anything was sent.
#[derive(PartialEq, Eq, Structural, Clone, Copy, Debug)]
pub enum ValidationError {
    /// A sector number outside `0..8`.
    InvalidSector,
    /// More sectors to erase than remain from the base sector.
    TooManySectors,
    /// A protection level other than 1 (write) or 2 (read/write).
    InvalidProtectionLevel,
    /// A memory write payload longer than one chunk.
    ChunkTooLarge,
    /// A transfer that runs past the end of the 32-bit address space.
    AddressOverflow,
    /// Text that is not a hexadecimal 32-bit address.
    InvalidHexAddress,
}

/// A command together with its arguments.
#[derive(Debug)]
pub enum Request {
    GetVersion,
    GetHelp,
    GetDeviceId,
    GetRdpLevel,
    JumpToAddress { address: u32 },
    FlashErase { base_sector: u8, sector_count: u8 },
    MemoryWrite { address: u32, data: Vec<u8> },
    MemoryRead { address: u32, count: u8 },
    SetRwProtection { sector_mask: u8, level: u8 },
    GetRwProtection,
}

impl Request {
    pub open spec fn command_spec(&self) -> Command {
        match self {
            Request::GetVersion => Command::GetVersion,
            Request::GetHelp => Command::GetHelp,
            Request::GetDeviceId => Command::GetDeviceId,
            Request::GetRdpLevel => Command::GetRdpLevel,
            Request::JumpToAddress { .. } => Command::JumpToAddress,
            Request::FlashErase { .. } => Command::FlashErase,
            Request::MemoryWrite { .. } => Command::MemoryWrite,
            Request::MemoryRead { .. } => Command::MemoryRead,
            Request::SetRwProtection { .. } => Command::SetRwProtection,
            Request::GetRwProtection => Command::GetRwProtection,
        }
    }

    /// The command that this request issues.
    pub fn command(&self) -> (r: Command)
        ensures
            r == self.command_spec(),
    {
        match self {
            Request::GetVersion => Command::GetVersion,
            Request::GetHelp => Command::GetHelp,
            Request::GetDeviceId => Command::GetDeviceId,
            Request::GetRdpLevel => Command::GetRdpLevel,
            Request::JumpToAddress { .. } => Command::JumpToAddress,
            Request::FlashErase { .. } => Command::FlashErase,
            Request::MemoryWrite { .. } => Command::MemoryWrite,
            Request::MemoryRead { .. } => Command::MemoryRead,
            Request::SetRwProtection { .. } => Command::SetRwProtection,
            Request::GetRwProtection => Command::GetRwProtection,
        }
    }

    /// Bytes of the payload beyond the command's fixed header length.
    pub open spec fn extra_len(&self) -> nat {
        match self {
            Request::MemoryWrite { data, .. } => data@.len(),
            _ => 0,
        }
    }

    /// The argument bytes that follow the opcode.
    pub open spec fn args_spec(&self) -> Seq<u8> {
        match self {
            Request::JumpToAddress { address } => le_bytes(*address),
            Request::FlashErase { base_sector, sector_count } => seq![*base_sector, *sector_count],
            Request::MemoryWrite { address, data } => le_bytes(*address).push(
                data@.len() as u8,
            ) + data@,
            Request::MemoryRead { address, count } => le_bytes(*address).push(*count),
            Request::SetRwProtection { sector_mask, level } => seq![*sector_mask, *level],
            _ => Seq::empty(),
        }
    }

    /// The first rule that the request breaks, if any.
    pub open spec fn error_spec(&self) -> Option<ValidationError> {
        match self {
            Request::FlashErase { base_sector, sector_count } => if *base_sector >= 8 {
                Some(ValidationError::InvalidSector)
            } else if *sector_count > 8 - *base_sector {
                Some(ValidationError::TooManySectors)
            } else {
                None
            },
            Request::MemoryWrite { data, .. } => if data@.len() > 128 {
                Some(ValidationError::ChunkTooLarge)
            } else {
                None
            },
            Request::SetRwProtection { level, .. } => if *level != 1 && *level != 2 {
                Some(ValidationError::InvalidProtectionLevel)
            } else {
                None
            },
            _ => None,
        }
    }

    /// Checks the arguments against the protocol's ranges.
    pub fn validate(&self) -> (r: Result<(), ValidationError>)
        ensures
            r is Ok <==> self.error_spec() is None,
            r matches Err(e) ==> self.error_spec() == Some(e),
    {
        match self {
            Request::FlashErase { base_sector, sector_count } => {
                if *base_sector >= FLASH_SECTORS {
                    Err(ValidationError::InvalidSector)
                } else if *sector_count > FLASH_SECTORS - *base_sector {
                    Err(ValidationError::TooManySectors)
                } else {
                    Ok(())
                }
            },
            Request::MemoryWrite { data, .. } => {
                if data.len() > MAX_CHUNK {
                    Err(ValidationError::ChunkTooLarge)
                } else {
                    Ok(())
                }
            },
            Request::SetRwProtection { level, .. } => {
                if *level != 1 && *level != 2 {
                    Err(ValidationError::InvalidProtectionLevel)
                } else {
                    Ok(())
                }
            },
            _ => Ok(()),
        }
    }
}

/// The packet that carries `args` after `opcode`: the wire length (the
/// number of bytes after it), the opcode, the arguments, and the checksum of
/// all of that, least significant byte first.
pub open spec fn frame(opcode: u8, args: Seq<u8>) -> Seq<u8> {
    let body = seq![(args.len() + 5) as u8, opcode] + args;
    body + le_bytes(checksum(body))
}

/// Whether bit `k` of `m` is set.
pub open spec fn bit_set(m: u8, k: u8) -> bool {
    (m >> k) & 1u8 == 1u8
}

/// Whether every entry of `s` names a sector.
pub open spec fn sectors_valid(s: Seq<u8>) -> bool {
    forall|i: int| 0 <= i < s.len() ==> #[trigger] s[i] < 8
}

proof fn lemma_mask_bits(m: u8, s: u8, k: u8)
    requires
        s < 8,
        k < 8,
    ensures
        bit_set(m | (1u8 << s), k) <==> (bit_set(m, k) || k == s),
        !bit_set(0u8, k),
{
    assert(((m | (1u8 << s)) >> k) & 1u8 == 1u8 <==> (((m >> k) & 1u8 == 1u8) || k == s))
        by (bit_vector)
        requires
            s < 8,
            k < 8,
    ;
    assert((0u8 >> k) & 1u8 != 1u8) by (bit_vector);
}

/// The protection bitmask that selects the given sectors: bit `k` is set
/// exactly when sector `k` is listed. A number outside `0..8` is refused.
pub fn sector_mask(sectors: &[u8]) -> (r: Result<u8, ValidationError>)
    ensures
        r is Ok <==> sectors_valid(sectors@),
        r matches Err(e) ==> e == ValidationError::InvalidSector,
        r matches Ok(m) ==> forall|k: u8| k < 8 ==> (bit_set(m, k) <==> sectors@.contains(k)),
{
    let mut mask: u8 = 0;
    let mut i: usize = 0;
    proof {
        assert forall|k: u8| k < 8 implies !bit_set(0u8, k) by {
            lemma_mask_bits(0, 0, k);
        }
    }
    while i < sectors.len()
        invariant
            i <= sectors@.len(),
            sectors_valid(sectors@.subrange(0, i as int)),
            forall|k: u8|
                k < 8 ==> (bit_set(mask, k) <==> sectors@.subrange(0, i as int).contains(k)),
        decreases sectors@.len() - i,
    {
        let s = sectors[i];
        if s >= FLASH_SECTORS {
            assert(sectors@[i as int] >= 8);
            return Err(ValidationError::InvalidSector);
        }
        let ghost old_mask = mask;
        mask = mask | (1u8 << s);
        proof {
            let prev = sectors@.subrange(0, i as int);
            let next = sectors@.subrange(0, i as int + 1);
            assert(next =~= prev.push(s));
            assert forall|k: u8| k < 8 implies (bit_set(mask, k) <==> next.contains(k)) by {
                lemma_mask_bits(old_mask, s, k);
                if k == s {
                    assert(next[i as int] == k);
                }
                if next.contains(k) && k != s {
                    let j = choose|j: int| 0 <= j < next.len() && next[j] == k;
                    assert(prev[j] == k);
                }
            }
            assert forall|j: int| 0 <= j < next.len() implies #[trigger] next[j] < 8 by {
                if j < i {
                    assert(next[j] == prev[j]);
                }
            }
        }
        i = i + 1;
    }
    assert(sectors@.subrange(0, sectors@.len() as int) =~= sectors@);
    Ok(mask)
}

/// The packet of a valid request.
pub open spec fn packet_of(req: Request) -> Seq<u8> {
    frame(req.command_spec().opcode_spec(), req.args_spec())
}

/// Frames `args` after `opcode` and appends the checksum.
pub fn frame_packet(opcode: u8, args: &[u8]) -> (r: Vec<u8>)
    requires
        args@.len() <= 250,
    ensures
        r@ == frame(opcode, args@),
{
    let mut p: Vec<u8> = Vec::new();
    p.push((args.len() + 5) as u8);
    p.push(opcode);
    let ghost head = p@;
    let mut i: usize = 0;
    while i < args.len()
        invariant
            i <= args@.len(),
            p@ == head + args@.subrange(0, i as int),
        decreases args@.len() - i,
    {
        p.push(args[i]);
        assert(p@ =~= head + args@.subrange(0, i as int + 1));
        i = i + 1;
    }
    assert(args@.subrange(0, args@.len() as int) =~= args@);
    assert(p@ =~= seq![(args@.len() + 5) as u8, opcode] + args@);
    let ghost body = p@;
    let crc = get_crc(p.as_slice());
    let tail = u32_le_bytes(crc);
    p.push(tail[0]);
    p.push(tail[1]);
    p.push(tail[2]);
    p.push(tail[3]);
    assert(p@ =~= body + le_bytes(crc));
    p
}

/// Appends the four bytes of `x`, least significant first.
fn push_le(v: &mut Vec<u8>, x: u32)
    ensures
        final(v)@ == old(v)@ + le_bytes(x),
{
    let b = u32_le_bytes(x);
    v.push(b[0]);
    v.push(b[1]);
    v.push(b[2]);
    v.push(b[3]);
    assert(final(v)@ =~= old(v)@ + le_bytes(x));
}

/// Encodes the request's arguments.
pub fn encode_args(req: &Request) -> (r: Vec<u8>)
    requires
        req.error_spec() is None,
    ensures
        r@ == req.args_spec(),
{
    let mut a: Vec<u8> = Vec::new();
    match req {
        Request::JumpToAddress { address } => {
            push_le(&mut a, *address);
        },
        Request::FlashErase { base_sector, sector_count } => {
            a.push(*base_sector);
            a.push(*sector_count);
        },
        Request::MemoryWrite { address, data } => {
            push_le(&mut a, *address);
            a.push(data.len() as u8);
            let ghost head = a@;
            let mut i: usize = 0;
            while i < data.len()
                invariant
                    i <= data@.len(),
                    a@ == head + data@.subrange(0, i as int),
                decreases data@.len() - i,
            {
                a.push(data[i]);
                assert(a@ =~= head + data@.subrange(0, i as int + 1));
                i = i + 1;
            }
            assert(data@.subrange(0, data@.len() as int) =~= data@);
        },
        Request::MemoryRead { address, count } => {
            push_le(&mut a, *address);
            a.push(*count);
        },
        Request::SetRwProtection { sector_mask, level } => {
            a.push(*sector_mask);
            a.push(*level);
        },
        _ => {},
    }
    assert(a@ =~= req.args_spec());
    a
}

/// Builds the packet of a request, or says which rule it breaks; nothing is
/// built for an invalid request.
pub fn build(req: &Request) -> (r: Result<Vec<u8>, ValidationError>)
    ensures
        r is Ok <==> req.error_spec() is None,
        r matches Err(e) ==> req.error_spec() == Some(e),
        r matches Ok(p) ==> p@ == packet_of(*req),
{
    match req.validate() {
        Err(e) => Err(e),
        Ok(()) => {
            let args = encode_args(req);
            let opcode = req.command().opcode();
            Ok(frame_packet(opcode, args.as_slice()))
        },
    }
}

/// The packet's first byte is the command's header length (payload
/// included) less one, and its whole length is that header length.
pub proof fn lemma_packet_shape(req: Request)
    requires
        req.error_spec() is None,
    ensures
        packet_of(req).len() == req.command_spec().header_length_spec() + req.extra_len(),
        packet_of(req)[0] == req.command_spec().header_length_spec() + req.extra_len() - 1,
        packet_of(req)[1] == req.command_spec().opcode_spec(),
{
}

/// The last four bytes of a packet are the checksum, least significant
/// byte first, of everything before them.
pub proof fn lemma_checksum_round_trip(opcode: u8, args: Seq<u8>)
    requires
        args.len() <= 250,
    ensures
        ({
            let p = frame(opcode, args);
            &&& p.len() == args.len() + 6
            &&& p.subrange(p.len() - 4, p.len() as int) == le_bytes(
                checksum(p.subrange(0, p.len() - 4)),
            )
        }),
{
    let body = seq![(args.len() + 5) as u8, opcode] + args;
    let p = frame(opcode, args);
    assert(p.subrange(0, p.len() - 4) =~= body);
    assert(p.subrange(p.len() - 4, p.len() as int) =~= le_bytes(checksum(body)));
}

} // verus!
