//! Decoding of the device's replies: `[status][payload length][payload]`,
//! read in two steps, with the payload interpreted according to the command
//! that was sent.
use vstd::prelude::*;
use crate::command::Command;

verus! {

/// Status byte of an accepted packet.
pub const ACK: u8 = 0xBB;

/// Status byte of a packet whose checksum the device rejected.
pub const NACK: u8 = 0xEE;

/// Number of bytes in a reply header.
pub const HEADER_LEN: usize = 2;

/// What a status byte of an operation's reply says.
#[derive(PartialEq, Eq, Structural, Clone, Copy, Debug)]
pub enum Outcome {
    Success,
    Failure,
    Invalid,
}

/// Protection of one flash sector.
#[derive(PartialEq, Eq, Structural, Clone, Copy, Debug)]
pub enum Protection {
    NoProtection,
    WriteProtected,
    ReadWriteProtected,
    Unknown,
}

/// A decoded reply payload.
#[derive(Debug)]
pub enum Reply {
    Version(u8),
    Help(Vec<u8>),
    DeviceId(u16),
    RdpLevel(u8),
    JumpToAddress(Outcome),
    FlashErase(Outcome),
    MemoryWrite(Outcome),
    /// The outcome, and on success the memory contents.
    MemoryRead(Outcome, Vec<u8>),
    SetRwProtection(Outcome),
    /// The protection of each sector, by sector number.
    GetRwProtection(Vec<Protection>),
}

/// The mathematical value of a [`Reply`].
pub enum ReplyModel {
    Version(u8),
    Help(Seq<u8>),
    DeviceId(u16),
    RdpLevel(u8),
    JumpToAddress(Outcome),
    FlashErase(Outcome),
    MemoryWrite(Outcome),
    MemoryRead(Outcome, Seq<u8>),
    SetRwProtection(Outcome),
    GetRwProtection(Seq<Protection>),
}

impl View for Reply {
    type V = ReplyModel;

    open spec fn view(&self) -> ReplyModel {
        match self {
            Reply::Version(v) => ReplyModel::Version(*v),
            Reply::Help(c) => ReplyModel::Help(c@),
            Reply::DeviceId(d) => ReplyModel::DeviceId(*d),
            Reply::RdpLevel(l) => ReplyModel::RdpLevel(*l),
            Reply::JumpToAddress(o) => ReplyModel::JumpToAddress(*o),
            Reply::FlashErase(o) => ReplyModel::FlashErase(*o),
            Reply::MemoryWrite(o) => ReplyModel::MemoryWrite(*o),
            Reply::MemoryRead(o, m) => ReplyModel::MemoryRead(*o, m@),
            Reply::SetRwProtection(o) => ReplyModel::SetRwProtection(*o),
            Reply::GetRwProtection(p) => ReplyModel::GetRwProtection(p@),
        }
    }
}

/// Why no reply could be decoded.
#[derive(PartialEq, Eq, Structural, Clone, Copy, Debug)]
pub enum ReplyError {
    /// The device rejected the packet's checksum.
    Nack,
    /// The status byte was neither an ack nor a nack.
    Unrecognized(u8),
    /// The transport timed out or delivered fewer bytes than asked for.
    Transport,
    /// The payload was too short for the command's reply.
    MalformedPayload,
}

/// Outcome of a status byte where 0 means success and 1 failure.
pub open spec fn zero_success(b: u8) -> Outcome {
    if b == 0 {
        Outcome::Success
    } else if b == 1 {
        Outcome::Failure
    } else {
        Outcome::Invalid
    }
}

/// Outcome of a status byte where 1 means success and 0 failure.
pub open spec fn one_success(b: u8) -> Outcome {
    if b == 1 {
        Outcome::Success
    } else if b == 0 {
        Outcome::Failure
    } else {
        Outcome::Invalid
    }
}

pub open spec fn protection_of(b: u8) -> Protection {
    if b == 0 {
        Protection::NoProtection
    } else if b == 1 {
        Protection::WriteProtected
    } else if b == 2 {
        Protection::ReadWriteProtected
    } else {
        Protection::Unknown
    }
}

/// Least number of payload bytes that the reply to `c` needs.
pub open spec fn min_payload(c: Command) -> nat {
    match c {
        Command::GetHelp | Command::GetRwProtection => 0,
        Command::GetDeviceId => 2,
        _ => 1,
    }
}

/// The reply to `c` that `p` encodes, for a payload of at least
/// `min_payload(c)` bytes.
pub open spec fn interpret_spec(c: Command, p: Seq<u8>) -> ReplyModel {
    match c {
        Command::GetVersion => ReplyModel::Version(p[0]),
        Command::GetHelp => ReplyModel::Help(p),
        Command::GetDeviceId => ReplyModel::DeviceId((p[0] as int + 256 * p[1] as int) as u16),
        Command::GetRdpLevel => ReplyModel::RdpLevel(p[0]),
        Command::JumpToAddress => ReplyModel::JumpToAddress(zero_success(p[0])),
        Command::FlashErase => ReplyModel::FlashErase(zero_success(p[0])),
        Command::MemoryWrite => ReplyModel::MemoryWrite(one_success(p[0])),
        Command::MemoryRead => if p[0] == 1 {
            ReplyModel::MemoryRead(Outcome::Success, p.subrange(1, p.len() as int))
        } else {
            ReplyModel::MemoryRead(one_success(p[0]), Seq::empty())
        },
        Command::SetRwProtection => ReplyModel::SetRwProtection(one_success(p[0])),
        Command::GetRwProtection => ReplyModel::GetRwProtection(p.map_values(|b: u8| protection_of(b))),
    }
}

fn zero_success_of(b: u8) -> (r: Outcome)
    ensures
        r == zero_success(b),
{
    if b == 0 {
        Outcome::Success
    } else if b == 1 {
        Outcome::Failure
    } else {
        Outcome::Invalid
    }
}

fn one_success_of(b: u8) -> (r: Outcome)
    ensures
        r == one_success(b),
{
    if b == 1 {
        Outcome::Success
    } else if b == 0 {
        Outcome::Failure
    } else {
        Outcome::Invalid
    }
}

/// The protection that a sector's status byte gives.
pub fn protection_from_byte(b: u8) -> (r: Protection)
    ensures
        r == protection_of(b),
{
    if b == 0 {
        Protection::NoProtection
    } else if b == 1 {
        Protection::WriteProtected
    } else if b == 2 {
        Protection::ReadWriteProtected
    } else {
        Protection::Unknown
    }
}

fn copy_from(p: &[u8], start: usize) -> (r: Vec<u8>)
    requires
        start <= p@.len(),
    ensures
        r@ == p@.subrange(start as int, p@.len() as int),
{
    let mut r: Vec<u8> = Vec::new();
    let mut i: usize = start;
    while i < p.len()
        invariant
            start <= i <= p@.len(),
            r@ == p@.subrange(start as int, i as int),
        decreases p@.len() - i,
    {
        r.push(p[i]);
        assert(r@ =~= p@.subrange(start as int, i as int + 1));
        i = i + 1;
    }
    r
}

/// Interprets the payload of an acknowledged reply to `command`.
pub fn interpret(command: Command, payload: &[u8]) -> (r: Result<Reply, ReplyError>)
    ensures
        r is Err <==> payload@.len() < min_payload(command),
        r matches Err(e) ==> e == ReplyError::MalformedPayload,
        r matches Ok(reply) ==> reply@ == interpret_spec(command, payload@),
{
    match command {
        Command::GetHelp => {
            assert(payload@.subrange(0, payload@.len() as int) =~= payload@);
            Ok(Reply::Help(copy_from(payload, 0)))
        },
        Command::GetRwProtection => {
            let mut v: Vec<Protection> = Vec::new();
            let mut i: usize = 0;
            while i < payload.len()
                invariant
                    i <= payload@.len(),
                    v@ == payload@.subrange(0, i as int).map_values(|b: u8| protection_of(b)),
                decreases payload@.len() - i,
            {
                v.push(protection_from_byte(payload[i]));
                assert(v@ =~= payload@.subrange(0, i as int + 1).map_values(
                    |b: u8| protection_of(b),
                ));
                i = i + 1;
            }
            assert(payload@.subrange(0, payload@.len() as int) =~= payload@);
            Ok(Reply::GetRwProtection(v))
        },
        Command::GetDeviceId => {
            if payload.len() < 2 {
                Err(ReplyError::MalformedPayload)
            } else {
                Ok(Reply::DeviceId((payload[1] as u16) * 256 + payload[0] as u16))
            }
        },
        _ => {
            if payload.len() < 1 {
                Err(ReplyError::MalformedPayload)
            } else {
                let b = payload[0];
                match command {
                    Command::GetVersion => Ok(Reply::Version(b)),
                    Command::GetRdpLevel => Ok(Reply::RdpLevel(b)),
                    Command::JumpToAddress => Ok(Reply::JumpToAddress(zero_success_of(b))),
                    Command::FlashErase => Ok(Reply::FlashErase(zero_success_of(b))),
                    Command::MemoryWrite => Ok(Reply::MemoryWrite(one_success_of(b))),
                    Command::MemoryRead => {
                        if b == 1 {
                            Ok(Reply::MemoryRead(Outcome::Success, copy_from(payload, 1)))
                        } else {
                            Ok(Reply::MemoryRead(one_success_of(b), Vec::new()))
                        }
                    },
                    _ => Ok(Reply::SetRwProtection(one_success_of(b))),
                }
            }
        },
    }
}

impl Reply {
    /// Whether the reply ends the session: a successful jump hands control
    /// from the bootloader to the application.
    pub fn ends_session(&self) -> (r: bool)
        ensures
            r == (self@ == ReplyModel::JumpToAddress(Outcome::Success)),
    {
        match self {
            Reply::JumpToAddress(Outcome::Success) => true,
            _ => false,
        }
    }
}

/// Where a decoder stands in reading one reply.
#[derive(PartialEq, Eq, Structural, Clone, Copy, Debug)]
pub enum DecoderState {
    /// The two header bytes are to be read.
    AwaitingHeader,
    /// The device acknowledged; `length` payload bytes are to be read.
    AwaitingPayload { length: u8 },
    /// The reply has been decoded or has failed.
    Finished,
}

/// What the caller does next.
#[derive(Debug)]
pub enum Step {
    /// Read this many bytes from the transport and hand them back.
    Read(usize),
    /// The command's handling is over, with this result.
    Done(Result<Reply, ReplyError>),
}

/// The mathematical value of a [`Step`].
pub enum StepModel {
    Read(nat),
    Done(Result<ReplyModel, ReplyError>),
}

impl View for Step {
    type V = StepModel;

    open spec fn view(&self) -> StepModel {
        match self {
            Step::Read(n) => StepModel::Read(*n as nat),
            Step::Done(Ok(r)) => StepModel::Done(Ok(r@)),
            Step::Done(Err(e)) => StepModel::Done(Err(*e)),
        }
    }
}

/// The state and step after the header bytes `h` arrived. A header is two
/// bytes; fewer or more is a transport error, except a lone nack, which
/// already says that the device rejected the packet.
pub open spec fn header_step(h: Seq<u8>) -> (DecoderState, StepModel) {
    if h.len() == 1 && h[0] == NACK {
        (DecoderState::Finished, StepModel::Done(Err(ReplyError::Nack)))
    } else if h.len() != 2 {
        (DecoderState::Finished, StepModel::Done(Err(ReplyError::Transport)))
    } else if h[0] == ACK {
        (DecoderState::AwaitingPayload { length: h[1] }, StepModel::Read(h[1] as nat))
    } else if h[0] == NACK {
        (DecoderState::Finished, StepModel::Done(Err(ReplyError::Nack)))
    } else {
        (DecoderState::Finished, StepModel::Done(Err(ReplyError::Unrecognized(h[0]))))
    }
}

/// The step after the payload `p` arrived when `length` bytes were asked for.
pub open spec fn payload_step(c: Command, length: u8, p: Seq<u8>) -> StepModel {
    if p.len() != length {
        StepModel::Done(Err(ReplyError::Transport))
    } else if p.len() < min_payload(c) {
        StepModel::Done(Err(ReplyError::MalformedPayload))
    } else {
        StepModel::Done(Ok(interpret_spec(c, p)))
    }
}

/// Decodes the reply to one command, fed with what the transport delivers.
pub struct ReplyDecoder {
    pub command: Command,
    pub state: DecoderState,
}

impl ReplyDecoder {
    /// A decoder waiting for the reply to `command`.
    pub fn new(command: Command) -> (r: ReplyDecoder)
        ensures
            r.command == command,
            r.state == DecoderState::AwaitingHeader,
    {
        ReplyDecoder { command, state: DecoderState::AwaitingHeader }
    }

    pub open spec fn wanted_spec(&self) -> nat {
        match self.state {
            DecoderState::AwaitingHeader => 2,
            DecoderState::AwaitingPayload { length } => length as nat,
            DecoderState::Finished => 0,
        }
    }

    /// How many bytes the decoder waits for.
    pub fn bytes_wanted(&self) -> (r: usize)
        ensures
            r == self.wanted_spec(),
    {
        match self.state {
            DecoderState::AwaitingHeader => HEADER_LEN,
            DecoderState::AwaitingPayload { length } => length as usize,
            DecoderState::Finished => 0,
        }
    }

    /// Takes the bytes that one read delivered (fewer than asked for on a
    /// timeout) and says what comes next. A finished decoder reads nothing
    /// more and answers with a transport error.
    pub fn advance(&mut self, received: &[u8]) -> (r: Step)
        ensures
            final(self).command == old(self).command,
            old(self).state is AwaitingHeader ==> (final(self).state, r@) == header_step(
                received@,
            ),
            old(self).state matches DecoderState::AwaitingPayload { length } ==> final(self).state
                == DecoderState::Finished && r@ == payload_step(
                old(self).command,
                length,
                received@,
            ),
            old(self).state is Finished ==> final(self).state == DecoderState::Finished && r@
                == StepModel::Done(Err(ReplyError::Transport)),
    {
        match self.state {
            DecoderState::AwaitingHeader => {
                let n = received.len();
                if n == 1 && received[0] == NACK {
                    self.state = DecoderState::Finished;
                    Step::Done(Err(ReplyError::Nack))
                } else if n != HEADER_LEN {
                    self.state = DecoderState::Finished;
                    Step::Done(Err(ReplyError::Transport))
                } else if received[0] == ACK {
                    self.state = DecoderState::AwaitingPayload { length: received[1] };
                    Step::Read(received[1] as usize)
                } else if received[0] == NACK {
                    self.state = DecoderState::Finished;
                    Step::Done(Err(ReplyError::Nack))
                } else {
                    self.state = DecoderState::Finished;
                    Step::Done(Err(ReplyError::Unrecognized(received[0])))
                }
            },
            DecoderState::AwaitingPayload { length } => {
                self.state = DecoderState::Finished;
                if received.len() != length as usize {
                    Step::Done(Err(ReplyError::Transport))
                } else {
                    Step::Done(interpret(self.command, received))
                }
            },
            DecoderState::Finished => Step::Done(Err(ReplyError::Transport)),
        }
    }
}

} // verus!
