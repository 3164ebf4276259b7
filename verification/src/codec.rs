//! The wire codec: the frames that cross the session, byte for byte.
//!
//! Every frame starts with one byte that names its type. All integers of more
//! than one byte are little-endian.

use crate::le::{get_u64_le, le_value, lemma_le_bytes_len, lemma_u64_le_round_trip, put_u64_le, u64_le};
use std::ops::{ControlFlow, Range};
use vstd::prelude::*;

verus! {

/// Type byte of the `StartMining` frame, which the coordinator sends.
pub const START_MINING: u8 = 0;

/// Type byte of the `Ready` frame, which the worker sends.
pub const READY: u8 = 0;

/// Type byte of the `BestSolution` frame, which the worker sends.
pub const BEST_SOLUTION: u8 = 2;

/// A `StartMining` frame shorter than this is refused as invalid.
pub const START_MINING_FLOOR: usize = 49;

/// The length of a `StartMining` frame that holds all its fields: the type
/// byte, a challenge of 32 bytes and three integers of 8 bytes.
pub const START_MINING_LEN: usize = 57;

/// The length of a `Ready` frame before its signature.
pub const READY_HEADER_LEN: usize = 41;

/// The length of a `BestSolution` frame before its signature.
pub const BEST_SOLUTION_HEADER_LEN: usize = 57;

/// What the coordinator asks of the worker.
#[derive(Debug)]
pub enum ServerMessage {
    /// A job: the challenge, the nonces to search and the cutoff in seconds.
    StartMining([u8; 32], Range<u64>, u64),
}

/// One message as the transport hands it over.
#[derive(Debug)]
pub enum Inbound {
    Text(String),
    Binary(Vec<u8>),
    Ping,
    Pong,
    Close,
    Other,
}

/// Why a binary frame gave no job.
#[derive(Clone, Copy, Debug, PartialEq, Eq)]
pub enum FrameError {
    /// The frame has no type byte.
    Empty,
    /// The type byte names no message that the worker knows.
    UnknownType(u8),
    /// A `StartMining` frame below the floor of 49 bytes.
    Invalid,
    /// A `StartMining` frame of 49 to 56 bytes: it passes the floor, but its
    /// fields are not all there.
    Truncated,
}

/// What became of one inbound message while the session goes on.
#[derive(Debug)]
pub enum Intake {
    /// A job for the search engine.
    Job(ServerMessage),
    /// A text frame, to be shown as it is.
    Notice(String),
    /// A binary frame that gave no job; it is dropped.
    Dropped(FrameError),
    /// Nothing to do: ping, pong and whatever else the transport knows.
    Skipped,
}

/// The job that a complete `StartMining` frame carries: after the type byte
/// the challenge, then the cutoff, the first nonce and the end of the range.
pub open spec fn start_mining_of(frame: Seq<u8>) -> (Seq<u8>, Range<u64>, u64) {
    (
        frame.subrange(1, 33),
        Range {
            start: le_value(frame.subrange(41, 49)) as u64,
            end: le_value(frame.subrange(49, 57)) as u64,
        },
        le_value(frame.subrange(33, 41)) as u64,
    )
}

/// Whether `message` is the job that `frame` carries.
pub open spec fn carries(frame: Seq<u8>, message: ServerMessage) -> bool {
    match message {
        ServerMessage::StartMining(challenge, range, cutoff) => (challenge@, range, cutoff)
            == start_mining_of(frame),
    }
}

/// What a binary frame is refused for, if it is.
pub open spec fn frame_error(frame: Seq<u8>) -> Option<FrameError> {
    if frame.len() == 0 {
        Some(FrameError::Empty)
    } else if frame[0] != START_MINING {
        Some(FrameError::UnknownType(frame[0]))
    } else if frame.len() < START_MINING_FLOOR {
        Some(FrameError::Invalid)
    } else if frame.len() < START_MINING_LEN {
        Some(FrameError::Truncated)
    } else {
        None
    }
}

/// Copies the `N` bytes at `bytes[at .. at + N]`.
pub fn read_array<const N: usize>(bytes: &[u8], at: usize) -> (array: [u8; N])
    requires
        at + N <= bytes@.len(),
    ensures
        array@ == bytes@.subrange(at as int, at + N),
{
    let len = bytes.len();
    let mut array = [0u8; N];
    let mut i: usize = 0;
    while i < N
        invariant
            0 <= i <= N,
            len == bytes@.len(),
            at + N <= len,
            array@.len() == N,
            forall|k: int| 0 <= k < i ==> array@[k] == bytes@[at + k],
        decreases N - i,
    {
        array[i] = bytes[at + i];
        i += 1;
    }
    array
}

/// Appends `bytes` to `out`.
pub fn put_bytes(out: &mut Vec<u8>, bytes: &[u8])
    ensures
        final(out)@ == old(out)@ + bytes@,
{
    let mut i: usize = 0;
    while i < bytes.len()
        invariant
            0 <= i <= bytes.len(),
            out@ == old(out)@ + bytes@.take(i as int),
        decreases bytes.len() - i,
    {
        out.push(bytes[i]);
        i += 1;
    }
}

/// Reads a binary frame from the coordinator.
///
/// A frame gives a job exactly when it starts with the `StartMining` type
/// byte and is at least 57 bytes long; what follows the last field is
/// ignored. Every other frame is refused, and the error says why.
pub fn decode_binary(frame: &[u8]) -> (decoded: Result<ServerMessage, FrameError>)
    ensures
        match decoded {
            Ok(message) => frame_error(frame@) is None && carries(frame@, message),
            Err(error) => frame_error(frame@) == Some(error),
        },
{
    if frame.len() == 0 {
        return Err(FrameError::Empty);
    }
    let message_type = frame[0];
    if message_type != START_MINING {
        return Err(FrameError::UnknownType(message_type));
    }
    if frame.len() < START_MINING_FLOOR {
        return Err(FrameError::Invalid);
    }
    if frame.len() < START_MINING_LEN {
        return Err(FrameError::Truncated);
    }
    let challenge: [u8; 32] = read_array(frame, 1);
    let cutoff = get_u64_le(frame, 33);
    let nonce_start = get_u64_le(frame, 41);
    let nonce_end = get_u64_le(frame, 49);
    Ok(ServerMessage::StartMining(challenge, Range { start: nonce_start, end: nonce_end }, cutoff))
}

/// What is done with an inbound message, and whether the session goes on.
pub open spec fn intake_of(message: Inbound, result: ControlFlow<(), Intake>) -> bool {
    match message {
        Inbound::Text(text) => result == ControlFlow::<(), Intake>::Continue(Intake::Notice(text)),
        Inbound::Binary(frame) => match frame_error(frame@) {
            Some(error) => result == ControlFlow::<(), Intake>::Continue(Intake::Dropped(error)),
            None => result matches ControlFlow::Continue(Intake::Job(job)) && carries(frame@, job),
        },
        Inbound::Close => result == ControlFlow::<(), Intake>::Break(()),
        _ => result == ControlFlow::<(), Intake>::Continue(Intake::Skipped),
    }
}

/// Sorts one inbound message.
///
/// A close frame ends the session. Everything else lets it go on: a text
/// frame is passed up to be shown, a binary frame gives a job or is dropped,
/// the rest is skipped.
pub fn process_message(message: Inbound) -> (result: ControlFlow<(), Intake>)
    ensures
        intake_of(message, result),
{
    match message {
        Inbound::Text(text) => ControlFlow::Continue(Intake::Notice(text)),
        Inbound::Binary(frame) => match decode_binary(frame.as_slice()) {
            Ok(job) => ControlFlow::Continue(Intake::Job(job)),
            Err(error) => ControlFlow::Continue(Intake::Dropped(error)),
        },
        Inbound::Close => ControlFlow::Break(()),
        _ => ControlFlow::Continue(Intake::Skipped),
    }
}

/// The bytes of a `Ready` frame: the type byte, the public key, the timestamp
/// and the signature's text, which runs to the end of the frame.
pub open spec fn ready_wire(public_key: Seq<u8>, timestamp: u64, signature: Seq<u8>) -> Seq<u8> {
    seq![READY] + public_key + u64_le(timestamp) + signature
}

/// The bytes of a `BestSolution` frame: the type byte, the digest, the nonce,
/// the public key and the signature's text, which runs to the end of the
/// frame.
pub open spec fn solution_wire(
    digest: Seq<u8>,
    nonce: u64,
    public_key: Seq<u8>,
    signature: Seq<u8>,
) -> Seq<u8> {
    seq![BEST_SOLUTION] + digest + u64_le(nonce) + public_key + signature
}

/// The 24 bytes that are signed for a `BestSolution`: the digest and the
/// nonce.
pub open spec fn solution_message(digest: Seq<u8>, nonce: u64) -> Seq<u8> {
    digest + u64_le(nonce)
}

/// Builds a `Ready` frame.
pub fn encode_ready(public_key: &[u8; 32], timestamp: u64, signature: &[u8]) -> (frame: Vec<u8>)
    ensures
        frame@ == ready_wire(public_key@, timestamp, signature@),
{
    let mut frame: Vec<u8> = Vec::new();
    frame.push(READY);
    put_bytes(&mut frame, public_key.as_slice());
    put_u64_le(&mut frame, timestamp);
    put_bytes(&mut frame, signature);
    frame
}

/// Builds a `BestSolution` frame.
pub fn encode_best_solution(
    digest: &[u8; 16],
    nonce: u64,
    public_key: &[u8; 32],
    signature: &[u8],
) -> (frame: Vec<u8>)
    ensures
        frame@ == solution_wire(digest@, nonce, public_key@, signature@),
{
    let mut frame: Vec<u8> = Vec::new();
    frame.push(BEST_SOLUTION);
    put_bytes(&mut frame, digest.as_slice());
    put_u64_le(&mut frame, nonce);
    put_bytes(&mut frame, public_key.as_slice());
    put_bytes(&mut frame, signature);
    frame
}

/// Builds the message that is signed for a `BestSolution`.
pub fn encode_solution_message(digest: &[u8; 16], nonce: u64) -> (message: Vec<u8>)
    ensures
        message@ == solution_message(digest@, nonce),
        message@.len() == 24,
{
    let mut message: Vec<u8> = Vec::new();
    put_bytes(&mut message, digest.as_slice());
    put_u64_le(&mut message, nonce);
    proof {
        lemma_le_bytes_len(nonce as nat, 8);
    }
    message
}

/// The eight bytes that are signed for a `Ready` and for the handshake: the
/// timestamp.
pub fn encode_timestamp(timestamp: u64) -> (message: Vec<u8>)
    ensures
        message@ == u64_le(timestamp),
        message@.len() == 8,
{
    let mut message: Vec<u8> = Vec::new();
    put_u64_le(&mut message, timestamp);
    proof {
        lemma_le_bytes_len(timestamp as nat, 8);
    }
    message
}

/// A `Ready` frame taken apart.
pub struct ReadyParts {
    pub timestamp: u64,
    pub public_key: [u8; 32],
    pub signature: Vec<u8>,
}

/// A `BestSolution` frame taken apart.
pub struct SolutionParts {
    pub digest: [u8; 16],
    pub nonce: u64,
    pub public_key: [u8; 32],
    pub signature: Vec<u8>,
}

/// Whether `frame` reads as a `Ready` frame.
pub open spec fn is_ready(frame: Seq<u8>) -> bool {
    frame.len() >= READY_HEADER_LEN && frame[0] == READY
}

/// Whether `frame` reads as a `BestSolution` frame.
pub open spec fn is_solution(frame: Seq<u8>) -> bool {
    frame.len() >= BEST_SOLUTION_HEADER_LEN && frame[0] == BEST_SOLUTION
}

/// Whether `parts` are what `frame` holds when read as a `Ready` frame.
pub open spec fn ready_parts_of(frame: Seq<u8>, parts: ReadyParts) -> bool {
    &&& parts.public_key@ == frame.subrange(1, 33)
    &&& parts.timestamp == le_value(frame.subrange(33, 41))
    &&& parts.signature@ == frame.subrange(41, frame.len() as int)
}

/// Whether `parts` are what `frame` holds when read as a `BestSolution`.
pub open spec fn solution_parts_of(frame: Seq<u8>, parts: SolutionParts) -> bool {
    &&& parts.digest@ == frame.subrange(1, 17)
    &&& parts.nonce == le_value(frame.subrange(17, 25))
    &&& parts.public_key@ == frame.subrange(25, 57)
    &&& parts.signature@ == frame.subrange(57, frame.len() as int)
}

/// Copies `bytes[at ..]`.
pub fn read_rest(bytes: &[u8], at: usize) -> (rest: Vec<u8>)
    requires
        at <= bytes@.len(),
    ensures
        rest@ == bytes@.subrange(at as int, bytes@.len() as int),
{
    let mut rest: Vec<u8> = Vec::new();
    let mut i: usize = at;
    while i < bytes.len()
        invariant
            at <= i <= bytes.len(),
            rest@ == bytes@.subrange(at as int, i as int),
        decreases bytes.len() - i,
    {
        rest.push(bytes[i]);
        i += 1;
    }
    rest
}

/// Reads a `Ready` frame as the coordinator does: the fixed header first, the
/// rest as the signature.
pub fn decode_ready(frame: &[u8]) -> (decoded: Option<ReadyParts>)
    ensures
        decoded is Some <==> is_ready(frame@),
        decoded matches Some(parts) ==> ready_parts_of(frame@, parts),
{
    if frame.len() < READY_HEADER_LEN || frame[0] != READY {
        return None;
    }
    let public_key: [u8; 32] = read_array(frame, 1);
    let timestamp = get_u64_le(frame, 33);
    let signature = read_rest(frame, READY_HEADER_LEN);
    Some(ReadyParts { timestamp, public_key, signature })
}

/// Reads a `BestSolution` frame as the coordinator does: the fixed header
/// first, the rest as the signature.
pub fn decode_best_solution(frame: &[u8]) -> (decoded: Option<SolutionParts>)
    ensures
        decoded is Some <==> is_solution(frame@),
        decoded matches Some(parts) ==> solution_parts_of(frame@, parts),
{
    if frame.len() < BEST_SOLUTION_HEADER_LEN || frame[0] != BEST_SOLUTION {
        return None;
    }
    let digest: [u8; 16] = read_array(frame, 1);
    let nonce = get_u64_le(frame, 17);
    let public_key: [u8; 32] = read_array(frame, 25);
    let signature = read_rest(frame, BEST_SOLUTION_HEADER_LEN);
    Some(SolutionParts { digest, nonce, public_key, signature })
}

/// A `Ready` frame reads back as what it was built from: the reader takes
/// it, and whatever parts it finds are the timestamp, the key and the
/// signature that went in.
pub proof fn lemma_ready_round_trip(
    public_key: Seq<u8>,
    timestamp: u64,
    signature: Seq<u8>,
    parts: ReadyParts,
)
    requires
        public_key.len() == 32,
    ensures
        is_ready(ready_wire(public_key, timestamp, signature)),
        ready_parts_of(ready_wire(public_key, timestamp, signature), parts) ==> parts.timestamp
            == timestamp && parts.public_key@ == public_key && parts.signature@ == signature,
{
    let frame = ready_wire(public_key, timestamp, signature);
    lemma_u64_le_round_trip(timestamp);
    assert(frame.subrange(33, 41) =~= u64_le(timestamp));
}

/// A `BestSolution` frame reads back as what it was built from: the reader
/// takes it, and whatever parts it finds are the digest, the nonce, the key
/// and the signature that went in.
pub proof fn lemma_solution_round_trip(
    digest: Seq<u8>,
    nonce: u64,
    public_key: Seq<u8>,
    signature: Seq<u8>,
    parts: SolutionParts,
)
    requires
        digest.len() == 16,
        public_key.len() == 32,
    ensures
        is_solution(solution_wire(digest, nonce, public_key, signature)),
        solution_parts_of(solution_wire(digest, nonce, public_key, signature), parts)
            ==> parts.digest@ == digest && parts.nonce == nonce && parts.public_key@ == public_key
            && parts.signature@ == signature,
{
    let frame = solution_wire(digest, nonce, public_key, signature);
    lemma_u64_le_round_trip(nonce);
    assert(frame.subrange(17, 25) =~= u64_le(nonce));
}

} // verus!
