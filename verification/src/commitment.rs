//! From the bytes of a trace to the record that binds its score to a player.

use crate::codec::{decode_spec, decode_trace};
use crate::replay::{verify_spec, verify_trace, TraceError};
use tiny_keccak::{Hasher, Keccak};
use vstd::arithmetic::div_mod::lemma_fundamental_div_mod_converse;
use vstd::prelude::*;

verus! {

/// Number of bytes in a player's identity.
pub const PLAYER_BYTES: usize = 20;

/// Number of bytes in a nullifier.
pub const NULLIFIER_BYTES: usize = 32;

/// Number of bytes in each of the three fields of an encoded record.
pub const WORD_BYTES: usize = 32;

/// Number of bytes in an encoded record.
pub const RECORD_BYTES: usize = 96;

/// What is handed in: the bytes of a trace as they were recorded, and the
/// identity of the player.
#[derive(Debug, PartialEq, Eq)]
pub struct Input {
    pub encoded_trace: Vec<u8>,
    pub player: [u8; 20],
}

/// What comes out: the player, the score that the replay confirmed, and
/// the nullifier of the trace.
#[derive(Clone, Copy, Debug, PartialEq, Eq)]
pub struct Commitment {
    pub player: [u8; 20],
    pub score: u32,
    pub nullifier: [u8; 32],
}

/// The Keccak-256 digest of a sequence of bytes.
pub uninterp spec fn keccak256(data: Seq<u8>) -> Seq<u8>;

/// Runs `tiny_keccak`'s `Keccak::v256` hasher over `data` in one `update`
/// and returns what `finalize` writes into 32 bytes. The contract claims
/// only that this is the value named `keccak256(data)`: the same bytes in,
/// the same digest out.
#[verifier::external_body]
fn keccak256_digest(data: &[u8]) -> (digest: [u8; 32])
    ensures
        digest@ == keccak256(data@),
{
    let mut digest = [0u8; 32];
    let mut hasher = Keccak::v256();
    hasher.update(data);
    hasher.finalize(&mut digest);
    digest
}

/// `n` zero bytes.
pub open spec fn zeros(n: nat) -> Seq<u8> {
    Seq::new(n, |i: int| 0u8)
}

/// The four bytes of a number, most significant first.
pub open spec fn be_bytes(x: u32) -> Seq<u8> {
    seq![
        (x / 16_777_216) as u8,
        (x / 65_536 % 256) as u8,
        (x / 256 % 256) as u8,
        (x % 256) as u8,
    ]
}

/// The encoded record: three words of 32 bytes. The player's 20 bytes
/// stand at the end of the first word, the score as a big-endian number
/// at the end of the second, and the nullifier fills the third.
#[verifier::opaque]
pub open spec fn record_layout(player: Seq<u8>, score: u32, nullifier: Seq<u8>) -> Seq<u8> {
    zeros(12) + player + zeros(28) + be_bytes(score) + nullifier
}

/// What the check of the bytes of a trace gives: bytes that hold no trace
/// are malformed, and the others give what their trace gives.
pub open spec fn verify_bytes_spec(raw: Seq<u8>) -> Result<nat, TraceError> {
    match decode_spec(raw) {
        Some(items) => verify_spec(items),
        None => Err(TraceError::MalformedTrace),
    }
}

/// The nullifier of a trace: the digest of its bytes as they are.
pub open spec fn nullifier_spec(raw: Seq<u8>) -> Seq<u8> {
    keccak256(raw)
}

/// The bytes that are committed for a trace and a player, or why there are none.
pub open spec fn execute_spec(raw: Seq<u8>, player: Seq<u8>) -> Result<Seq<u8>, TraceError> {
    match verify_bytes_spec(raw) {
        Ok(score) => Ok(record_layout(player, score as u32, nullifier_spec(raw))),
        Err(e) => Err(e),
    }
}

/// Appends `n` zero bytes.
fn put_zeros(out: &mut Vec<u8>, n: usize)
    ensures
        final(out)@ == old(out)@ + zeros(n as nat),
{
    let mut i: usize = 0;
    while i < n
        invariant
            i <= n,
            out@ == old(out)@ + zeros(i as nat),
        decreases n - i,
    {
        out.push(0);
        i += 1;
        assert(out@ =~= old(out)@ + zeros(i as nat));
    }
}

/// Appends `bytes`.
fn put_bytes(out: &mut Vec<u8>, bytes: &[u8])
    ensures
        final(out)@ == old(out)@ + bytes@,
{
    let mut i: usize = 0;
    while i < bytes.len()
        invariant
            i <= bytes@.len(),
            out@ == old(out)@ + bytes@.take(i as int),
        decreases bytes@.len() - i,
    {
        out.push(bytes[i]);
        i += 1;
    }
}

impl Commitment {
    /// The bytes of the record.
    pub open spec fn spec_encode(self) -> Seq<u8> {
        record_layout(self.player@, self.score, self.nullifier@)
    }

    /// Writes the record in its fixed layout of 96 bytes.
    pub fn encode(&self) -> (bytes: Vec<u8>)
        ensures
            bytes@ == self.spec_encode(),
            bytes@.len() == RECORD_BYTES,
    {
        let mut bytes: Vec<u8> = Vec::new();
        put_zeros(&mut bytes, WORD_BYTES - PLAYER_BYTES);
        put_bytes(&mut bytes, self.player.as_slice());
        put_zeros(&mut bytes, WORD_BYTES - 4);
        bytes.push((self.score / 16_777_216) as u8);
        bytes.push((self.score / 65_536 % 256) as u8);
        bytes.push((self.score / 256 % 256) as u8);
        bytes.push((self.score % 256) as u8);
        put_bytes(&mut bytes, self.nullifier.as_slice());
        proof {
            reveal(record_layout);
        }
        bytes
    }

    /// Reads a record from its 96 bytes. Bytes that no record is written as
    /// are refused: another length, a byte other than zero before the
    /// player, or a score that does not fit in 32 bits.
    pub fn decode(bytes: &[u8]) -> (decoded: Option<Commitment>)
        ensures
            match decoded {
                Some(record) => record.spec_encode() == bytes@,
                None => forall|record: Commitment| record.spec_encode() != bytes@,
            },
    {
        if bytes.len() != RECORD_BYTES {
            proof {
                lemma_no_record(bytes@, 0);
            }
            return None;
        }
        if let Some(at) = first_not_zero(bytes, 0, 12) {
            proof {
                lemma_no_record(bytes@, at as int);
            }
            return None;
        }
        if let Some(at) = first_not_zero(bytes, 32, 60) {
            proof {
                lemma_no_record(bytes@, at as int);
            }
            return None;
        }
        let player: [u8; 20] = copy_bytes(bytes, 12);
        let nullifier: [u8; 32] = copy_bytes(bytes, 64);
        let score: u32 = (bytes[60] as u32) * 16_777_216 + (bytes[61] as u32) * 65_536 + (
        bytes[62] as u32) * 256 + (bytes[63] as u32);
        let record = Commitment { player, score, nullifier };
        proof {
            lemma_record_read(bytes@, record);
        }
        Some(record)
    }
}

/// Bytes of another length than a record has, or with a byte other than
/// zero at a place where every record has a zero, are those of no record.
proof fn lemma_no_record(bytes: Seq<u8>, at: int)
    requires
        bytes.len() != RECORD_BYTES || ((0 <= at < 12 || 32 <= at < 60) && bytes[at] != 0),
    ensures
        forall|record: Commitment| record.spec_encode() != bytes,
{
    assert forall|record: Commitment| record.spec_encode() != bytes by {
        lemma_layout(record.player@, record.score, record.nullifier@);
    }
}

/// A record whose fields are read from the places where they stand in
/// `bytes`, where all else is zero, is written as `bytes`.
proof fn lemma_record_read(bytes: Seq<u8>, record: Commitment)
    requires
        bytes.len() == RECORD_BYTES,
        forall|i: int| 0 <= i < 12 ==> bytes[i] == 0,
        forall|i: int| 32 <= i < 60 ==> bytes[i] == 0,
        record.player@ == bytes.subrange(12, 32),
        record.nullifier@ == bytes.subrange(64, 96),
        record.score == bytes[60] * 16_777_216 + bytes[61] * 65_536 + bytes[62] * 256 + bytes[63],
    ensures
        record.spec_encode() == bytes,
{
    lemma_layout(record.player@, record.score, record.nullifier@);
    lemma_be_read(bytes[60], bytes[61], bytes[62], bytes[63]);
    assert(record.spec_encode() =~= bytes);
}

/// Four bytes, most significant first, are those of the number that they spell.
proof fn lemma_be_read(b0: u8, b1: u8, b2: u8, b3: u8)
    ensures
        be_bytes((b0 * 16_777_216 + b1 * 65_536 + b2 * 256 + b3) as u32) == seq![b0, b1, b2, b3],
{
    let x = b0 * 16_777_216 + b1 * 65_536 + b2 * 256 + b3;
    lemma_fundamental_div_mod_converse(x, 16_777_216, b0 as int, b1 * 65_536 + b2 * 256 + b3);
    lemma_fundamental_div_mod_converse(x, 65_536, b0 * 256 + b1, b2 * 256 + b3);
    lemma_fundamental_div_mod_converse(b0 * 256 + b1, 256, b0 as int, b1 as int);
    lemma_fundamental_div_mod_converse(x, 256, b0 * 65_536 + b1 * 256 + b2, b3 as int);
    lemma_fundamental_div_mod_converse(b0 * 65_536 + b1 * 256 + b2, 256, b0 * 256 + b1, b2 as int);
}

/// Where each byte of an encoded record comes from.
pub proof fn lemma_layout(player: Seq<u8>, score: u32, nullifier: Seq<u8>)
    requires
        player.len() == PLAYER_BYTES,
        nullifier.len() == NULLIFIER_BYTES,
    ensures
        record_layout(player, score, nullifier).len() == RECORD_BYTES,
        forall|i: int| 0 <= i < 12 ==> record_layout(player, score, nullifier)[i] == 0,
        forall|i: int| 12 <= i < 32 ==> record_layout(player, score, nullifier)[i] == player[i - 12],
        forall|i: int| 32 <= i < 60 ==> record_layout(player, score, nullifier)[i] == 0,
        forall|i: int|
            60 <= i < 64 ==> record_layout(player, score, nullifier)[i] == be_bytes(score)[i - 60],
        forall|i: int|
            64 <= i < 96 ==> record_layout(player, score, nullifier)[i] == nullifier[i - 64],
{
    reveal(record_layout);
}

/// The `N` bytes that start at `at`.
fn copy_bytes<const N: usize>(bytes: &[u8], at: usize) -> (copy: [u8; N])
    requires
        at + N <= bytes@.len(),
    ensures
        copy@ == bytes@.subrange(at as int, at + N),
{
    let n = bytes.len();
    let mut copy = [0u8; N];
    let mut i: usize = 0;
    while i < N
        invariant
            i <= N,
            at + N <= bytes@.len() == n,
            forall|j: int| 0 <= j < i ==> copy@[j] == bytes@[at + j],
        decreases N - i,
    {
        let byte = bytes[at + i];
        copy[i] = byte;
        i += 1;
    }
    copy
}

/// The place of the first byte from `from` up to `to` that is not zero.
fn first_not_zero(bytes: &[u8], from: usize, to: usize) -> (found: Option<usize>)
    requires
        from <= to <= bytes@.len(),
    ensures
        match found {
            Some(at) => from <= at < to && bytes@[at as int] != 0,
            None => forall|i: int| from <= i < to ==> bytes@[i] == 0,
        },
{
    let mut i: usize = from;
    while i < to
        invariant
            from <= i <= to <= bytes@.len(),
            forall|j: int| from <= j < i ==> bytes@[j] == 0,
        decreases to - i,
    {
        if bytes[i] != 0 {
            return Some(i);
        }
        i += 1;
    }
    None
}

/// The nullifier of a trace: the Keccak-256 digest of its bytes as they are.
pub fn nullifier(raw_trace: &[u8]) -> (digest: [u8; 32])
    ensures
        digest@ == nullifier_spec(raw_trace@),
{
    keccak256_digest(raw_trace)
}

/// The record for a player, a score and the nullifier of a trace.
pub fn commit(player: [u8; 20], score: u32, nullifier: [u8; 32]) -> (record: Commitment)
    ensures
        record == (Commitment { player, score, nullifier }),
        record.spec_encode() == record_layout(player@, score, nullifier@),
{
    Commitment { player, score, nullifier }
}

/// Reads the trace, checks it, replays it and builds the record. No
/// record is built for a trace that is refused.
pub fn build_commitment(input: &Input) -> (built: Result<Commitment, TraceError>)
    ensures
        match built {
            Ok(record) => {
                &&& verify_bytes_spec(input.encoded_trace@) == Ok::<nat, TraceError>(
                    record.score as nat,
                )
                &&& record.player == input.player
                &&& record.nullifier@ == nullifier_spec(input.encoded_trace@)
            },
            Err(e) => verify_bytes_spec(input.encoded_trace@) == Err::<nat, TraceError>(e),
        },
{
    let raw = input.encoded_trace.as_slice();
    let trace = match decode_trace(raw) {
        Ok(trace) => trace,
        Err(e) => {
            return Err(e);
        },
    };
    let digest = nullifier(raw);
    match verify_trace(&trace) {
        Ok(score) => Ok(commit(input.player, score, digest)),
        Err(e) => Err(e),
    }
}

/// The whole way: the bytes to commit for a trace and a player, or why
/// there are none.
pub fn execute(input: &Input) -> (committed: Result<Vec<u8>, TraceError>)
    ensures
        match committed {
            Ok(bytes) => execute_spec(input.encoded_trace@, input.player@) == Ok::<
                Seq<u8>,
                TraceError,
            >(bytes@),
            Err(e) => execute_spec(input.encoded_trace@, input.player@) == Err::<
                Seq<u8>,
                TraceError,
            >(e),
        },
{
    match build_commitment(input) {
        Ok(record) => Ok(record.encode()),
        Err(e) => Err(e),
    }
}

} // verus!
