//! The canonical serialized record of all Merkle roots produced during
//! proving: trace root, constraint root, then one root per FRI layer, stored
//! as one flat length-prefixed byte blob the verifier must parse exactly.

use vstd::prelude::*;

verus! {

use crate::codec::{ByteReader, ByteWriter, DeserializationError, le_u16, u16_le_bytes};

/// Failure to split a serialized commitments record into digests.
#[derive(Debug, Clone, Copy, PartialEq, Eq, Structural)]
pub enum ProofSerializationError {
    /// The record holds fewer bytes than the requested digest count needs;
    /// carries the codec failure that stopped parsing.
    FailedToParseCommitments(DeserializationError),
    /// The record holds more bytes than the requested digest count consumes;
    /// carries the byte count consumed and the byte count stored.
    TooManyCommitmentBytes(usize, usize),
}

/// The flat concatenation of a sequence of digests.
pub open spec fn flat_digests(roots: Seq<Vec<u8>>) -> Seq<u8> {
    roots.map_values(|r: Vec<u8>| r@).flatten()
}

/// An ordered accumulation of commitment digests, kept as one flat byte blob.
#[derive(Debug, Clone, PartialEq, Eq)]
pub struct Commitments(Vec<u8>);

impl View for Commitments {
    type V = Seq<u8>;

    closed spec fn view(&self) -> Seq<u8> {
        self.0@
    }
}

impl Commitments {
    /// Seeds the record with the trace root, the constraint root, and the
    /// FRI-layer roots, in that fixed order.
    pub fn new(trace_root: Vec<u8>, constraint_root: Vec<u8>, fri_roots: Vec<Vec<u8>>) -> (r: Self)
        ensures
            r@ == trace_root@ + constraint_root@ + flat_digests(fri_roots@),
    {
        let mut bytes: Vec<u8> = Vec::new();
        bytes.write_u8_slice(trace_root.as_slice());
        bytes.write_u8_slice(constraint_root.as_slice());
        let ghost roots = fri_roots@.map_values(|r: Vec<u8>| r@);
        let mut i: usize = 0;
        proof {
            assert(roots.subrange(0, 0) =~= Seq::<Seq<u8>>::empty());
            assert(bytes@ =~= trace_root@ + constraint_root@ + roots.subrange(0, 0).flatten());
        }
        while i < fri_roots.len()
            invariant
                i <= fri_roots@.len(),
                roots == fri_roots@.map_values(|r: Vec<u8>| r@),
                bytes@ == trace_root@ + constraint_root@ + roots.subrange(0, i as int).flatten(),
            decreases fri_roots@.len() - i,
        {
            bytes.write_u8_slice(fri_roots[i].as_slice());
            proof {
                let pre = roots.subrange(0, i as int);
                let cur = roots.subrange(0, i + 1);
                cur.lemma_flatten_and_flatten_alt_are_equivalent();
                pre.lemma_flatten_and_flatten_alt_are_equivalent();
                assert(cur.drop_last() =~= pre);
                assert(cur.flatten_alt() == cur.drop_last().flatten_alt() + cur.last());
                assert(bytes@ =~= trace_root@ + constraint_root@ + cur.flatten());
            }
            i = i + 1;
        }
        proof {
            assert(roots.subrange(0, roots.len() as int) =~= roots);
        }
        Commitments(bytes)
    }

    /// Appends one more digest (for example an auxiliary segment root) to the
    /// record.
    pub fn add(&mut self, commitment: &[u8])
        ensures
            final(self)@ == old(self)@ + commitment@,
    {
        self.0.write_u8_slice(commitment);
    }

    /// Splits the flat digest blob into the trace root, the constraint root,
    /// and one root per FRI layer, each of `digest_size` bytes. Succeeds if
    /// and only if the stored bytes hold exactly `num_fri_layers + 2`
    /// digests; fewer bytes fail as unparsable, more bytes fail as a byte
    /// count mismatch.
    pub fn parse(self, num_fri_layers: usize, digest_size: usize) -> (r: Result<
        (Vec<u8>, Vec<u8>, Vec<Vec<u8>>),
        ProofSerializationError,
    >)
        requires
            digest_size >= 1,
        ensures
            self@.len() == (num_fri_layers + 2) * digest_size ==> (r matches Ok((t, c, f))
                && t@ == self@.subrange(0, digest_size as int) && c@ == self@.subrange(
                digest_size as int,
                2 * digest_size,
            ) && f@.len() == num_fri_layers && (forall|i: int|
                0 <= i < num_fri_layers ==> #[trigger] f@[i]@ == self@.subrange(
                    (2 + i) * digest_size,
                    (3 + i) * digest_size,
                ))),
            self@.len() < (num_fri_layers + 2) * digest_size ==> r == Err::<
                (Vec<u8>, Vec<u8>, Vec<Vec<u8>>),
                ProofSerializationError,
            >(
                ProofSerializationError::FailedToParseCommitments(
                    DeserializationError::UnexpectedEOF,
                ),
            ),
            self@.len() > (num_fri_layers + 2) * digest_size ==> r == Err::<
                (Vec<u8>, Vec<u8>, Vec<Vec<u8>>),
                ProofSerializationError,
            >(
                ProofSerializationError::TooManyCommitmentBytes(
                    ((num_fri_layers + 2) * digest_size) as usize,
                    self@.len() as usize,
                ),
            ),
    {
        let n = self.0.len();
        let d = digest_size;
        let k = num_fri_layers;
        let q = n / d;
        let rem = n % d;
        proof {
            vstd::arithmetic::div_mod::lemma_fundamental_div_mod(n as int, d as int);
            assert(n == d * q + rem);
            assert(d * q == q * d) by (nonlinear_arith);
            assert(q * d + rem == n);
            assert(q < k + 2 ==> n < (k + 2) * d) by (nonlinear_arith)
                requires
                    rem < d && q * d + rem == n && q >= 0 && d >= 1,
            ;
            assert(q > k + 2 || (q == k + 2 && rem > 0) ==> n > (k + 2) * d) by (nonlinear_arith)
                requires
                    rem < d && q * d + rem == n && q >= 0 && d >= 1,
            ;
            assert(q == k + 2 && rem == 0 ==> n == (k + 2) * d) by (nonlinear_arith)
                requires
                    q * d + rem == n,
            ;
        }
        if q < 2 || q - 2 < k {
            return Err(
                ProofSerializationError::FailedToParseCommitments(
                    DeserializationError::UnexpectedEOF,
                ),
            );
        }
        if q - 2 > k || rem != 0 {
            // More bytes are stored than `k + 2` digests consume.
            proof {
                assert((k + 2) * d <= q * d) by (nonlinear_arith)
                    requires
                        k + 2 <= q && d >= 1,
                ;
            }
            let consumed = (k + 2) * d;
            return Err(ProofSerializationError::TooManyCommitmentBytes(consumed, n));
        }
        proof {
            assert(k + 2 == q);
            assert(n == (k + 2) * d);
            assert((0 + 1) * d <= (k + 2) * d && (1 + 1) * d <= (k + 2) * d) by (nonlinear_arith)
                requires
                    d >= 1 && k >= 0,
            ;
        }
        let trace_root = digest_at(&self.0, 0, d);
        let constraint_root = digest_at(&self.0, 1, d);
        let mut fri_roots: Vec<Vec<u8>> = Vec::new();
        let mut i: usize = 0;
        while i < k
            invariant
                n == self@.len(),
                n == (k + 2) * d,
                k + 2 <= usize::MAX,
                d >= 1,
                i <= k,
                fri_roots@.len() == i,
                forall|j: int|
                    0 <= j < i ==> #[trigger] fri_roots@[j]@ == self@.subrange(
                        (2 + j) * d,
                        (3 + j) * d,
                    ),
            decreases k - i,
        {
            proof {
                assert((2 + i) + 1 <= k + 2);
                assert(((2 + i) + 1) * d <= (k + 2) * d) by (nonlinear_arith)
                    requires
                        (2 + i) + 1 <= k + 2 && d >= 1,
                ;
            }
            let root = digest_at(&self.0, 2 + i, d);
            fri_roots.push(root);
            i = i + 1;
        }
        proof {
            assert(trace_root@ == self@.subrange(0 * d, (0 + 1) * d));
            assert(trace_root@ == self@.subrange(0, d as int));
            assert(constraint_root@ == self@.subrange(1 * d, (1 + 1) * d));
            assert(constraint_root@ == self@.subrange(d as int, 2 * d));
        }
        Ok((trace_root, constraint_root, fri_roots))
    }

    /// Serializes `self` as a 16-bit little-endian byte count followed by the
    /// raw digest bytes, appended to the `target` writer.
    pub fn write_into<W: ByteWriter>(&self, target: &mut W)
        requires
            self@.len() < 0xffff,
        ensures
            final(target).sink() == old(target).sink() + u16_le_bytes(self@.len() as nat) + self@,
    {
        target.write_u16(self.0.len() as u16);
        target.write_u8_slice(self.0.as_slice());
        proof {
            assert(final(target).sink() =~= old(target).sink() + u16_le_bytes(self@.len() as nat)
                + self@);
        }
    }

    /// Reads a commitments record from `source` at `pos`: a 16-bit byte
    /// count, then exactly that many bytes; `pos` ends right after them.
    /// Fails if and only if the source ends before the count or the counted
    /// bytes are complete.
    pub fn read_from<R: ByteReader>(source: &R, pos: &mut usize) -> (r: Result<
        Self,
        DeserializationError,
    >)
        ensures
            ({
                let b = source.bytes();
                let p0 = *old(pos) as int;
                if p0 + 2 <= b.len() && p0 + 2 + le_u16(b, p0) <= b.len() {
                    (r matches Ok(c) && c@ == b.subrange(p0 + 2, p0 + 2 + le_u16(b, p0)))
                        && *final(pos) == p0 + 2 + le_u16(b, p0)
                } else {
                    r == Err::<Self, DeserializationError>(DeserializationError::UnexpectedEOF) && (
                    *final(pos) == if p0 + 2 <= b.len() {
                        p0 + 2
                    } else {
                        p0
                    })
                }
            }),
    {
        let num_bytes = match source.read_u16(pos) {
            Ok(v) => v,
            Err(e) => {
                return Err(e);
            },
        };
        let result = match source.read_u8_vec(pos, num_bytes as usize) {
            Ok(v) => v,
            Err(e) => {
                return Err(e);
            },
        };
        Ok(Commitments(result))
    }
}

impl Default for Commitments {
    /// An empty record, to be filled with `add` across protocol phases.
    fn default() -> (r: Self)
        ensures
            r@ == Seq::<u8>::empty(),
    {
        Commitments(Vec::new())
    }
}

/// The flat concatenation of `k` digests of `d` bytes each holds `k * d`
/// bytes, and the `i`-th `d`-byte slice of it is the `i`-th digest.
proof fn lemma_flat_uniform(roots: Seq<Seq<u8>>, d: int)
    requires
        d >= 1,
        forall|i: int| 0 <= i < roots.len() ==> (#[trigger] roots[i]).len() == d,
    ensures
        roots.flatten().len() == roots.len() * d,
        forall|i: int|
            0 <= i < roots.len() ==> #[trigger] roots.flatten().subrange(i * d, (i + 1) * d)
                == roots[i],
    decreases roots.len(),
{
    if roots.len() == 0 {
        assert(roots.flatten().len() == 0);
    } else {
        let head = roots.drop_last();
        lemma_flat_uniform(head, d);
        roots.lemma_flatten_and_flatten_alt_are_equivalent();
        head.lemma_flatten_and_flatten_alt_are_equivalent();
        assert(roots.flatten_alt() == head.flatten_alt() + roots.last());
        assert(roots.flatten().len() == head.len() * d + d);
        assert(head.len() * d + d == roots.len() * d) by (nonlinear_arith)
            requires
                head.len() == roots.len() - 1,
        ;
        assert forall|i: int| 0 <= i < roots.len() implies #[trigger] roots.flatten().subrange(
            i * d,
            (i + 1) * d,
        ) == roots[i] by {
            assert(i * d >= 0 && (i + 1) * d <= roots.len() * d && i * d < (i + 1) * d) by (
            nonlinear_arith)
                requires
                    0 <= i < roots.len() && d >= 1,
            ;
            if i < roots.len() - 1 {
                assert(roots.flatten() == head.flatten() + roots.last());
                assert((i + 1) * d <= head.len() * d) by (nonlinear_arith)
                    requires
                        0 <= i && i + 1 <= head.len() && d >= 1,
                ;
                assert(roots.flatten().subrange(i * d, (i + 1) * d) =~= head.flatten().subrange(
                    i * d,
                    (i + 1) * d,
                ));
            } else {
                assert(i * d == head.len() * d) by (nonlinear_arith)
                    requires
                        i == head.len(),
                ;
                assert(roots.flatten().subrange(i * d, (i + 1) * d) =~= roots.last());
            }
        };
    }
}

/// The 16-bit length prefix written before a blob reads back as the blob's
/// length.
proof fn lemma_le_u16_round_trip(n: nat, c: Seq<u8>)
    requires
        n < 0x10000,
    ensures
        le_u16(u16_le_bytes(n) + c, 0) == n,
{
    let s = u16_le_bytes(n) + c;
    assert(s[0] == (n % 0x100) as u8 && s[1] == ((n / 0x100) % 0x100) as u8);
    assert((n / 0x100) % 0x100 == n / 0x100) by (nonlinear_arith)
        requires
            n < 0x10000,
    ;
    assert(n % 0x100 + 0x100 * (n / 0x100) == n) by (nonlinear_arith);
}

/// Round trip: a record built from a trace root, a constraint root and `k`
/// FRI roots, all of one digest size `d`, serializes to a length prefix
/// followed by the blob; reading recovers exactly the blob, and parsing with
/// `k` splits it back into the original triple. Chained with the contracts
/// of `new`, `write_into`, `read_from` and `parse`, this pins the whole
/// serialize-deserialize-parse pipeline to the original values.
pub proof fn lemma_commitments_round_trip(tr: Seq<u8>, cr: Seq<u8>, fri: Seq<Seq<u8>>, d: int)
    requires
        d >= 1,
        tr.len() == d,
        cr.len() == d,
        forall|i: int| 0 <= i < fri.len() ==> (#[trigger] fri[i]).len() == d,
        (fri.len() + 2) * d < 0xffff,
    ensures
        ({
            let c = tr + cr + fri.flatten();
            let s = u16_le_bytes(c.len()) + c;
            &&& c.len() == (fri.len() + 2) * d
            &&& le_u16(s, 0) == c.len()
            &&& s.subrange(2, 2 + c.len() as int) == c
            &&& c.subrange(0, d) == tr
            &&& c.subrange(d, 2 * d) == cr
            &&& forall|i: int|
                0 <= i < fri.len() ==> #[trigger] c.subrange((2 + i) * d, (3 + i) * d) == fri[i]
        }),
{
    let c = tr + cr + fri.flatten();
    let s = u16_le_bytes(c.len()) + c;
    lemma_flat_uniform(fri, d);
    assert(c.len() == 2 * d + fri.len() * d);
    assert(2 * d + fri.len() * d == (fri.len() + 2) * d) by (nonlinear_arith);
    lemma_le_u16_round_trip(c.len(), c);
    assert(s.subrange(2, 2 + c.len() as int) =~= c);
    assert(c.subrange(0, d) =~= tr);
    assert(c.subrange(d, 2 * d) =~= cr);
    assert forall|i: int| 0 <= i < fri.len() implies #[trigger] c.subrange((2 + i) * d, (3 + i) * d)
        == fri[i] by {
        assert(0 <= i * d && (i + 1) * d <= fri.len() * d) by (nonlinear_arith)
            requires
                0 <= i < fri.len() && d >= 1,
        ;
        assert((2 + i) * d == 2 * d + i * d && (3 + i) * d == 2 * d + (i + 1) * d) by (
        nonlinear_arith);
        let fl = fri.flatten();
        assert(c == (tr + cr) + fl);
        assert((tr + cr).len() == 2 * d);
        assert((3 + i) * d <= c.len());
        assert((i + 1) * d == i * d + d) by (nonlinear_arith);
        assert forall|j: int| 0 <= j < d implies #[trigger] c.subrange((2 + i) * d, (3 + i) * d)[j]
            == fl.subrange(i * d, (i + 1) * d)[j] by {
            assert(c.subrange((2 + i) * d, (3 + i) * d)[j] == c[(2 + i) * d + j]);
            assert(c[(2 + i) * d + j] == fl[(2 + i) * d + j - 2 * d]);
            assert((2 + i) * d + j - 2 * d == i * d + j);
            assert(fl.subrange(i * d, (i + 1) * d)[j] == fl[i * d + j]);
        };
        assert(c.subrange((2 + i) * d, (3 + i) * d) =~= fl.subrange(i * d, (i + 1) * d));
    };
}

/// Truncation safety: dropping the last byte of a serialized record leaves
/// a source on which reading must fail for want of bytes — the conditions
/// under which `read_from` returns an end-of-input error and nothing else.
#[verifier::rlimit(50)]
pub proof fn lemma_commitments_truncation(c: Seq<u8>)
    requires
        c.len() < 0xffff,
    ensures
        ({
            let s = u16_le_bytes(c.len()) + c;
            let t = s.take(s.len() - 1);
            t.len() < 2 || 2 + le_u16(t, 0) > t.len()
        }),
{
    let s = u16_le_bytes(c.len()) + c;
    let t = s.take(s.len() - 1);
    if c.len() == 0 {
        assert(t.len() < 2);
    } else {
        assert(t[0] == s[0] && t[1] == s[1]);
        lemma_le_u16_round_trip(c.len(), c);
        assert(le_u16(t, 0) == le_u16(s, 0));
        assert(t.len() == 2 + c.len() - 1);
    }
}

/// Copies the `index`-th `digest_size`-byte digest out of a flat blob.
fn digest_at(bytes: &Vec<u8>, index: usize, digest_size: usize) -> (r: Vec<u8>)
    requires
        (index + 1) * digest_size <= bytes@.len(),
        digest_size >= 1,
    ensures
        r@ == bytes@.subrange(index * digest_size, (index + 1) * digest_size),
{
    let n = bytes.len();
    proof {
        assert(index * digest_size + digest_size == (index + 1) * digest_size) by (nonlinear_arith);
        assert(index * digest_size >= 0) by (nonlinear_arith)
            requires
                index >= 0 && digest_size >= 0,
        ;
    }
    let start = index * digest_size;
    let mut r: Vec<u8> = Vec::new();
    let mut i: usize = 0;
    while i < digest_size
        invariant
            n == bytes@.len(),
            start == index * digest_size,
            start + digest_size <= n,
            i <= digest_size,
            r@ == bytes@.subrange(start as int, start + i),
        decreases digest_size - i,
    {
        r.push(bytes[start + i]);
        proof {
            assert(r@ =~= bytes@.subrange(start as int, start + i + 1));
        }
        i = i + 1;
    }
    r
}

} // verus!
