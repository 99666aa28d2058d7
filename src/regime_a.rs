//! Regime A: a single-shot masked threshold test between a trusted party, a
//! client holding a bit string and a server holding nothing but the trusted
//! party's output.
//!
//! The group `<g>` is modelled additively: `g^x` is represented by `x mod p`.
//! The proof object is a mock used for executable testing; it is not zero
//! knowledge.
use vstd::prelude::*;
use vstd::std_specs::hash::DefaultHasherAdditionalSpecFns;
use std::collections::hash_map::DefaultHasher;
use std::hash::{Hash, Hasher};
use crate::arith::{mod_add, mod_mul, mod_sub};
use crate::xorshift::{XorShift64, seed_state, xorshift_iter};

verus! {

/// `2^61 - 1`, a Mersenne prime.
pub const DEFAULT_PRIME: u64 = 2_305_843_009_213_693_951;

pub const DEFAULT_GENERATOR: u64 = 5;

// ---------------------------------------------------------------------------
// Hashing

/// The writes that std's `Hash` for a byte vector makes into a hasher.
pub uninterp spec fn bytes_writes(d: Seq<u8>) -> Seq<Seq<u8>>;

/// The writes that std's `Hash` for a `u64` makes into a hasher.
pub uninterp spec fn word_writes(x: u64) -> Seq<Seq<u8>>;

/// Relies on `<Vec<u8> as Hash>::hash`: it appends to the hasher writes that
/// depend on the vector's contents alone.
#[verifier::external_body]
fn feed_bytes(d: &Vec<u8>, h: &mut DefaultHasher)
    ensures
        final(h)@ == old(h)@ + bytes_writes(d@),
{
    d.hash(h)
}

/// Relies on `<u64 as Hash>::hash`: it appends to the hasher writes that
/// depend on the value alone.
#[verifier::external_body]
fn feed_word(x: u64, h: &mut DefaultHasher)
    ensures
        final(h)@ == old(h)@ + word_writes(x),
{
    x.hash(h)
}

/// The digest of a byte string.
pub open spec fn hash_of_bytes(d: Seq<u8>) -> u64 {
    DefaultHasher::spec_finish(bytes_writes(d))
}

/// The digest of one word.
pub open spec fn hash_of_word(x: u64) -> u64 {
    DefaultHasher::spec_finish(word_writes(x))
}

/// The digest of a transcript `(msgid, root, c_d, res_total)`, hashed field by
/// field in that order.
pub open spec fn hash_of_transcript(msgid: u64, root: u64, c_d: u64, res_total: u64) -> u64 {
    DefaultHasher::spec_finish(
        word_writes(msgid) + word_writes(root) + word_writes(c_d) + word_writes(res_total),
    )
}

fn hash64_bytes(d: &Vec<u8>) -> (r: u64)
    ensures
        r == hash_of_bytes(d@),
{
    let mut h = DefaultHasher::new();
    feed_bytes(d, &mut h);
    assert(h@ =~= bytes_writes(d@));
    h.finish()
}

fn hash64_word(x: u64) -> (r: u64)
    ensures
        r == hash_of_word(x),
{
    let mut h = DefaultHasher::new();
    feed_word(x, &mut h);
    assert(h@ =~= word_writes(x));
    h.finish()
}

fn hash64_transcript(msgid: u64, root: u64, c_d: u64, res_total: u64) -> (r: u64)
    ensures
        r == hash_of_transcript(msgid, root, c_d, res_total),
{
    let mut h = DefaultHasher::new();
    feed_word(msgid, &mut h);
    feed_word(root, &mut h);
    feed_word(c_d, &mut h);
    feed_word(res_total, &mut h);
    assert(h@ =~= word_writes(msgid) + word_writes(root) + word_writes(c_d) + word_writes(
        res_total,
    ));
    h.finish()
}

// ---------------------------------------------------------------------------
// Parameters

/// Public protocol parameters: the prime `p`, the generator `g`, the chunk
/// length `ell`, the number of chunks and the distance threshold `epsilon`.
#[derive(Clone, Copy, Debug)]
pub struct RegimeAParams {
    pub p: u64,
    pub g: u64,
    pub ell: usize,
    pub b_chunks: usize,
    pub epsilon: usize,
}

impl RegimeAParams {
    /// Parameters are usable when the modulus leaves room for a nonzero draw,
    /// chunks are nonempty, the threshold is at most a chunk's length, and
    /// the total length fits a `usize`.
    pub open spec fn wf(&self) -> bool {
        &&& self.p > 1
        &&& self.ell > 0
        &&& self.b_chunks > 0
        &&& self.epsilon <= self.ell
        &&& self.ell * self.b_chunks <= usize::MAX
    }

    /// Length of a full bit string: `ell * b_chunks`.
    pub open spec fn lambda_spec(&self) -> int {
        self.ell * self.b_chunks
    }

    pub fn new(ell: usize, b_chunks: usize, epsilon: usize) -> (r: Self)
        requires
            ell > 0,
            b_chunks > 0,
            epsilon <= ell,
        ensures
            r.p == DEFAULT_PRIME,
            r.g == DEFAULT_GENERATOR,
            r.ell == ell,
            r.b_chunks == b_chunks,
            r.epsilon == epsilon,
            ell * b_chunks <= usize::MAX ==> r.wf(),
    {
        RegimeAParams { p: DEFAULT_PRIME, g: DEFAULT_GENERATOR, ell, b_chunks, epsilon }
    }

    pub fn lambda(&self) -> (r: usize)
        requires
            self.ell * self.b_chunks <= usize::MAX,
        ensures
            r == self.lambda_spec(),
    {
        self.ell * self.b_chunks
    }
}

// ---------------------------------------------------------------------------
// Distances and the threshold polynomial

/// Number of positions below `n` at which `x` and `y` differ.
pub open spec fn count_diff(x: Seq<u8>, y: Seq<u8>, n: nat) -> nat
    decreases n,
{
    if n == 0 {
        0
    } else {
        count_diff(x, y, (n - 1) as nat) + if x[n - 1] != y[n - 1] {
            1nat
        } else {
            0nat
        }
    }
}

/// Hamming distance over the common prefix of `x` and `y`.
pub open spec fn hamming(x: Seq<u8>, y: Seq<u8>) -> nat {
    count_diff(x, y, if x.len() <= y.len() { x.len() } else { y.len() })
}

/// The product `prod_{t = eps}^{eps + k - 1} (dist - t) mod p`, reduced after
/// each factor.
pub open spec fn z_upto(dist: int, eps: int, k: nat, p: int) -> int
    decreases k,
{
    if k == 0 {
        1
    } else {
        (z_upto(dist, eps, (k - 1) as nat, p) * ((dist - (eps + k - 1)) % p)) % p
    }
}

/// `Z(dist) = prod_{t = epsilon}^{ell} (dist - t) mod p`: zero exactly when
/// `epsilon <= dist <= ell` (for `p` prime and distances below `p`).
pub open spec fn z_poly_spec(params: RegimeAParams, dist: int) -> int {
    z_upto(dist, params.epsilon as int, (params.ell - params.epsilon + 1) as nat, params.p as int)
}

/// Bits of a string: every entry is 0 or 1.
pub open spec fn all_bits(d: Seq<u8>) -> bool {
    forall|i: int| 0 <= i < d.len() ==> (#[trigger] d[i] == 0 || d[i] == 1)
}

/// Chunk `b` of `d`: positions `[b * ell, (b + 1) * ell)`.
pub open spec fn chunk_spec(d: Seq<u8>, ell: int, b: int) -> Seq<u8> {
    d.subrange(b * ell, b * ell + ell)
}

/// `(s[0] + ... + s[k - 1]) mod p`, reduced after each term.
pub open spec fn sum_mod(s: Seq<u64>, k: nat, p: int) -> int
    decreases k,
{
    if k == 0 {
        0
    } else {
        (sum_mod(s, (k - 1) as nat, p) + s[k - 1]) % p
    }
}

// ---------------------------------------------------------------------------
// Trusted party

/// The trusted party's output: per-item coefficients `gamma`, per-chunk
/// masks `r_masks` with their sum `r_sum`, and the database of bit strings.
#[derive(Clone, Debug)]
pub struct TtpSetup {
    pub params: RegimeAParams,
    pub gamma: Vec<u64>,
    pub r_masks: Vec<u64>,
    pub r_sum: u64,
    pub db: Vec<Vec<u8>>,
}

impl TtpSetup {
    pub open spec fn wf(&self) -> bool {
        &&& self.params.wf()
        &&& self.gamma@.len() == self.db@.len()
        &&& self.r_masks@.len() == self.params.b_chunks
        &&& forall|i: int|
            0 <= i < self.db@.len() ==> (#[trigger] self.db@[i])@.len()
                == self.params.lambda_spec()
        &&& self.r_sum < self.params.p
    }

    /// `sum_{i < n} gamma_i * Z(dist(query, chunk b of db_i)) mod p`.
    pub open spec fn s_upto(&self, query: Seq<u8>, b: int, n: nat) -> int
        decreases n,
    {
        if n == 0 {
            0
        } else {
            let i = n - 1;
            let dist = hamming(query, chunk_spec(self.db@[i]@, self.params.ell as int, b));
            let p = self.params.p as int;
            (self.s_upto(query, b, (n - 1) as nat) + (self.gamma@[i] * z_poly_spec(
                self.params,
                dist as int,
            )) % p) % p
        }
    }

    /// The unmasked exponent of chunk `b` for a query chunk.
    pub open spec fn s_spec(&self, query: Seq<u8>, b: int) -> int {
        self.s_upto(query, b, self.db@.len())
    }

    /// The masked exponent of chunk `b`: `s + r_b mod p`.
    pub open spec fn masked_spec(&self, query: Seq<u8>, b: int) -> int {
        (self.s_spec(query, b) + self.r_masks@[b]) % (self.params.p as int)
    }

    /// Sum of the masked exponents of the first `k` chunks of `d`.
    pub open spec fn res_upto(&self, d: Seq<u8>, k: nat) -> int
        decreases k,
    {
        if k == 0 {
            0
        } else {
            let b = k - 1;
            (self.res_upto(d, (k - 1) as nat) + self.masked_spec(
                chunk_spec(d, self.params.ell as int, b),
                b,
            )) % (self.params.p as int)
        }
    }

    /// Sum of the masked exponents over all chunks of `d`.
    pub open spec fn res_total_spec(&self, d: Seq<u8>) -> int {
        self.res_upto(d, self.params.b_chunks as nat)
    }

    /// Draws `gamma_i` in `[1, p)` for every database item, then one mask in
    /// `[0, p)` per chunk, all from a xorshift generator seeded with `seed`.
    pub fn setup(db: Vec<Vec<u8>>, params: RegimeAParams, seed: u64) -> (r: Self)
        requires
            db@.len() > 0,
            params.wf(),
            forall|i: int| 0 <= i < db@.len() ==> (#[trigger] db@[i])@.len() == params.lambda_spec(),
            forall|i: int| 0 <= i < db@.len() ==> all_bits(#[trigger] db@[i]@),
        ensures
            r.wf(),
            r.params == params,
            r.db == db,
            forall|i: int|
                0 <= i < db@.len() ==> (#[trigger] r.gamma@[i]) as int == 1 + (xorshift_iter(
                    seed_state(seed),
                    (i + 1) as nat,
                ) as int) % (params.p - 1),
            forall|j: int|
                0 <= j < params.b_chunks ==> (#[trigger] r.r_masks@[j]) as int == (xorshift_iter(
                    seed_state(seed),
                    (db@.len() + j + 1) as nat,
                ) as int) % (params.p as int),
            r.r_sum == sum_mod(r.r_masks@, params.b_chunks as nat, params.p as int),
    {
        let p = params.p;
        let n = db.len();
        let mut rng = XorShift64::new(seed);
        let ghost s0 = seed_state(seed);
        let mut gamma: Vec<u64> = Vec::new();
        let mut i: usize = 0;
        while i < n
            invariant
                i <= n,
                n == db@.len(),
                p == params.p,
                params.wf(),
                rng.state == xorshift_iter(s0, i as nat),
                gamma@.len() == i,
                forall|j: int|
                    0 <= j < i ==> (#[trigger] gamma@[j]) as int == 1 + (xorshift_iter(
                        s0,
                        (j + 1) as nat,
                    ) as int) % (p - 1),
            decreases n - i,
        {
            let g = rng.next_field_nonzero(p);
            gamma.push(g);
            i = i + 1;
        }
        let mut r_masks: Vec<u64> = Vec::new();
        let mut r_sum: u64 = 0;
        let mut b: usize = 0;
        while b < params.b_chunks
            invariant
                b <= params.b_chunks,
                n == db@.len(),
                p == params.p,
                params.wf(),
                rng.state == xorshift_iter(s0, (n + b) as nat),
                r_masks@.len() == b,
                forall|j: int|
                    0 <= j < b ==> (#[trigger] r_masks@[j]) as int == (xorshift_iter(
                        s0,
                        (n + j + 1) as nat,
                    ) as int) % (p as int),
                r_sum == sum_mod(r_masks@, b as nat, p as int),
                r_sum < p,
            decreases params.b_chunks - b,
        {
            let m = rng.next_field(p);
            let ghost before = r_masks@;
            r_masks.push(m);
            proof {
                assert(r_masks@.subrange(0, b as int) =~= before);
            }
            r_sum = mod_add(r_sum, m, p);
            proof {
                lemma_sum_mod_prefix(r_masks@, before, b as nat, p as int);
            }
            b = b + 1;
        }
        TtpSetup { params, gamma, r_masks, r_sum, db }
    }

    /// Chunk `b` of a full-length bit string.
    fn chunk<'a>(&self, d: &'a [u8], b: usize) -> (r: &'a [u8])
        requires
            self.params.wf(),
            b < self.params.b_chunks,
            d@.len() >= self.params.lambda_spec(),
        ensures
            r@ == chunk_spec(d@, self.params.ell as int, b as int),
    {
        let ell = self.params.ell;
        proof {
            assert((b + 1) * ell <= self.params.b_chunks * ell) by (nonlinear_arith)
                requires
                    b < self.params.b_chunks,
            ;
            assert(self.params.b_chunks * ell == ell * self.params.b_chunks) by (nonlinear_arith);
            assert((b + 1) * ell == b * ell + ell) by (nonlinear_arith);
        }
        let start = b * ell;
        vstd::slice::slice_subrange(d, start, start + ell)
    }

    /// Number of positions, over the common prefix, at which `x` and `y`
    /// differ.
    fn hamming_chunk(&self, x: &[u8], y: &[u8]) -> (r: usize)
        ensures
            r == hamming(x@, y@),
    {
        let n = if x.len() <= y.len() {
            x.len()
        } else {
            y.len()
        };
        let mut count: usize = 0;
        let mut i: usize = 0;
        while i < n
            invariant
                i <= n,
                n <= x@.len(),
                n <= y@.len(),
                n == (if x@.len() <= y@.len() { x@.len() } else { y@.len() }),
                count == count_diff(x@, y@, i as nat),
                count <= i,
            decreases n - i,
        {
            if x[i] != y[i] {
                count = count + 1;
            }
            i = i + 1;
        }
        count
    }

    /// `Z(distance)`: the product of `distance - t` over `t` in
    /// `[epsilon, ell]`, modulo `p`.
    fn z_poly(&self, distance: usize) -> (r: u64)
        requires
            self.params.wf(),
        ensures
            r as int == z_poly_spec(self.params, distance as int),
    {
        let p = self.params.p;
        let ell = self.params.ell;
        let eps = self.params.epsilon;
        let mut acc: u64 = 1;
        let mut t: usize = eps;
        loop
            invariant_except_break
                acc as int == z_upto(distance as int, eps as int, (t - eps) as nat, p as int),
            invariant
                eps <= t <= ell,
                p > 1,
                p == self.params.p,
                ell == self.params.ell,
                eps == self.params.epsilon,
            ensures
                acc as int == z_upto(
                    distance as int,
                    eps as int,
                    (ell - eps + 1) as nat,
                    p as int,
                ),
            decreases ell - t,
        {
            let term = mod_sub(distance as u64 % p, t as u64 % p, p);
            proof {
                vstd::arithmetic::div_mod::lemma_sub_mod_noop(
                    distance as int,
                    t as int,
                    p as int,
                );
                assert(eps + (t - eps + 1) - 1 == t);
            }
            acc = mod_mul(acc, term, p);
            if t == ell {
                break;
            }
            t = t + 1;
        }
        acc
    }

    /// The unmasked exponent of chunk `chunk_idx` for a query chunk.
    fn s_for_chunk(&self, query: &[u8], chunk_idx: usize) -> (r: u64)
        requires
            self.wf(),
            chunk_idx < self.params.b_chunks,
        ensures
            r as int == self.s_spec(query@, chunk_idx as int),
            r < self.params.p,
    {
        let p = self.params.p;
        let mut acc: u64 = 0;
        let mut i: usize = 0;
        while i < self.db.len()
            invariant
                self.wf(),
                chunk_idx < self.params.b_chunks,
                p == self.params.p,
                i <= self.db@.len(),
                acc as int == self.s_upto(query@, chunk_idx as int, i as nat),
                acc < p,
            decreases self.db@.len() - i,
        {
            let item = self.db[i].as_slice();
            let c = self.chunk(item, chunk_idx);
            let d = self.hamming_chunk(query, c);
            let z = self.z_poly(d);
            acc = mod_add(acc, mod_mul(self.gamma[i], z, p), p);
            i = i + 1;
        }
        acc
    }

    /// The masked exponent of chunk `chunk_idx` for a query chunk.
    fn masked_exponent(&self, query: &[u8], chunk_idx: usize) -> (r: u64)
        requires
            self.wf(),
            chunk_idx < self.params.b_chunks,
        ensures
            r as int == self.masked_spec(query@, chunk_idx as int),
            r < self.params.p,
    {
        mod_add(self.s_for_chunk(query, chunk_idx), self.r_masks[chunk_idx], self.params.p)
    }

    /// Sum over all chunks of `d` of the masked exponents, modulo `p`.
    fn res_total(&self, d: &[u8]) -> (r: u64)
        requires
            self.wf(),
            d@.len() >= self.params.lambda_spec(),
        ensures
            r as int == self.res_total_spec(d@),
            r < self.params.p,
    {
        let mut total: u64 = 0;
        let mut b: usize = 0;
        while b < self.params.b_chunks
            invariant
                self.wf(),
                d@.len() >= self.params.lambda_spec(),
                b <= self.params.b_chunks,
                total as int == self.res_upto(d@, b as nat),
                total < self.params.p,
            decreases self.params.b_chunks - b,
        {
            let c = self.chunk(d, b);
            let res_b = self.masked_exponent(c, b);
            total = mod_add(total, res_b, self.params.p);
            b = b + 1;
        }
        total
    }
}

/// Extending a sequence leaves the reduced sum of a prefix unchanged.
proof fn lemma_sum_mod_prefix(s: Seq<u64>, t: Seq<u64>, k: nat, p: int)
    requires
        k <= t.len(),
        t.len() <= s.len(),
        s.subrange(0, t.len() as int) == t,
    ensures
        sum_mod(s, k, p) == sum_mod(t, k, p),
    decreases k,
{
    if k > 0 {
        assert(s[k - 1] == s.subrange(0, t.len() as int)[k - 1]);
        lemma_sum_mod_prefix(s, t, (k - 1) as nat, p);
    }
}

// ---------------------------------------------------------------------------
// Client and server

/// The mock proof: the client's message id, a hash of its transcript, and
/// the witness bit string in the clear.
#[derive(Clone, Debug)]
pub struct MockProof {
    msgid: u64,
    transcript_hash: u64,
    witness_bits: Vec<u8>,
}

impl MockProof {
    pub closed spec fn msgid_spec(&self) -> u64 {
        self.msgid
    }

    pub closed spec fn transcript_spec(&self) -> u64 {
        self.transcript_hash
    }

    pub closed spec fn witness(&self) -> Seq<u8> {
        self.witness_bits@
    }
}

/// What the client sends: a commitment `c_d` to its string, the root
/// `hash(c_d)`, the masked total and the proof.
#[derive(Clone, Debug)]
pub struct ClientSubmission {
    pub msgid: u64,
    pub root: u64,
    pub c_d: u64,
    pub res_total: u64,
    pub proof: MockProof,
}

#[derive(Debug, Clone, Copy, PartialEq, Eq, Structural)]
pub enum ServerDecision {
    Yes,
    No,
}

/// The server's answer to a submission: `None` when any check on the proof
/// fails; otherwise `Yes` exactly when the unmasked total `res_total - r_sum`
/// is nonzero, that is when some chunk is close to some database item.
pub open spec fn decide_spec(setup: TtpSetup, sub: ClientSubmission) -> Option<ServerDecision> {
    let w = sub.proof.witness();
    if sub.proof.msgid_spec() != sub.msgid {
        None
    } else if !all_bits(w) {
        None
    } else if hash_of_bytes(w) != sub.c_d {
        None
    } else if hash_of_word(sub.c_d) != sub.root {
        None
    } else if setup.res_total_spec(w) != sub.res_total as int {
        None
    } else if hash_of_transcript(sub.msgid, sub.root, sub.c_d, sub.res_total)
        != sub.proof.transcript_spec() {
        None
    } else if sub.res_total != setup.r_sum {
        Some(ServerDecision::Yes)
    } else {
        Some(ServerDecision::No)
    }
}

/// Client logic: commit to `d`, add up the masked exponents of its chunks and
/// attach a mock proof over the transcript.
pub fn client_submit(setup: &TtpSetup, d: Vec<u8>, msgid: u64) -> (r: ClientSubmission)
    requires
        setup.wf(),
        d@.len() == setup.params.lambda_spec(),
        all_bits(d@),
    ensures
        r.msgid == msgid,
        r.c_d == hash_of_bytes(d@),
        r.root == hash_of_word(r.c_d),
        r.res_total as int == setup.res_total_spec(d@),
        r.proof.msgid_spec() == msgid,
        r.proof.witness() == d@,
        r.proof.transcript_spec() == hash_of_transcript(msgid, r.root, r.c_d, r.res_total),
{
    let c_d = hash64_bytes(&d);
    let root = hash64_word(c_d);
    let res_total = setup.res_total(d.as_slice());
    let transcript_hash = hash64_transcript(msgid, root, c_d, res_total);
    let proof = MockProof { msgid, transcript_hash, witness_bits: d };
    ClientSubmission { msgid, root, c_d, res_total, proof }
}

/// Whether every entry of `d` is 0 or 1.
fn is_bit_string(d: &Vec<u8>) -> (r: bool)
    ensures
        r == all_bits(d@),
{
    let mut i: usize = 0;
    while i < d.len()
        invariant
            i <= d@.len(),
            forall|j: int| 0 <= j < i ==> (#[trigger] d@[j] == 0 || d@[j] == 1),
        decreases d@.len() - i,
    {
        if d[i] != 0 && d[i] != 1 {
            return false;
        }
        i = i + 1;
    }
    true
}

/// Server logic: check the proof against the submission, then decide.
pub fn server_verify_and_decide(setup: &TtpSetup, submission: &ClientSubmission) -> (r: Option<
    ServerDecision,
>)
    requires
        setup.wf(),
        submission.proof.witness().len() >= setup.params.lambda_spec(),
    ensures
        r == decide_spec(*setup, *submission),
{
    let proof = &submission.proof;
    if proof.msgid != submission.msgid {
        return None;
    }
    if !is_bit_string(&proof.witness_bits) {
        return None;
    }
    let expected_cd = hash64_bytes(&proof.witness_bits);
    if expected_cd != submission.c_d {
        return None;
    }
    let expected_root = hash64_word(submission.c_d);
    if expected_root != submission.root {
        return None;
    }
    let expected_res_total = setup.res_total(proof.witness_bits.as_slice());
    if expected_res_total != submission.res_total {
        return None;
    }
    let expected_transcript = hash64_transcript(
        submission.msgid,
        submission.root,
        submission.c_d,
        submission.res_total,
    );
    if expected_transcript != proof.transcript_hash {
        return None;
    }
    let res_prime_total = mod_sub(submission.res_total, setup.r_sum, setup.params.p);
    proof {
        let a = submission.res_total as int;
        let b = setup.r_sum as int;
        let p = setup.params.p as int;
        if a != b {
            assert((a - b) % p != 0) by (nonlinear_arith)
                requires
                    0 <= a < p,
                    0 <= b < p,
                    a != b,
            ;
        }
    }
    if res_prime_total != 0 {
        Some(ServerDecision::Yes)
    } else {
        Some(ServerDecision::No)
    }
}

} // verus!
