use sha2::Digest;
use vstd::prelude::*;
use vstd::string::*;
use vstd::utf8::*;

use crate::context::{
    facts_of, key_at, key_count, key_index, key_name, lemma_key_index, ContextFact, ContextKey,
    ContextState, ContextView, ConvergeError, FactView,
};
use crate::text::push_char;

verus! {

/// The SHA-256 digest of a byte sequence, as computed by the `sha2` crate.
pub uninterp spec fn sha256(data: Seq<u8>) -> Seq<u8>;

/// Trusted: `sha2::Sha256::digest`. Claims that the 32 returned bytes are the
/// named SHA-256 digest of exactly the given bytes.
#[verifier::external_body]
pub(crate) fn sha256_digest(data: &[u8]) -> (r: [u8; 32])
    ensures
        r@ == sha256(data@),
{
    sha2::Sha256::digest(data).into()
}

// ============================================================================
// Lamport Clock
// ============================================================================

/// A Lamport logical clock for causal ordering of events.
#[derive(Debug, Clone, Copy, PartialEq, Eq, PartialOrd, Ord, Default)]
pub struct LamportClock {
    time: u64,
}

impl View for LamportClock {
    type V = nat;

    closed spec fn view(&self) -> nat {
        self.time as nat
    }
}

impl LamportClock {
    /// Creates a new Lamport clock initialized to 0.
    pub fn new() -> (r: Self)
        ensures
            r@ == 0,
    {
        LamportClock { time: 0 }
    }

    /// Creates a Lamport clock at an already observed logical time.
    pub fn at(time: u64) -> (r: Self)
        ensures
            r@ == time,
    {
        LamportClock { time }
    }

    /// Returns the current logical time.
    pub fn time(&self) -> (r: u64)
        ensures
            r == self@,
    {
        self.time
    }

    /// Increments the clock and returns the new time.
    pub fn tick(&mut self) -> (r: u64)
        requires
            old(self)@ < u64::MAX,
        ensures
            final(self)@ == old(self)@ + 1,
            r == final(self)@,
    {
        self.time = self.time + 1;
        self.time
    }

    /// Updates the clock on a received timestamp: `max(local, received) + 1`.
    pub fn update(&mut self, received: u64) -> (r: u64)
        requires
            old(self)@ < u64::MAX,
            received < u64::MAX,
        ensures
            final(self)@ == (if old(self)@ >= received { old(self)@ } else { received as nat }) + 1,
            r == final(self)@,
    {
        let m = if self.time >= received { self.time } else { received };
        self.time = m + 1;
        self.time
    }
}

// ============================================================================
// Content Hash
// ============================================================================

/// Error type for `ContentHash` parsing.
#[derive(Debug, Clone, PartialEq, Eq, Structural)]
pub enum ContentHashError {
    /// Invalid hexadecimal character.
    InvalidHex,
    /// Invalid string length.
    InvalidLength,
}

impl ContentHashError {
    /// The message its display form shows.
    pub fn to_text(&self) -> (r: &'static str)
        ensures
            r@ == (match *self {
                ContentHashError::InvalidHex => "invalid hexadecimal character"@,
                ContentHashError::InvalidLength => "invalid string length (expected 64 hex chars)"@,
            }),
    {
        match self {
            ContentHashError::InvalidHex => "invalid hexadecimal character",
            ContentHashError::InvalidLength => "invalid string length (expected 64 hex chars)",
        }
    }
}

/// A SHA-256 hash of content for integrity verification.
#[derive(Debug, Clone, PartialEq, Eq, Hash)]
pub struct ContentHash(pub [u8; 32]);

impl View for ContentHash {
    type V = Seq<u8>;

    open spec fn view(&self) -> Seq<u8> {
        self.0@
    }
}

/// The hash of two hashes side by side.
pub open spec fn combine_spec(left: Seq<u8>, right: Seq<u8>) -> Seq<u8> {
    sha256(left + right)
}

/// The hash of a text: SHA-256 over its UTF-8 bytes.
pub open spec fn text_hash(content: Seq<char>) -> Seq<u8> {
    sha256(encode_utf8(content))
}

/// Lower-case hexadecimal digit for a value below sixteen.
pub open spec fn hex_digit(n: int) -> char {
    if n < 10 { ((48 + n) as u8) as char } else { ((87 + n) as u8) as char }
}

/// Lower-case hexadecimal rendering, two digits per byte, high nibble first.
pub open spec fn hex_text(b: Seq<u8>) -> Seq<char> {
    Seq::new(
        2 * b.len(),
        |i: int| if i % 2 == 0 { hex_digit((b[i / 2] / 16) as int) } else { hex_digit((b[i / 2] % 16) as int) },
    )
}

/// Value of a hexadecimal digit byte (either case), or -1 when the byte is no digit.
pub open spec fn hex_value(c: u8) -> int {
    if 48 <= c <= 57 { c - 48 }
    else if 97 <= c <= 102 { c - 87 }
    else if 65 <= c <= 70 { c - 55 }
    else { -1 }
}

/// The result of parsing a hexadecimal hash from its bytes.
pub open spec fn from_hex_spec(b: Seq<u8>) -> Result<Seq<u8>, ContentHashError> {
    if b.len() != 64 {
        Err(ContentHashError::InvalidLength)
    } else if exists|i: int| 0 <= i < 64 && hex_value(#[trigger] b[i]) < 0 {
        Err(ContentHashError::InvalidHex)
    } else {
        Ok(Seq::new(32, |i: int| (hex_value(b[2 * i]) * 16 + hex_value(b[2 * i + 1])) as u8))
    }
}

fn hex_char(n: u8) -> (c: char)
    requires
        n < 16,
    ensures
        c == hex_digit(n as int),
{
    if n < 10 { (48 + n) as char } else { (87 + n) as char }
}

fn hex_char_to_nibble(c: u8) -> (r: Option<u8>)
    ensures
        match r {
            Some(v) => hex_value(c) == v as int && v < 16,
            None => hex_value(c) < 0,
        },
{
    if 48 <= c && c <= 57 {
        Some(c - 48)
    } else if 97 <= c && c <= 102 {
        Some(c - 87)
    } else if 65 <= c && c <= 70 {
        Some(c - 55)
    } else {
        None
    }
}

impl ContentHash {
    /// The all-zero hash.
    pub fn zero() -> (r: Self)
        ensures
            r@ == Seq::new(32, |i: int| 0u8),
    {
        let r = ContentHash([0u8; 32]);
        assert(r@ =~= Seq::new(32, |i: int| 0u8));
        r
    }

    /// Computes a SHA-256 hash of the given content.
    pub fn compute(content: &str) -> (r: Self)
        ensures
            r@ == text_hash(content@),
    {
        ContentHash(sha256_digest(content.as_bytes()))
    }

    /// Combines two hashes (for Merkle tree internal nodes).
    pub fn combine(left: &Self, right: &Self) -> (r: Self)
        ensures
            r@ == combine_spec(left@, right@),
    {
        let mut buf: Vec<u8> = Vec::new();
        let mut i: usize = 0;
        while i < 32
            invariant
                i <= 32,
                buf@ == left@.take(i as int),
            decreases 32 - i,
        {
            buf.push(left.0[i]);
            assert(buf@ =~= left@.take(i as int + 1));
            i = i + 1;
        }
        let mut j: usize = 0;
        while j < 32
            invariant
                j <= 32,
                buf@ == left@ + right@.take(j as int),
            decreases 32 - j,
        {
            buf.push(right.0[j]);
            assert(buf@ =~= left@ + right@.take(j as int + 1));
            j = j + 1;
        }
        assert(left@.take(32) =~= left@);
        assert(right@.take(32) =~= right@);
        ContentHash(sha256_digest(buf.as_slice()))
    }

    /// Byte-wise equality of two hashes.
    pub fn same(&self, other: &Self) -> (r: bool)
        ensures
            r == (self@ == other@),
    {
        let mut i: usize = 0;
        while i < 32
            invariant
                i <= 32,
                forall|k: int| 0 <= k < i ==> self@[k] == other@[k],
            decreases 32 - i,
        {
            if self.0[i] != other.0[i] {
                return false;
            }
            i = i + 1;
        }
        assert(self@ =~= other@);
        true
    }

    /// Copies the hash.
    pub fn duplicate(&self) -> (r: Self)
        ensures
            r@ == self@,
    {
        ContentHash(self.0)
    }

    /// Verifies that this hash matches the given content.
    pub fn verify(&self, content: &str) -> (r: bool)
        ensures
            r == (self@ == text_hash(content@)),
    {
        self.same(&Self::compute(content))
    }

    /// Returns the hash as a lower-case hex string.
    pub fn to_hex(&self) -> (r: String)
        ensures
            r@ == hex_text(self@),
    {
        let mut s = String::new();
        let mut i: usize = 0;
        while i < 32
            invariant
                i <= 32,
                s@ == hex_text(self@.take(i as int)),
            decreases 32 - i,
        {
            let b = self.0[i];
            let ghost before = s@;
            push_char(&mut s, hex_char(b / 16));
            push_char(&mut s, hex_char(b % 16));
            assert(s@ =~= hex_text(self@.take(i as int + 1)));
            i = i + 1;
        }
        assert(self@.take(32) =~= self@);
        s
    }

    /// Parses a hash from 64 hexadecimal digits (either case).
    pub fn from_hex(s: &str) -> (r: Result<Self, ContentHashError>)
        ensures
            match (r, from_hex_spec(encode_utf8(s@))) {
                (Ok(h), Ok(b)) => h@ == b,
                (Err(e), Err(f)) => e == f,
                _ => false,
            },
    {
        let bytes = s.as_bytes();
        if bytes.len() != 64 {
            return Err(ContentHashError::InvalidLength);
        }
        let mut out = [0u8; 32];
        let mut i: usize = 0;
        while i < 32
            invariant
                i <= 32,
                bytes@ == encode_utf8(s@),
                bytes@.len() == 64,
                forall|k: int| 0 <= k < 2 * i ==> hex_value(#[trigger] bytes@[k]) >= 0,
                forall|k: int|
                    0 <= k < i ==> out@[k] == (hex_value(bytes@[2 * k]) * 16 + hex_value(bytes@[2 * k + 1])) as u8,
            decreases 32 - i,
        {
            let hi = hex_char_to_nibble(bytes[2 * i]);
            let lo = hex_char_to_nibble(bytes[2 * i + 1]);
            match (hi, lo) {
                (Some(h), Some(l)) => {
                    out[i] = h * 16 + l;
                },
                _ => {
                    proof {
                        if hi is None {
                            assert(hex_value(bytes@[2 * i as int]) < 0);
                        } else {
                            assert(hex_value(bytes@[2 * i as int + 1]) < 0);
                        }
                    }
                    return Err(ContentHashError::InvalidHex);
                },
            }
            i = i + 1;
        }
        let h = ContentHash(out);
        assert(h@ =~= Seq::new(32, |k: int| (hex_value(bytes@[2 * k]) * 16 + hex_value(bytes@[2 * k + 1])) as u8));
        Ok(h)
    }
}


// ============================================================================
// Merkle Tree
// ============================================================================

/// The byte values of a list of hashes.
pub open spec fn hash_views(s: Seq<ContentHash>) -> Seq<Seq<u8>> {
    s.map_values(|h: ContentHash| h@)
}

/// One level of a binary Merkle tree: neighbours are combined pairwise and an
/// odd last hash is combined with itself.
pub open spec fn merkle_level(hs: Seq<Seq<u8>>) -> Seq<Seq<u8>> {
    Seq::new(
        ((hs.len() + 1) / 2) as nat,
        |i: int|
            if 2 * i + 1 < hs.len() {
                combine_spec(hs[2 * i], hs[2 * i + 1])
            } else {
                combine_spec(hs[2 * i], hs[2 * i])
            },
    )
}

/// Repeated levels until a single hash remains.
pub open spec fn merkle_reduce(hs: Seq<Seq<u8>>) -> Seq<u8>
    decreases hs.len(),
{
    if hs.len() <= 1 {
        hs[0]
    } else {
        merkle_reduce(merkle_level(hs))
    }
}

/// The Merkle root of a list of hashes: the hash of the empty text for no hashes,
/// a single hash combined with itself, and otherwise the reduced tree.
pub open spec fn merkle_root_spec(hs: Seq<Seq<u8>>) -> Seq<u8> {
    if hs.len() == 0 {
        sha256(Seq::empty())
    } else if hs.len() == 1 {
        combine_spec(hs[0], hs[0])
    } else {
        merkle_reduce(hs)
    }
}

/// A Merkle tree root hash representing the integrity of a set of facts.
#[derive(Debug, Clone, PartialEq, Eq)]
pub struct MerkleRoot(pub ContentHash);

impl View for MerkleRoot {
    type V = Seq<u8>;

    open spec fn view(&self) -> Seq<u8> {
        self.0@
    }
}

fn merkle_next_level(cur: &Vec<ContentHash>) -> (r: Vec<ContentHash>)
    requires
        cur@.len() >= 1,
    ensures
        hash_views(r@) == merkle_level(hash_views(cur@)),
{
    let ghost hs = hash_views(cur@);
    let mut next: Vec<ContentHash> = Vec::new();
    let half = cur.len() / 2 + cur.len() % 2;
    let mut k: usize = 0;
    while k < half
        invariant
            half == (cur@.len() + 1) / 2,
            k <= half,
            hs == hash_views(cur@),
            next@.len() == k,
            forall|q: int| 0 <= q < next@.len() ==> (#[trigger] next@[q])@ == merkle_level(hs)[q],
        decreases half - k,
    {
        let n = cur.len();
        assert(2 * k < n) by (nonlinear_arith)
            requires k < half, half == (n + 1) / 2;
        let i = 2 * k;
        let combined = if i + 1 < cur.len() {
            ContentHash::combine(&cur[i], &cur[i + 1])
        } else {
            ContentHash::combine(&cur[i], &cur[i])
        };
        proof {
            assert(hs[i as int] == cur@[i as int]@);
            if i + 1 < cur@.len() {
                assert(hs[i as int + 1] == cur@[i as int + 1]@);
            }
        }
        next.push(combined);
        k = k + 1;
    }
    assert(hash_views(next@) =~= merkle_level(hs));
    next
}

impl MerkleRoot {
    /// Computes the Merkle root from a list of content hashes (binary tree; an
    /// empty list gives the hash of the empty text, a single hash is combined
    /// with itself, an odd last hash of a level is combined with itself).
    pub fn compute(hashes: &[ContentHash]) -> (r: Self)
        ensures
            r@ == merkle_root_spec(hash_views(hashes@)),
    {
        if hashes.len() == 0 {
            let e = "";
            proof { reveal_strlit(""); }
            let h = ContentHash::compute(e);
            assert(encode_utf8(e@) =~= Seq::<u8>::empty());
            return MerkleRoot(h);
        }
        if hashes.len() == 1 {
            proof { assert(hash_views(hashes@)[0] == hashes@[0]@); }
            return MerkleRoot(ContentHash::combine(&hashes[0], &hashes[0]));
        }
        let mut cur: Vec<ContentHash> = Vec::new();
        let mut i: usize = 0;
        while i < hashes.len()
            invariant
                i <= hashes@.len(),
                cur@.len() == i,
                forall|k: int| 0 <= k < i ==> (#[trigger] cur@[k])@ == hashes@[k]@,
            decreases hashes.len() - i,
        {
            cur.push(hashes[i].duplicate());
            i = i + 1;
        }
        assert(hash_views(cur@) =~= hash_views(hashes@));
        while cur.len() > 1
            invariant
                cur@.len() >= 1,
                merkle_reduce(hash_views(cur@)) == merkle_reduce(hash_views(hashes@)),
            decreases cur@.len(),
        {
            let next = merkle_next_level(&cur);
            proof {
                assert(hash_views(next@).len() == next@.len());
                assert(next@.len() < cur@.len());
            }
            cur = next;
        }
        proof { assert(hash_views(cur@)[0] == cur@[0]@); }
        MerkleRoot(cur[0].duplicate())
    }

    /// Returns the root hash as a hex string.
    pub fn to_hex(&self) -> (r: String)
        ensures
            r@ == hex_text(self@),
    {
        self.0.to_hex()
    }

    /// Byte-wise equality of two roots.
    pub fn same(&self, other: &Self) -> (r: bool)
        ensures
            r == (self@ == other@),
    {
        self.0.same(&other.0)
    }
}


// ============================================================================
// Fact hashing and context roots
// ============================================================================

/// The text hashed for a fact: its key name, identifier and content joined by `|`.
pub open spec fn fact_hash_text(f: FactView) -> Seq<char> {
    key_name(f.key) + "|"@ + f.id + "|"@ + f.content
}

/// The hash of a fact.
pub open spec fn fact_hash(f: FactView) -> Seq<u8> {
    text_hash(fact_hash_text(f))
}

/// The facts of the first `n` keys of a context, in key order.
pub open spec fn facts_in_key_order(v: ContextView, n: int) -> Seq<FactView>
    decreases n,
{
    if n <= 0 {
        Seq::empty()
    } else {
        facts_in_key_order(v, n - 1) + v.facts[n - 1]
    }
}

/// A context whose first `n` keys hold no fact has nothing in key order below `n`.
pub proof fn lemma_no_facts_in_key_order(v: ContextView, n: int)
    requires
        forall|i: int| 0 <= i < n ==> (#[trigger] v.facts[i]).len() == 0,
    ensures
        facts_in_key_order(v, n).len() == 0,
    decreases n,
{
    if n > 0 {
        lemma_no_facts_in_key_order(v, n - 1);
    }
}

/// The facts in key order are as many as the facts of those keys.
pub proof fn lemma_key_order_len(v: ContextView, n: int)
    ensures
        facts_in_key_order(v, n).len() == crate::context::fact_total_below(v, n),
    decreases n,
{
    if n > 0 {
        lemma_key_order_len(v, n - 1);
    }
}

/// The hashes of all facts of a context, in key order.
pub open spec fn context_hashes(v: ContextView) -> Seq<Seq<u8>> {
    facts_in_key_order(v, key_count()).map_values(|f: FactView| fact_hash(f))
}

impl ContentHash {
    /// Computes the hash of a fact from its key name, identifier and content.
    pub fn compute_fact(fact: &ContextFact) -> (r: Self)
        ensures
            r@ == fact_hash(fact@),
    {
        let mut s = String::new();
        s.append(fact.key.name());
        s.append("|");
        s.append(fact.id.as_str());
        s.append("|");
        s.append(fact.content.as_str());
        Self::compute(s.as_str())
    }
}

impl MerkleRoot {
    /// The Merkle root over all facts of a context, in key order.
    pub fn from_context(ctx: &ContextState) -> (r: Self)
        requires
            ctx.wf(),
        ensures
            r@ == merkle_root_spec(context_hashes(ctx@)),
    {
        let mut all: Vec<ContentHash> = Vec::new();
        let mut i: usize = 0;
        while i < 9
            invariant
                i <= 9,
                ctx.wf(),
                hash_views(all@) == facts_in_key_order(ctx@, i as int).map_values(|f: FactView| fact_hash(f)),
            decreases 9 - i,
        {
            let key = ContextKey::from_index(i);
            let facts = ctx.get(key);
            let ghost base = facts_in_key_order(ctx@, i as int);
            let ghost row = ctx@.facts[i as int];
            assert(row == facts_of(ctx@, key));
            let mut j: usize = 0;
            while j < facts.len()
                invariant
                    j <= facts@.len(),
                    i < 9,
                    row == facts_of(ctx@, key),
                    crate::context::fact_views(facts@) == row,
                    hash_views(all@) == (base + row.take(j as int)).map_values(|f: FactView| fact_hash(f)),
                decreases facts.len() - j,
            {
                let h = ContentHash::compute_fact(&facts[j]);
                let ghost before = all@;
                all.push(h);
                proof {
                    assert(row[j as int] == facts@[j as int]@);
                    assert((base + row.take(j as int + 1)) =~= (base + row.take(j as int)).push(row[j as int]));
                    assert(hash_views(all@) =~= hash_views(before).push(h@));
                    assert(hash_views(all@) =~= (base + row.take(j as int + 1)).map_values(|f: FactView| fact_hash(f)));
                }
                j = j + 1;
            }
            proof {
                assert(row.take(row.len() as int) =~= row);
                assert(facts_in_key_order(ctx@, i as int + 1) == base + row);
            }
            i = i + 1;
        }
        Self::compute(all.as_slice())
    }
}

fn find_in(facts: &[ContextFact], id: &String) -> (r: Option<usize>)
    ensures
        match r {
            Some(j) => j < facts@.len() && facts@[j as int].id@ == id@,
            None => forall|j: int| 0 <= j < facts@.len() ==> (#[trigger] facts@[j]).id@ != id@,
        },
{
    let mut j: usize = 0;
    while j < facts.len()
        invariant
            j <= facts@.len(),
            forall|k: int| 0 <= k < j ==> (#[trigger] facts@[k]).id@ != id@,
        decreases facts.len() - j,
    {
        if facts[j].id == *id {
            return Some(j);
        }
        j = j + 1;
    }
    None
}

// ============================================================================
// Tracked Context
// ============================================================================

/// The hash record kept for one fact: its key, identifier and hash.
pub open spec fn record_view(r: (ContextKey, String, ContentHash)) -> (ContextKey, Seq<char>, Seq<u8>) {
    (r.0, r.1@, r.2@)
}

/// Whether a hash record matches a fact stored in a context.
pub open spec fn record_matches(v: ContextView, r: (ContextKey, Seq<char>, Seq<u8>)) -> bool {
    exists|j: int|
        0 <= j < facts_of(v, r.0).len() && (#[trigger] facts_of(v, r.0)[j]).id == r.1 && fact_hash(
            facts_of(v, r.0)[j],
        ) == r.2
}

/// A context together with a Lamport clock and a hash record per tracked fact.
#[derive(Debug)]
pub struct TrackedContext {
    /// The underlying context.
    pub context: ContextState,
    /// Lamport clock for causal ordering.
    pub clock: LamportClock,
    /// The key, identifier and hash of every tracked fact, in tracking order.
    pub fact_hashes: Vec<(ContextKey, String, ContentHash)>,
}

/// A cryptographic integrity proof for a converged context.
#[derive(Debug, Clone, PartialEq, Eq)]
pub struct IntegrityProof {
    /// Merkle root over all facts in deterministic order.
    pub merkle_root: MerkleRoot,
    /// Final Lamport clock time (number of tracked events).
    pub clock_time: u64,
    /// Number of tracked facts.
    pub fact_count: usize,
}

impl TrackedContext {
    /// The hash records, in the order the facts were tracked.
    pub open spec fn records(&self) -> Seq<(ContextKey, Seq<char>, Seq<u8>)> {
        self.fact_hashes@.map_values(|r: (ContextKey, String, ContentHash)| record_view(r))
    }

    /// Consistency: the context is well formed, the clock never runs ahead of the
    /// context version, and every record matches a stored fact.
    pub closed spec fn wf(&self) -> bool {
        &&& self.context.wf()
        &&& self.clock@ <= self.context@.version
        &&& forall|k: int| 0 <= k < self.records().len() ==> record_matches(self.context@, #[trigger] self.records()[k])
        &&& self.records().len() == crate::context::fact_total_below(self.context@, key_count())
    }

    /// A consistent tracked context holds a well-formed context and a clock no later
    /// than its version.
    pub proof fn lemma_wf(&self)
        requires
            self.wf(),
        ensures
            self.context.wf(),
            self.clock@ <= self.context@.version,
            self.records().len() == crate::context::fact_total_below(self.context@, key_count()),
    {
    }

    /// Integrity always verifies while tracking is consistent: every recorded hash
    /// matches the fact stored under its key and identifier, so `verify_integrity`
    /// answers true for every tracked context the library's operations produce.
    pub proof fn law_consistent_tracking_verifies(&self)
        requires
            self.wf(),
        ensures
            forall|k: int| 0 <= k < self.records().len() ==> record_matches(self.context@, #[trigger] self.records()[k]),
    {
    }

    /// Wraps a context, recording the hash of every fact it holds, with the clock at zero.
    pub fn new(context: ContextState) -> (r: Self)
        requires
            context.wf(),
        ensures
            r.wf(),
            r.context@ == context@,
            r.clock@ == 0,
            r.records().len() == facts_in_key_order(context@, key_count()).len(),
    {
        let mut records: Vec<(ContextKey, String, ContentHash)> = Vec::new();
        let ghost v = context@;
        let mut i: usize = 0;
        while i < 9
            invariant
                i <= 9,
                context.wf(),
                v == context@,
                records@.len() == facts_in_key_order(v, i as int).len(),
                forall|k: int| 0 <= k < records@.len() ==> record_matches(v, #[trigger] record_view(records@[k])),
            decreases 9 - i,
        {
            let key = ContextKey::from_index(i);
            let facts = context.get(key);
            proof { lemma_key_index(key); }
            let ghost start = records@.len();
            let mut j: usize = 0;
            while j < facts.len()
                invariant
                    j <= facts@.len(),
                    key_index(key) == i,
                    v == context@,
                    context.wf(),
                    crate::context::fact_views(facts@) == facts_of(v, key),
                    records@.len() == start + j,
                    forall|k: int| 0 <= k < records@.len() ==> record_matches(v, #[trigger] record_view(records@[k])),
                decreases facts.len() - j,
            {
                let h = ContentHash::compute_fact(&facts[j]);
                let id = facts[j].id.clone();
                proof {
                    assert(facts_of(v, key)[j as int] == facts@[j as int]@);
                    assert(record_matches(v, (key, id@, h@)));
                }
                records.push((key, id, h));
                j = j + 1;
            }
            i = i + 1;
        }
        let r = TrackedContext { context, clock: LamportClock::new(), fact_hashes: records };
        assert forall|k: int| 0 <= k < r.records().len() implies record_matches(r.context@, #[trigger] r.records()[k]) by {
            assert(r.records()[k] == record_view(records@[k]));
        }
        proof {
            lemma_key_order_len(r.context@, key_count());
        }
        r
    }

    /// Wraps an empty context.
    pub fn empty() -> (r: Self)
        ensures
            r.wf(),
            r.clock@ == 0,
            r.context@ == (ContextView {
                facts: Seq::new(9, |i: int| Seq::<FactView>::empty()),
                proposals: Seq::new(9, |i: int| Seq::<crate::context::ProposalView>::empty()),
                dirty: Seq::<ContextKey>::empty(),
                version: 0,
            }),
            r.records().len() == 0,
    {
        let c = ContextState::new();
        proof {
            lemma_no_facts_in_key_order(c@, key_count());
        }
        Self::new(c)
    }

    /// Returns the current Lamport clock time.
    pub fn clock_time(&self) -> (r: u64)
        ensures
            r == self.clock@,
    {
        self.clock.time()
    }

    /// Ticks the clock and returns the new time.
    pub fn tick(&mut self) -> (r: u64)
        requires
            old(self).clock@ < u64::MAX,
        ensures
            r == old(self).clock@ + 1,
            final(self).clock@ == r,
            final(self).context@ == old(self).context@,
            final(self).records() == old(self).records(),
    {
        self.clock.tick()
    }

    /// The Lamport time the next local event will get.
    pub fn next_logical_time(&self) -> (r: u64)
        requires
            self.clock@ < u64::MAX,
        ensures
            r == self.clock@ + 1,
    {
        self.clock_time() + 1
    }

    /// The Merkle root of the current context.
    pub fn merkle_root(&self) -> (r: MerkleRoot)
        requires
            self.context.wf(),
        ensures
            r@ == merkle_root_spec(context_hashes(self.context@)),
    {
        MerkleRoot::from_context(&self.context)
    }

    /// Verifies that every recorded hash still matches the fact stored under its key
    /// and identifier.
    pub fn verify_integrity(&self) -> (r: bool)
        requires
            self.context.wf(),
        ensures
            r == forall|k: int| 0 <= k < self.records().len() ==> record_matches(self.context@, #[trigger] self.records()[k]),
    {
        let mut k: usize = 0;
        while k < self.fact_hashes.len()
            invariant
                self.context.wf(),
                k <= self.fact_hashes@.len(),
                forall|q: int| 0 <= q < k ==> record_matches(self.context@, #[trigger] self.records()[q]),
            decreases self.fact_hashes.len() - k,
        {
            let key = self.fact_hashes[k].0;
            let facts = self.context.get(key);
            let ghost rec = self.records()[k as int];
            let ghost row = facts_of(self.context@, key);
            assert(rec == record_view(self.fact_hashes@[k as int]));
            match find_in(facts, &self.fact_hashes[k].1) {
                None => {
                    proof {
                        if record_matches(self.context@, rec) {
                            let w = choose|w: int| 0 <= w < row.len() && (#[trigger] row[w]).id == rec.1 && fact_hash(row[w]) == rec.2;
                            assert(row[w] == facts@[w]@);
                        }
                    }
                    return false;
                },
                Some(j) => {
                    assert(row[j as int] == facts@[j as int]@);
                    let h = ContentHash::compute_fact(&facts[j]);
                    if !h.same(&self.fact_hashes[k].2) {
                        proof {
                            if record_matches(self.context@, rec) {
                                let w = choose|w: int| 0 <= w < row.len() && (#[trigger] row[w]).id == rec.1 && fact_hash(row[w]) == rec.2;
                                let i = key_index(key);
                                lemma_key_index(key);
                                self.context.lemma_wf();
                                if w < j { assert(self.context@.facts[i][w].id != self.context@.facts[i][j as int].id); }
                                if j < w { assert(self.context@.facts[i][j as int].id != self.context@.facts[i][w].id); }
                            }
                        }
                        return false;
                    }
                    assert(record_matches(self.context@, rec));
                },
            }
            k = k + 1;
        }
        true
    }

    /// Adds a fact to the context and, when it is new, records its hash and ticks the clock.
    pub fn add_fact(&mut self, fact: ContextFact) -> (r: Result<bool, ConvergeError>)
        requires
            old(self).wf(),
            old(self).context@.version < u64::MAX,
        ensures
            final(self).wf(),
            r matches Ok(true) ==> {
                &&& !crate::context::has_fact_id(old(self).context@, fact.key, fact.id@)
                &&& final(self).context@ == (ContextView {
                    facts: old(self).context@.facts.update(
                        key_index(fact.key),
                        facts_of(old(self).context@, fact.key).push(fact@),
                    ),
                    proposals: old(self).context@.proposals.update(key_index(fact.key), Seq::empty()),
                    dirty: old(self).context@.dirty.push(fact.key),
                    version: old(self).context@.version + 1,
                })
                &&& final(self).clock@ == old(self).clock@ + 1
            },
            r matches Ok(false) ==> facts_of(old(self).context@, fact.key).contains(fact@)
                && final(self).context@ == old(self).context@ && final(self).clock@ == old(self).clock@,
            r is Err ==> final(self).context@ == old(self).context@ && final(self).clock@ == old(self).clock@
                && crate::context::has_fact_id(old(self).context@, fact.key, fact.id@)
                && !facts_of(old(self).context@, fact.key).contains(fact@),
            r matches Err(e) ==> e is Conflict,
    {
        let key = fact.key;
        let id = fact.id.clone();
        let hash = ContentHash::compute_fact(&fact);
        let ghost fv = fact@;
        let ghost old_records = self.records();
        let ghost v = self.context@;
        let changed = self.context.add_fact(fact)?;
        if changed {
            proof {
                lemma_key_index(key);
                old(self).context.lemma_wf();
                let nv = self.context@;
                assert(facts_of(nv, key) == facts_of(v, key).push(fv));
                assert forall|k: int| 0 <= k < old_records.len() implies record_matches(nv, #[trigger] old_records[k]) by {
                    let rk = old_records[k];
                    assert(record_matches(v, rk));
                    let w = choose|w: int| 0 <= w < facts_of(v, rk.0).len() && (#[trigger] facts_of(v, rk.0)[w]).id == rk.1 && fact_hash(facts_of(v, rk.0)[w]) == rk.2;
                    lemma_key_index(rk.0);
                    if rk.0 == key {
                        assert(facts_of(nv, rk.0)[w] == facts_of(v, rk.0)[w]);
                    } else {
                        assert(key_index(rk.0) != key_index(key));
                        assert(facts_of(nv, rk.0) == facts_of(v, rk.0));
                    }
                }
                assert(facts_of(nv, key)[facts_of(v, key).len() as int] == fv);
                assert(record_matches(nv, (key, id@, hash@)));
                crate::context::lemma_total_push(v, nv, key_index(key), fv, key_count());
            }
            self.fact_hashes.push((key, id, hash));
            self.clock.tick();
            proof {
                assert forall|k: int| 0 <= k < self.records().len() implies record_matches(self.context@, #[trigger] self.records()[k]) by {
                    if k < old_records.len() {
                        assert(self.records()[k] == old_records[k]);
                    } else {
                        assert(self.records()[k] == (key, id@, hash@));
                    }
                }
            }
        }
        Ok(changed)
    }

    /// Clears the context's dirty keys; facts, records and clock stay as they are.
    pub fn clear_dirty(&mut self)
        requires
            old(self).wf(),
        ensures
            final(self).wf(),
            final(self).context@ == (ContextView { dirty: Seq::empty(), ..old(self).context@ }),
            final(self).clock == old(self).clock,
            final(self).records() == old(self).records(),
    {
        let ghost v = self.context@;
        self.context.clear_dirty();
        proof {
            crate::context::lemma_total_same_facts(v, self.context@, key_count());
            assert forall|k: int| 0 <= k < self.records().len() implies record_matches(self.context@, #[trigger] self.records()[k]) by {
                assert(self.records()[k] == old(self).records()[k]);
                assert(record_matches(v, old(self).records()[k]));
                assert(facts_of(self.context@, self.records()[k].0) == facts_of(v, self.records()[k].0));
            }
        }
    }

    /// Drains the context's pending proposals, in key order; facts, records and clock
    /// stay as they are.
    pub fn drain_proposals(&mut self) -> (r: Vec<crate::context::ProposedFact>)
        requires
            old(self).wf(),
        ensures
            final(self).wf(),
            crate::context::proposal_views(r@) == crate::context::pending_below(old(self).context@, key_count()),
            final(self).context@ == (ContextView {
                proposals: Seq::new(9, |i: int| Seq::<crate::context::ProposalView>::empty()),
                ..old(self).context@
            }),
            final(self).clock == old(self).clock,
            final(self).records() == old(self).records(),
    {
        let ghost v = self.context@;
        let r = self.context.drain_proposals();
        proof {
            crate::context::lemma_total_same_facts(v, self.context@, key_count());
            assert forall|k: int| 0 <= k < self.records().len() implies record_matches(self.context@, #[trigger] self.records()[k]) by {
                assert(self.records()[k] == old(self).records()[k]);
                assert(record_matches(v, old(self).records()[k]));
                assert(facts_of(self.context@, self.records()[k].0) == facts_of(v, self.records()[k].0));
            }
        }
        r
    }

    /// Stages a proposal in the context; facts, records and clock stay as they are.
    pub fn add_proposal(&mut self, proposal: crate::context::ProposedFact) -> (r: Result<bool, ConvergeError>)
        requires
            old(self).wf(),
        ensures
            final(self).wf(),
            crate::context::proposal_add_outcome(old(self).context@, proposal@, r, final(self).context@),
            final(self).context@.facts == old(self).context@.facts,
            final(self).context@.version == old(self).context@.version,
            final(self).clock == old(self).clock,
            final(self).records() == old(self).records(),
    {
        let ghost v = self.context@;
        let r = self.context.add_proposal(proposal);
        proof {
            crate::context::lemma_total_same_facts(v, self.context@, key_count());
            assert forall|k: int| 0 <= k < self.records().len() implies record_matches(self.context@, #[trigger] self.records()[k]) by {
                assert(self.records()[k] == old(self).records()[k]);
                assert(record_matches(v, old(self).records()[k]));
                assert(facts_of(self.context@, self.records()[k].0) == facts_of(v, self.records()[k].0));
            }
        }
        r
    }

    /// Removes pending proposals with the given identifier under a key; facts, records
    /// and clock stay as they are.
    pub fn remove_proposal(&mut self, key: ContextKey, id: &crate::ids::ProposalId)
        requires
            old(self).wf(),
        ensures
            final(self).wf(),
            final(self).context@ == (ContextView {
                proposals: old(self).context@.proposals.update(
                    key_index(key),
                    crate::context::without_id(crate::context::proposals_of(old(self).context@, key), id@),
                ),
                ..old(self).context@
            }),
            final(self).clock == old(self).clock,
            final(self).records() == old(self).records(),
    {
        let ghost v = self.context@;
        self.context.remove_proposal(key, id);
        proof {
            crate::context::lemma_total_same_facts(v, self.context@, key_count());
            assert forall|k: int| 0 <= k < self.records().len() implies record_matches(self.context@, #[trigger] self.records()[k]) by {
                assert(self.records()[k] == old(self).records()[k]);
                assert(record_matches(v, old(self).records()[k]));
                assert(facts_of(self.context@, self.records()[k].0) == facts_of(v, self.records()[k].0));
            }
        }
    }

    /// Extracts an integrity proof: the Merkle root, the clock time and the number
    /// of tracked facts.
    pub fn extract_proof(&self) -> (r: IntegrityProof)
        requires
            self.context.wf(),
        ensures
            r.merkle_root@ == merkle_root_spec(context_hashes(self.context@)),
            r.clock_time == self.clock@,
            r.fact_count == self.records().len(),
    {
        IntegrityProof {
            merkle_root: MerkleRoot::from_context(&self.context),
            clock_time: self.clock.time(),
            fact_count: self.fact_hashes.len(),
        }
    }
}

} // verus!
