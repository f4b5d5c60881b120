//! The block record, its canonical JSON encoding and its digest.
use vstd::prelude::*;
use vstd::utf8::encode_utf8;
use crate::encoding::{decimal, json_string, json_string_of, lemma_encode_utf8_concat, push_decimal, push_str};

verus! {

/// The lowercase hexadecimal SHA-256 digest that crypto_hash computes for some bytes.
pub uninterp spec fn sha256_hex_of(data: Seq<u8>) -> Seq<char>;

/// The mathematical value of a [`Transaction`].
pub struct TransactionView {
    pub id: Seq<char>,
    pub timestamp: u64,
    pub payload: Seq<char>,
}

/// The mathematical value of a [`Block`].
pub struct BlockView {
    pub index: u64,
    pub timestamp: u64,
    pub proof: u64,
    pub transactions: Seq<TransactionView>,
    pub previous_block_hash: Seq<char>,
}

#[derive(Debug, Clone)]
pub struct Transaction {
    pub id: String,
    pub timestamp: u64,
    pub payload: String,
}

#[derive(Debug, Clone)]
pub struct Block {
    pub index: u64,
    pub timestamp: u64,
    pub proof: u64,
    pub transactions: Vec<Transaction>,
    pub previous_block_hash: String,
}

impl View for Transaction {
    type V = TransactionView;

    open spec fn view(&self) -> TransactionView {
        TransactionView { id: self.id@, timestamp: self.timestamp, payload: self.payload@ }
    }
}

impl View for Block {
    type V = BlockView;

    open spec fn view(&self) -> BlockView {
        BlockView {
            index: self.index,
            timestamp: self.timestamp,
            proof: self.proof,
            transactions: self.transactions@.map_values(|t: Transaction| t@),
            previous_block_hash: self.previous_block_hash@,
        }
    }
}

impl BlockView {
    /// The same block with its proof replaced.
    pub open spec fn with_proof(self, proof: u64) -> BlockView {
        BlockView {
            index: self.index,
            timestamp: self.timestamp,
            proof,
            transactions: self.transactions,
            previous_block_hash: self.previous_block_hash,
        }
    }
}

/// `{"id":…,"timestamp":…,"payload":…}`
pub open spec fn transaction_json(t: TransactionView) -> Seq<char> {
    "{\"id\":"@ + json_string_of(t.id) + ",\"timestamp\":"@ + decimal(t.timestamp as nat)
        + ",\"payload\":"@ + json_string_of(t.payload) + "}"@
}

/// The transactions' encodings separated by commas (without the brackets).
pub open spec fn transactions_json(ts: Seq<TransactionView>) -> Seq<char>
    decreases ts.len(),
{
    if ts.len() == 0 {
        Seq::empty()
    } else if ts.len() == 1 {
        transaction_json(ts[0])
    } else {
        transactions_json(ts.drop_last()) + ","@ + transaction_json(ts.last())
    }
}

/// The canonical encoding of a block: its five fields in declaration order,
/// as compact JSON.
pub open spec fn block_json(b: BlockView) -> Seq<char> {
    "{\"index\":"@ + decimal(b.index as nat) + ",\"timestamp\":"@ + decimal(b.timestamp as nat)
        + ",\"proof\":"@ + decimal(b.proof as nat) + ",\"transactions\":["@
        + transactions_json(b.transactions) + "],\"previous_block_hash\":"@
        + json_string_of(b.previous_block_hash) + "}"@
}

/// The digest of a block: SHA-256 over the UTF-8 bytes of its encoding, in hex.
pub open spec fn digest(b: BlockView) -> Seq<char> {
    sha256_hex_of(encode_utf8(block_json(b)))
}

/// A digest is valid for a prefix when it starts with it.
pub open spec fn is_valid(hash: Seq<char>, prefix: Seq<char>) -> bool {
    prefix.is_prefix_of(hash)
}

/// The block is mined for `prefix`.
pub open spec fn satisfies(b: BlockView, prefix: Seq<char>) -> bool {
    is_valid(digest(b), prefix)
}

/// The fixed first block of every chain.
pub open spec fn genesis_view() -> BlockView {
    BlockView {
        index: 1,
        timestamp: 0,
        proof: 1917336,
        transactions: seq![TransactionView {
            id: "b3c973e2-db05-4eb5-9668-3e81c7389a6d"@,
            timestamp: 0,
            payload: "I am Andrey Polnikov"@,
        }],
        previous_block_hash: "0"@,
    }
}

/// Relies on crypto_hash::hex_digest with SHA-256: the digest of `data` as hex text.
#[verifier::external_body]
fn sha256_hex(data: &[u8]) -> (r: String)
    ensures
        r@ == sha256_hex_of(data@),
{
    crypto_hash::hex_digest(crypto_hash::Algorithm::SHA256, data)
}

/// Relies on str::starts_with with a `&str` pattern: true iff `prefix` is a prefix of `s`.
#[verifier::external_body]
fn str_starts_with(s: &str, prefix: &str) -> (r: bool)
    ensures
        r == prefix@.is_prefix_of(s@),
{
    s.starts_with(prefix)
}

/// Relies on String::from_utf8: the string is returned iff the bytes are
/// valid UTF-8, and it then holds exactly those bytes.
#[verifier::external_body]
fn string_from_utf8(bytes: Vec<u8>) -> (r: Option<String>)
    ensures
        r is Some <==> vstd::utf8::valid_utf8(bytes@),
        r matches Some(s) ==> encode_utf8(s@) == bytes@,
{
    String::from_utf8(bytes).ok()
}

impl Transaction {
    pub fn new(id: String, timestamp: u64, payload: String) -> (r: Transaction)
        ensures
            r@ == (TransactionView { id: id@, timestamp, payload: payload@ }),
    {
        Transaction { id, timestamp, payload }
    }

    /// A copy with the same value.
    pub fn duplicate(&self) -> (r: Transaction)
        ensures
            r@ == self@,
    {
        Transaction { id: self.id.clone(), timestamp: self.timestamp, payload: self.payload.clone() }
    }

    /// Appends the UTF-8 bytes of this transaction's encoding.
    fn push_json(&self, out: &mut Vec<u8>)
        ensures
            final(out)@ == old(out)@ + encode_utf8(transaction_json(self@)),
    {
        let ghost start = out@;
        let id = json_string(self.id.as_str());
        let payload = json_string(self.payload.as_str());
        push_str(out, "{\"id\":");
        push_str(out, id.as_str());
        push_str(out, ",\"timestamp\":");
        push_decimal(out, self.timestamp);
        push_str(out, ",\"payload\":");
        push_str(out, payload.as_str());
        push_str(out, "}");
        proof {
            let a = "{\"id\":"@;
            let b = json_string_of(self.id@);
            let c = ",\"timestamp\":"@;
            let d = decimal(self.timestamp as nat);
            let e = ",\"payload\":"@;
            let f = json_string_of(self.payload@);
            let g = "}"@;
            lemma_encode_utf8_concat(a, b);
            lemma_encode_utf8_concat(a + b, c);
            lemma_encode_utf8_concat(a + b + c, d);
            lemma_encode_utf8_concat(a + b + c + d, e);
            lemma_encode_utf8_concat(a + b + c + d + e, f);
            lemma_encode_utf8_concat(a + b + c + d + e + f, g);
            assert(final(out)@ =~= start + encode_utf8(a + b + c + d + e + f + g));
        }
    }
}


proof fn lemma_transactions_json_step(ts: Seq<TransactionView>, i: int)
    requires
        0 <= i < ts.len(),
    ensures
        transactions_json(ts.take(i + 1)) == if i == 0 {
            transaction_json(ts[i])
        } else {
            transactions_json(ts.take(i)) + ","@ + transaction_json(ts[i])
        },
{
    let t = ts.take(i + 1);
    assert(t.drop_last() =~= ts.take(i));
    assert(t.last() == ts[i]);
    if i == 0 {
        assert(t[0] == ts[0]);
    }
}

/// The digest depends on the block's value alone: two blocks with equal
/// fields, proof included, have the same encoding and the same digest.
pub proof fn lemma_digest_deterministic(a: BlockView, b: BlockView)
    requires
        a == b,
    ensures
        block_json(a) == block_json(b),
        digest(a) == digest(b),
{
}

impl Block {
    /// The fixed first block of the chain.
    pub fn genesis() -> (r: Block)
        ensures
            r@ == genesis_view(),
    {
        let transaction = Transaction {
            id: String::from_str("b3c973e2-db05-4eb5-9668-3e81c7389a6d"),
            timestamp: 0,
            payload: String::from_str("I am Andrey Polnikov"),
        };
        let mut transactions: Vec<Transaction> = Vec::new();
        transactions.push(transaction);
        let r = Block {
            index: 1,
            timestamp: 0,
            proof: 1917336,
            transactions,
            previous_block_hash: String::from_str("0"),
        };
        assert(r@.transactions =~= genesis_view().transactions);
        r
    }

    /// A copy of this block with its proof set to `proof`.
    pub fn with_proof(&self, proof: u64) -> (r: Block)
        ensures
            r@ == self@.with_proof(proof),
    {
        let mut transactions: Vec<Transaction> = Vec::new();
        let n = self.transactions.len();
        let mut i: usize = 0;
        while i < n
            invariant
                n == self.transactions@.len(),
                i <= n,
                transactions@.len() == i,
                forall|j: int| 0 <= j < i ==> #[trigger] transactions@[j]@ == self.transactions@[j]@,
            decreases n - i,
        {
            transactions.push(self.transactions[i].duplicate());
            i = i + 1;
        }
        let r = Block {
            index: self.index,
            timestamp: self.timestamp,
            proof,
            transactions,
            previous_block_hash: self.previous_block_hash.clone(),
        };
        assert(r@.transactions =~= self@.transactions);
        r
    }

    /// The UTF-8 bytes of the canonical encoding.
    pub fn json_bytes(&self) -> (r: Vec<u8>)
        ensures
            r@ == encode_utf8(block_json(self@)),
    {
        let ghost v = self@;
        let mut out: Vec<u8> = Vec::new();
        push_str(&mut out, "{\"index\":");
        push_decimal(&mut out, self.index);
        push_str(&mut out, ",\"timestamp\":");
        push_decimal(&mut out, self.timestamp);
        push_str(&mut out, ",\"proof\":");
        push_decimal(&mut out, self.proof);
        push_str(&mut out, ",\"transactions\":[");
        let ghost head = "{\"index\":"@ + decimal(v.index as nat) + ",\"timestamp\":"@
            + decimal(v.timestamp as nat) + ",\"proof\":"@ + decimal(v.proof as nat)
            + ",\"transactions\":["@;
        proof {
            let a = "{\"index\":"@;
            let b = decimal(v.index as nat);
            let c = ",\"timestamp\":"@;
            let d = decimal(v.timestamp as nat);
            let e = ",\"proof\":"@;
            let f = decimal(v.proof as nat);
            let g = ",\"transactions\":["@;
            lemma_encode_utf8_concat(a, b);
            lemma_encode_utf8_concat(a + b, c);
            lemma_encode_utf8_concat(a + b + c, d);
            lemma_encode_utf8_concat(a + b + c + d, e);
            lemma_encode_utf8_concat(a + b + c + d + e, f);
            lemma_encode_utf8_concat(a + b + c + d + e + f, g);
            assert(out@ =~= encode_utf8(head));
        }
        let n = self.transactions.len();
        let mut i: usize = 0;
        while i < n
            invariant
                n == self.transactions@.len(),
                v == self@,
                i <= n,
                out@ == encode_utf8(head + transactions_json(v.transactions.take(i as int))),
            decreases n - i,
        {
            let ghost before = out@;
            if i > 0 {
                push_str(&mut out, ",");
            }
            self.transactions[i].push_json(&mut out);
            proof {
                let prev = head + transactions_json(v.transactions.take(i as int));
                let t = transaction_json(v.transactions[i as int]);
                lemma_transactions_json_step(v.transactions, i as int);
                if i > 0 {
                    lemma_encode_utf8_concat(prev, ","@);
                    lemma_encode_utf8_concat(prev + ","@, t);
                    assert(head + transactions_json(v.transactions.take(i + 1)) =~= prev + ","@ + t);
                } else {
                    assert(v.transactions.take(0) =~= Seq::<TransactionView>::empty());
                    assert(prev =~= head);
                    lemma_encode_utf8_concat(prev, t);
                    assert(head + transactions_json(v.transactions.take(i + 1)) =~= prev + t);
                }
            }
            i = i + 1;
        }
        let hash_text = json_string(self.previous_block_hash.as_str());
        push_str(&mut out, "],\"previous_block_hash\":");
        push_str(&mut out, hash_text.as_str());
        push_str(&mut out, "}");
        proof {
            assert(v.transactions.take(n as int) =~= v.transactions);
            let a = head + transactions_json(v.transactions);
            let b = "],\"previous_block_hash\":"@;
            let c = json_string_of(v.previous_block_hash);
            let d = "}"@;
            lemma_encode_utf8_concat(a, b);
            lemma_encode_utf8_concat(a + b, c);
            lemma_encode_utf8_concat(a + b + c, d);
            assert(block_json(v) =~= a + b + c + d);
        }
        out
    }

    /// The canonical encoding as text.
    pub fn to_json(&self) -> (r: String)
        ensures
            r@ == block_json(self@),
    {
        let bytes = self.json_bytes();
        proof {
            vstd::utf8::encode_utf8_valid_utf8(block_json(self@));
        }
        match string_from_utf8(bytes) {
            Some(s) => {
                proof {
                    vstd::utf8::encode_utf8_decode_utf8(s@);
                    vstd::utf8::encode_utf8_decode_utf8(block_json(self@));
                }
                s
            },
            // The encoding is valid UTF-8, so this arm is never taken.
            None => String::new(),
        }
    }

    /// The digest of the block's canonical encoding.
    pub fn hash(block: &Block) -> (r: String)
        ensures
            r@ == digest(block@),
    {
        let bytes = block.json_bytes();
        sha256_hex(bytes.as_slice())
    }

    /// Whether `hash` starts with `prefix`.
    pub fn valid(hash: &str, prefix: &str) -> (r: bool)
        ensures
            r == is_valid(hash@, prefix@),
    {
        str_starts_with(hash, prefix)
    }

    /// Whether the block, as it stands, is mined for `prefix`.
    pub fn is_mined(&self, prefix: &str) -> (r: bool)
        ensures
            r == satisfies(self@, prefix@),
    {
        Self::valid(Self::hash(self).as_str(), prefix)
    }

    /// The unmined successor of `previous_block`.
    pub fn new(timestamp: u64, transactions: Vec<Transaction>, previous_block: &Block) -> (r: Block)
        requires
            previous_block.index < u64::MAX,
        ensures
            r@ == (BlockView {
                index: (previous_block.index + 1) as u64,
                timestamp,
                proof: 0,
                transactions: transactions@.map_values(|t: Transaction| t@),
                previous_block_hash: digest(previous_block@),
            }),
    {
        Block {
            index: previous_block.index + 1,
            timestamp,
            proof: 0,
            transactions,
            previous_block_hash: Self::hash(previous_block),
        }
    }
}

} // verus!
