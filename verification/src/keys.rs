//! Identity primitives: opaque, hashable handles for host values, types and
//! functions, plus the variant association list propagated down the graph.

use vstd::prelude::*;
use vstd::string::{StrSliceExecFns, StringExecFns};

verus! {

/// A 32-byte content hash identifying a host value or type, held as four
/// 64-bit words.  Equality and hashing are byte-wise, which word-wise
/// equality realises exactly; the derived order makes digests usable for
/// tie-breaking.
#[derive(Clone, Copy, Debug, PartialEq, Eq, Hash, PartialOrd, Ord, Structural)]
pub struct Digest {
    pub w0: u64,
    pub w1: u64,
    pub w2: u64,
    pub w3: u64,
}

impl Digest {
    /// Builds a digest from its four 64-bit words.
    pub fn new(w0: u64, w1: u64, w2: u64, w3: u64) -> (r: Digest)
        ensures
            r == (Digest { w0, w1, w2, w3 }),
    {
        Digest { w0, w1, w2, w3 }
    }

    /// The all-zero digest.
    pub fn zero() -> (r: Digest)
        ensures
            r == (Digest { w0: 0, w1: 0, w2: 0, w3: 0 }),
    {
        Digest { w0: 0, w1: 0, w2: 0, w3: 0 }
    }

    /// Debug rendering: the digest's first four bytes as lowercase hex.
    pub fn hex_prefix(&self) -> (r: String)
        ensures
            r@ == hex_prefix_model(*self),
    {
        let mut s = String::new();
        push_byte_hex(&mut s, self.w0 % 256);
        push_byte_hex(&mut s, (self.w0 / 256) % 256);
        push_byte_hex(&mut s, (self.w0 / 65536) % 256);
        push_byte_hex(&mut s, (self.w0 / 16777216) % 256);
        proof {
            assert(s@ =~= hex_prefix_model(*self));
        }
        s
    }
}

/// The sixteen lowercase hex digits, by value.
pub open spec fn hex_digit(n: int) -> char {
    "0123456789abcdef"@[n]
}

/// The two hex digits of one byte.
pub open spec fn byte_hex(b: int) -> Seq<char> {
    seq![hex_digit(b / 16), hex_digit(b % 16)]
}

/// The debug rendering of a digest: its first four bytes as lowercase hex.
pub open spec fn hex_prefix_model(d: Digest) -> Seq<char> {
    byte_hex((d.w0 as int) % 256) + byte_hex(((d.w0 as int) / 256) % 256)
        + byte_hex(((d.w0 as int) / 65536) % 256) + byte_hex(((d.w0 as int) / 16777216) % 256)
}

/// Appends one byte as two lowercase hex digits.
fn push_byte_hex(s: &mut String, b: u64)
    requires
        b < 256,
    ensures
        final(s)@ == old(s)@ + byte_hex(b as int),
{
    let table = "0123456789abcdef";
    proof {
        reveal_strlit("0123456789abcdef");
    }
    let hi = (b / 16) as usize;
    let lo = (b % 16) as usize;
    s.append(table.substring_ascii(hi, hi + 1));
    s.append(table.substring_ascii(lo, lo + 1));
    proof {
        assert(table@.subrange(hi as int, hi + 1) =~= seq![hex_digit(b as int / 16)]);
        assert(table@.subrange(lo as int, lo + 1) =~= seq![hex_digit(b as int % 16)]);
        assert(s@ =~= old(s)@ + byte_hex(b as int));
    }
}

/// The type of a host value (which itself has a type, but which is not
/// represented by a `Key`, because that would result in a recursive
/// structure).
pub type TypeId = Digest;

/// An identifier for a host-side callable.
pub type Function = Digest;

/// A digest identifying a host-side predicate over `TypeId`s.
pub type TypeConstraint = Digest;

/// A handle to a host value together with its type.  Keys are immutable,
/// cheaply copyable, and totally ordered by their digests for tie-breaking.
#[derive(Clone, Copy, Debug, PartialEq, Eq, Hash, PartialOrd, Ord, Structural)]
pub struct Key {
    pub digest: Digest,
    pub type_id: TypeId,
}

impl Key {
    /// Builds a key from a value digest and the digest of the value's type.
    pub fn new(digest: Digest, type_id: TypeId) -> (r: Key)
        ensures
            r == (Key { digest, type_id }),
    {
        Key { digest, type_id }
    }

    /// The all-zero key.
    pub fn empty() -> (r: Key)
        ensures
            r == (Key { digest: Digest { w0: 0, w1: 0, w2: 0, w3: 0 }, type_id: Digest { w0: 0, w1: 0, w2: 0, w3: 0 } }),
    {
        Key { digest: Digest::zero(), type_id: Digest::zero() }
    }

    /// The digest identifying the value.
    pub fn digest(&self) -> (r: &Digest)
        ensures
            *r == self.digest,
    {
        &self.digest
    }

    /// The digest identifying the value's type.
    pub fn type_id(&self) -> (r: &TypeId)
        ensures
            *r == self.type_id,
    {
        &self.type_id
    }
}

/// The name of a projectable attribute on a host value.
pub type Field = Key;

/// An ordered sequence of `(Field, Field)` pairs acting as a small
/// association list.  Ordering is significant for propagation; lookup is
/// linear by key, and if a key is repeated the first entry wins.
pub type Variants = Vec<(Field, Field)>;

/// First-wins lookup in a variant association list.
pub open spec fn find_variant(vs: Seq<(Key, Key)>, k: Key) -> Option<Key>
    decreases vs.len(),
{
    if vs.len() == 0 {
        None
    } else if vs[0].0 == k {
        Some(vs[0].1)
    } else {
        find_variant(vs.subrange(1, vs.len() as int), k)
    }
}

/// Looks a variant key up in a variant list; the first matching entry wins.
pub fn variant_value(variants: &Variants, k: Key) -> (r: Option<Key>)
    ensures
        r == find_variant(variants@, k),
{
    let n = variants.len();
    proof {
        assert(variants@.subrange(0, n as int) =~= variants@);
    }
    let mut i: usize = 0;
    while i < n
        invariant
            n == variants@.len(),
            i <= n,
            find_variant(variants@, k) == find_variant(variants@.subrange(i as int, n as int), k),
        decreases n - i,
    {
        let pair = variants[i];
        if pair.0 == k {
            assert(variants@.subrange(i as int, n as int)[0] == variants@[i as int]);
            return Some(pair.1);
        }
        proof {
            assert(variants@.subrange(i as int, n as int).subrange(1, (n - i) as int)
                =~= variants@.subrange(i + 1, n as int));
        }
        i += 1;
    }
    proof {
        assert(variants@.subrange(n as int, n as int).len() == 0);
    }
    None
}

/// Copies a variant list.
pub fn clone_variants(variants: &Variants) -> (r: Variants)
    ensures
        r@ == variants@,
{
    let n = variants.len();
    let mut r: Variants = Vec::new();
    let mut i: usize = 0;
    while i < n
        invariant
            n == variants@.len(),
            i <= n,
            r@ == variants@.subrange(0, i as int),
        decreases n - i,
    {
        r.push(variants[i]);
        proof {
            assert(r@ =~= variants@.subrange(0, i + 1));
        }
        i += 1;
    }
    proof {
        assert(variants@.subrange(0, n as int) =~= variants@);
    }
    r
}

} // verus!
