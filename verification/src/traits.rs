//! Capability contracts for the cryptographic primitives a Noise protocol is
//! built from: fixed-size byte buffers, Diffie-Hellman, AEAD ciphers and hash
//! functions, together with the derived HMAC and HKDF constructions.
//!
//! Concrete primitive implementations (a curve, a cipher, a hash) live
//! outside this crate; they implement these traits and thereby take on the
//! stated contracts.

use vstd::prelude::*;

verus! {

/// A fixed-size byte array capability: an opaque, fixed-length buffer used
/// wherever the Noise specification fixes a length (keys, blocks, digests).
pub trait U8Array: View<V = Seq<u8>> + Sized {
    /// The fixed length of this buffer type, in bytes.
    spec fn spec_size() -> nat;

    /// Every value of the type holds exactly `spec_size` bytes.
    proof fn lemma_size(&self)
        ensures
            self@.len() == Self::spec_size(),
    ;

    /// Create a new array filled with zeros.
    fn new() -> (r: Self)
        ensures
            r@ == Seq::new(Self::spec_size(), |i: int| 0u8),
    ;

    /// Create a new array with every byte set to `x`.
    fn new_with(x: u8) -> (r: Self)
        ensures
            r@ == Seq::new(Self::spec_size(), |i: int| x),
    ;

    /// Create a new array holding a copy of `data`, which must have exactly
    /// the fixed length.
    fn from_slice(data: &[u8]) -> (r: Self)
        requires
            data@.len() == Self::spec_size(),
        ensures
            r@ == data@,
    ;

    /// The fixed length of this buffer type, in bytes.
    fn len() -> (r: usize)
        ensures
            r == Self::spec_size(),
    ;

    /// Read-only view of the bytes.
    fn as_slice(&self) -> (r: &[u8])
        ensures
            r@ == self@,
    ;

    /// Mutable view of the bytes.
    fn as_mut(&mut self) -> (r: &mut [u8])
        ensures
            r@ == old(self)@,
            final(r)@ == final(self)@,
    ;
}

impl U8Array for [u8; 32] {
    open spec fn spec_size() -> nat {
        32
    }

    proof fn lemma_size(&self) {
    }

    fn new() -> (r: Self) {
        let r = [0u8; 32];
        proof {
            assert(r@ =~= Seq::new(Self::spec_size(), |i: int| 0u8));
        }
        r
    }

    fn new_with(x: u8) -> (r: Self) {
        let r = [x; 32];
        proof {
            assert(r@ =~= Seq::new(Self::spec_size(), |i: int| x));
        }
        r
    }

    fn from_slice(data: &[u8]) -> (r: Self) {
        let mut r = [0u8; 32];
        let mut i: usize = 0;
        while i < 32
            invariant
                i <= 32,
                data@.len() == 32,
                r@.len() == 32,
                forall|k: int| 0 <= k < i ==> r@[k] == data@[k],
            decreases 32 - i,
        {
            r[i] = data[i];
            i = i + 1;
        }
        proof {
            assert(r@ =~= data@);
        }
        r
    }

    fn len() -> (r: usize) {
        32
    }

    fn as_slice(&self) -> (r: &[u8]) {
        <[u8; 32]>::as_slice(self)
    }

    fn as_mut(&mut self) -> (r: &mut [u8]) {
        self
    }
}

impl U8Array for [u8; 64] {
    open spec fn spec_size() -> nat {
        64
    }

    proof fn lemma_size(&self) {
    }

    fn new() -> (r: Self) {
        let r = [0u8; 64];
        proof {
            assert(r@ =~= Seq::new(Self::spec_size(), |i: int| 0u8));
        }
        r
    }

    fn new_with(x: u8) -> (r: Self) {
        let r = [x; 64];
        proof {
            assert(r@ =~= Seq::new(Self::spec_size(), |i: int| x));
        }
        r
    }

    fn from_slice(data: &[u8]) -> (r: Self) {
        let mut r = [0u8; 64];
        let mut i: usize = 0;
        while i < 64
            invariant
                i <= 64,
                data@.len() == 64,
                r@.len() == 64,
                forall|k: int| 0 <= k < i ==> r@[k] == data@[k],
            decreases 64 - i,
        {
            r[i] = data[i];
            i = i + 1;
        }
        proof {
            assert(r@ =~= data@);
        }
        r
    }

    fn len() -> (r: usize) {
        64
    }

    fn as_slice(&self) -> (r: &[u8]) {
        <[u8; 64]>::as_slice(self)
    }

    fn as_mut(&mut self) -> (r: &mut [u8]) {
        self
    }
}

impl U8Array for [u8; 128] {
    open spec fn spec_size() -> nat {
        128
    }

    proof fn lemma_size(&self) {
    }

    fn new() -> (r: Self) {
        let r = [0u8; 128];
        proof {
            assert(r@ =~= Seq::new(Self::spec_size(), |i: int| 0u8));
        }
        r
    }

    fn new_with(x: u8) -> (r: Self) {
        let r = [x; 128];
        proof {
            assert(r@ =~= Seq::new(Self::spec_size(), |i: int| x));
        }
        r
    }

    fn from_slice(data: &[u8]) -> (r: Self) {
        let mut r = [0u8; 128];
        let mut i: usize = 0;
        while i < 128
            invariant
                i <= 128,
                data@.len() == 128,
                r@.len() == 128,
                forall|k: int| 0 <= k < i ==> r@[k] == data@[k],
            decreases 128 - i,
        {
            r[i] = data[i];
            i = i + 1;
        }
        proof {
            assert(r@ =~= data@);
        }
        r
    }

    fn len() -> (r: usize) {
        128
    }

    fn as_slice(&self) -> (r: &[u8]) {
        <[u8; 128]>::as_slice(self)
    }

    fn as_mut(&mut self) -> (r: &mut [u8]) {
        self
    }
}

/// Rebuilding a fixed buffer from its own slice view yields the same bytes:
/// the round trip through `as_slice` and `from_slice` is the identity on the
/// buffer's contents.
pub fn from_slice_round_trip<A: U8Array>(x: &A) -> (r: A)
    ensures
        r@ == x@,
{
    proof {
        x.lemma_size();
    }
    A::from_slice(x.as_slice())
}

/// A Diffie-Hellman capability. A conforming implementation always succeeds
/// on well-formed keys; key validation is the implementation's own concern.
pub trait DH {
    /// Type of a private key.
    type Key: U8Array + Clone;

    /// Type of a public key.
    type Pubkey: U8Array + Clone;

    /// Type of the shared-secret output.
    type Output: U8Array + Clone;

    /// The public key derived from private key `k`; public-key derivation is
    /// a deterministic function of the private key.
    spec fn spec_pubkey(k: Seq<u8>) -> Seq<u8>;

    /// The shared secret computed from private key `k` and public key `pk`;
    /// the exchange is a deterministic function of the two.
    spec fn spec_dh(k: Seq<u8>, pk: Seq<u8>) -> Seq<u8>;

    /// Name of this DH function, e.g. `"25519"`.
    fn name() -> (r: &'static str);

    /// Randomly generate a new private key. The randomness source is the
    /// implementation's own; nothing is promised of the value.
    fn genkey() -> (r: Self::Key);

    /// Calculate the public key of a private key.
    fn pubkey(k: &Self::Key) -> (r: Self::Pubkey)
        ensures
            r@ == Self::spec_pubkey(k@),
    ;

    /// Perform the DH key exchange.
    fn dh(k: &Self::Key, pk: &Self::Pubkey) -> (r: Self::Output)
        ensures
            r@ == Self::spec_dh(k@, pk@),
    ;
}

/// An AEAD cipher capability. Every cipher the Noise specification admits
/// authenticates with a 16-byte tag; the nonce is a 64-bit counter whose
/// uniqueness per key is the caller's concern.
pub trait Cipher {
    /// Type of a key.
    type Key: U8Array + Clone;

    /// The ciphertext (with its trailing 16-byte tag) that encrypting
    /// `plaintext` under `k`, `nonce` and associated data `ad` produces;
    /// encryption is a deterministic function of these four.
    spec fn spec_encrypt(k: Seq<u8>, nonce: u64, ad: Seq<u8>, plaintext: Seq<u8>) -> Seq<u8>;

    /// The plaintext recovered from `ciphertext` under `k`, `nonce` and `ad`,
    /// or `None` when the tag does not verify.
    spec fn spec_decrypt(k: Seq<u8>, nonce: u64, ad: Seq<u8>, ciphertext: Seq<u8>) -> Option<
        Seq<u8>,
    >;

    /// Encryption adds exactly the 16-byte tag.
    proof fn lemma_encrypt_len(k: Seq<u8>, nonce: u64, ad: Seq<u8>, plaintext: Seq<u8>)
        requires
            k.len() == Self::Key::spec_size(),
        ensures
            Self::spec_encrypt(k, nonce, ad, plaintext).len() == plaintext.len() + 16,
    ;

    /// Decryption inverts encryption: decrypting a ciphertext produced under
    /// the same key, nonce and associated data recovers the plaintext.
    proof fn lemma_decrypt_of_encrypt(k: Seq<u8>, nonce: u64, ad: Seq<u8>, plaintext: Seq<u8>)
        requires
            k.len() == Self::Key::spec_size(),
        ensures
            Self::spec_decrypt(k, nonce, ad, Self::spec_encrypt(k, nonce, ad, plaintext))
                == Some(plaintext),
    ;

    /// Name of this cipher function.
    fn name() -> (r: &'static str);

    /// AEAD encryption. Writes `plaintext.len() + 16` bytes into `out`: the
    /// ciphertext followed by the authentication tag.
    fn encrypt(k: &Self::Key, nonce: u64, ad: &[u8], plaintext: &[u8], out: &mut [u8])
        requires
            old(out)@.len() == plaintext@.len() + 16,
        ensures
            final(out)@ == Self::spec_encrypt(k@, nonce, ad@, plaintext@),
    ;

    /// AEAD decryption. On success writes `ciphertext.len() - 16` bytes into
    /// `out`; on authentication failure returns an opaque error that carries
    /// no diagnostic detail.
    fn decrypt(k: &Self::Key, nonce: u64, ad: &[u8], ciphertext: &[u8], out: &mut [u8]) -> (r:
        Result<(), ()>)
        requires
            ciphertext@.len() >= 16,
            old(out)@.len() == ciphertext@.len() - 16,
        ensures
            match Self::spec_decrypt(k@, nonce, ad@, ciphertext@) {
                Some(pt) => r == Ok::<(), ()>(()) && final(out)@ == pt,
                None => r == Err::<(), ()>(()),
            },
    ;
}

/// The AEAD round trip: for every key, nonce, associated data and plaintext,
/// decrypting what `encrypt` produced under the same key, nonce and
/// associated data yields exactly the original plaintext.
pub proof fn lemma_aead_round_trip<C: Cipher>(k: Seq<u8>, nonce: u64, ad: Seq<u8>, pt: Seq<u8>)
    requires
        k.len() == C::Key::spec_size(),
    ensures
        C::spec_decrypt(k, nonce, ad, C::spec_encrypt(k, nonce, ad, pt)) == Some(pt),
{
    C::lemma_decrypt_of_encrypt(k, nonce, ad, pt);
}

/// Length of `C`'s key, in bytes.
pub fn key_len<C: Cipher>() -> (r: usize)
    ensures
        r == C::Key::spec_size(),
{
    C::Key::len()
}

/// Length of the authentication tag, in bytes: 16 for every cipher the Noise
/// specification admits, so this is not a per-cipher choice.
pub fn tag_len<C: Cipher>() -> (r: usize)
    ensures
        r == 16,
{
    16
}

/// A hash function capability: an incrementally updatable context. The
/// context is modeled by the bytes absorbed since it was last initialized.
pub trait Hash: Sized {
    /// Type of an input block.
    type Block: U8Array;

    /// Type of the digest.
    type Output: U8Array + Copy;

    /// The digest of `data`; the hash is a deterministic function of the
    /// absorbed bytes.
    spec fn spec_hash(data: Seq<u8>) -> Seq<u8>;

    /// The bytes absorbed by this context since it was last initialized.
    spec fn absorbed(&self) -> Seq<u8>;

    /// A digest holds exactly `Output`'s fixed number of bytes.
    proof fn lemma_hash_len(data: Seq<u8>)
        ensures
            Self::spec_hash(data).len() == Self::Output::spec_size(),
    ;

    /// Digests are short enough to be absorbed as HMAC keys: the output
    /// length never exceeds the block length. Every hash the Noise
    /// specification admits satisfies this.
    proof fn lemma_output_le_block()
        ensures
            Self::Output::spec_size() <= Self::Block::spec_size(),
    ;

    /// Name of this hash function.
    fn name() -> (r: &'static str);

    /// A fresh context that has absorbed nothing.
    fn init() -> (h: Self)
        ensures
            h.absorbed() == Seq::<u8>::empty(),
    ;

    /// Update the context with some input.
    fn input(&mut self, data: &[u8])
        ensures
            final(self).absorbed() == old(self).absorbed() + data@,
    ;

    /// Finalize and return the digest of everything absorbed. The context's
    /// state afterwards is implementation-defined until the next `reset`.
    fn result(&mut self) -> (r: Self::Output)
        ensures
            r@ == Self::spec_hash(old(self).absorbed()),
    ;
}

/// Reset a hash context to the freshly initialized state.
pub fn reset<H: Hash>(h: &mut H)
    ensures
        final(h).absorbed() == Seq::<u8>::empty(),
{
    *h = H::init();
}

/// Length of `H`'s input block, in bytes.
pub fn block_len<H: Hash>() -> (r: usize)
    ensures
        r == H::Block::spec_size(),
{
    H::Block::len()
}

/// Length of `H`'s digest, in bytes.
pub fn hash_len<H: Hash>() -> (r: usize)
    ensures
        r == H::Output::spec_size(),
{
    H::Output::len()
}

/// Calculate the digest of `data` in one shot.
pub fn hash<H: Hash>(data: &[u8]) -> (r: H::Output)
    ensures
        r@ == H::spec_hash(data@),
{
    let mut h = H::init();
    h.input(data);
    proof {
        assert(Seq::<u8>::empty() + data@ =~= data@);
    }
    h.result()
}

/// The concatenation of a sequence of byte sequences, in order.
pub open spec fn concat_all(data: Seq<Seq<u8>>) -> Seq<u8>
    decreases data.len(),
{
    if data.len() == 0 {
        Seq::<u8>::empty()
    } else {
        concat_all(data.drop_last()) + data.last()
    }
}

/// The block-length pad used by HMAC: `pad` in every position, XORed with the
/// key in the leading `key.len()` positions.
pub open spec fn spec_xor_pad(key: Seq<u8>, pad: u8, block: nat) -> Seq<u8> {
    Seq::new(block, |i: int| if i < key.len() { key[i] ^ pad } else { pad })
}

/// The HMAC of several messages under `key`, with `H` as the underlying
/// hash: hash the inner pad followed by the messages, then hash the outer
/// pad followed by that inner digest.
pub open spec fn spec_hmac_many<H: Hash>(key: Seq<u8>, data: Seq<Seq<u8>>) -> Seq<u8> {
    let ipad = spec_xor_pad(key, 0x36, H::Block::spec_size());
    let opad = spec_xor_pad(key, 0x5c, H::Block::spec_size());
    H::spec_hash(opad + H::spec_hash(ipad + concat_all(data)))
}

/// The Noise HKDF of a chaining key and input key material: both outputs are
/// HMACs under the temporary key `HMAC(chaining_key, input_key_material)`,
/// the first of the single byte 1, the second of the first output followed
/// by the single byte 2.
pub open spec fn spec_hkdf<H: Hash>(chaining_key: Seq<u8>, input_key_material: Seq<u8>) -> (
    Seq<u8>,
    Seq<u8>,
) {
    let temp_key = spec_hmac_many::<H>(chaining_key, seq![input_key_material]);
    let out1 = spec_hmac_many::<H>(temp_key, seq![seq![1u8]]);
    let out2 = spec_hmac_many::<H>(temp_key, seq![out1, seq![2u8]]);
    (out1, out2)
}

/// Calculate HMAC with hash `H`, `key` and several messages, exactly as if
/// the messages had been concatenated. The key must not exceed the hash's
/// block length.
pub fn hmac_many<H: Hash>(key: &[u8], data: &[&[u8]]) -> (r: H::Output)
    requires
        key@.len() <= H::Block::spec_size(),
    ensures
        r@ == spec_hmac_many::<H>(key@, data@.map_values(|d: &[u8]| d@)),
{
    let mut ipad = H::Block::new_with(0x36);
    let mut opad = H::Block::new_with(0x5c);

    let mut count: usize = 0;
    while count < key.len()
        invariant
            count <= key@.len() <= H::Block::spec_size(),
            ipad@.len() == H::Block::spec_size(),
            opad@.len() == H::Block::spec_size(),
            forall|k: int| 0 <= k < count ==> ipad@[k] == key@[k] ^ 0x36u8,
            forall|k: int| count <= k < ipad@.len() ==> ipad@[k] == 0x36u8,
            forall|k: int| 0 <= k < count ==> opad@[k] == key@[k] ^ 0x5cu8,
            forall|k: int| count <= k < opad@.len() ==> opad@[k] == 0x5cu8,
        decreases key@.len() - count,
    {
        let ip = ipad.as_mut();
        ip[count] = key[count] ^ ip[count];
        let op = opad.as_mut();
        op[count] = key[count] ^ op[count];
        count = count + 1;
    }
    proof {
        assert(ipad@ =~= spec_xor_pad(key@, 0x36, H::Block::spec_size()));
        assert(opad@ =~= spec_xor_pad(key@, 0x5c, H::Block::spec_size()));
    }

    let ghost views = data@.map_values(|d: &[u8]| d@);
    let mut hasher = H::init();
    hasher.input(ipad.as_slice());
    proof {
        assert(Seq::<u8>::empty() + ipad@ =~= ipad@);
        assert(views.subrange(0, 0) =~= Seq::<Seq<u8>>::empty());
        assert(ipad@ + concat_all(views.subrange(0, 0)) =~= ipad@);
    }
    let mut i: usize = 0;
    while i < data.len()
        invariant
            i <= data@.len(),
            views == data@.map_values(|d: &[u8]| d@),
            hasher.absorbed() == ipad@ + concat_all(views.subrange(0, i as int)),
        decreases data@.len() - i,
    {
        hasher.input(data[i]);
        i = i + 1;
        proof {
            assert(views.subrange(0, i as int).drop_last() =~= views.subrange(0, i - 1));
            assert(ipad@ + concat_all(views.subrange(0, i - 1)) + views[i - 1] =~= ipad@
                + concat_all(views.subrange(0, i as int)));
        }
    }
    let inner_output = hasher.result();
    proof {
        assert(views.subrange(0, views.len() as int) =~= views);
    }

    reset(&mut hasher);
    hasher.input(opad.as_slice());
    hasher.input(inner_output.as_slice());
    proof {
        assert(Seq::<u8>::empty() + opad@ =~= opad@);
    }
    hasher.result()
}

/// Calculate HMAC with hash `H`, `key` and one message. The key must not
/// exceed the hash's block length.
pub fn hmac<H: Hash>(key: &[u8], data: &[u8]) -> (r: H::Output)
    requires
        key@.len() <= H::Block::spec_size(),
    ensures
        r@ == spec_hmac_many::<H>(key@, seq![data@]),
{
    let parts: [&[u8]; 1] = [data];
    let r = hmac_many::<H>(key, &parts);
    proof {
        assert(parts@.map_values(|d: &[u8]| d@) =~= seq![data@]);
    }
    r
}

/// Calculate HKDF as the Noise specification fixes it. The first output
/// becomes the caller's new chaining key and the second the derived key
/// material, in that order.
pub fn hkdf<H: Hash>(chaining_key: &[u8], input_key_material: &[u8]) -> (r: (
    H::Output,
    H::Output,
))
    requires
        chaining_key@.len() <= H::Block::spec_size(),
    ensures
        r.0@ == spec_hkdf::<H>(chaining_key@, input_key_material@).0,
        r.1@ == spec_hkdf::<H>(chaining_key@, input_key_material@).1,
{
    let temp_key = hmac::<H>(chaining_key, input_key_material);
    proof {
        H::lemma_hash_len(spec_xor_pad(chaining_key@, 0x5c, H::Block::spec_size())
            + H::spec_hash(spec_xor_pad(chaining_key@, 0x36, H::Block::spec_size())
            + concat_all(seq![input_key_material@])));
        H::lemma_output_le_block();
    }
    let one: [u8; 1] = [1u8];
    let out1 = hmac::<H>(temp_key.as_slice(), &one);
    let o1 = out1.as_slice();
    let two: [u8; 1] = [2u8];
    let parts: [&[u8]; 2] = [o1, &two];
    let out2 = hmac_many::<H>(temp_key.as_slice(), &parts);
    proof {
        assert(one@ =~= seq![1u8]);
        assert(two@ =~= seq![2u8]);
        assert(parts@.map_values(|d: &[u8]| d@) =~= seq![out1@, seq![2u8]]);
    }
    (out1, out2)
}

/// HMAC over several messages depends only on their concatenation: keying
/// HMAC with two messages equals keying it with the one message formed by
/// joining them, the streamed-input associativity of HMAC.
pub proof fn lemma_hmac_many_concat<H: Hash>(key: Seq<u8>, a: Seq<u8>, b: Seq<u8>)
    ensures
        spec_hmac_many::<H>(key, seq![a, b]) == spec_hmac_many::<H>(key, seq![a + b]),
{
    reveal_with_fuel(concat_all, 3);
    assert(seq![a, b].drop_last() =~= seq![a]);
    assert(seq![a].drop_last() =~= Seq::<Seq<u8>>::empty());
    assert(seq![a + b].drop_last() =~= Seq::<Seq<u8>>::empty());
    assert(concat_all(Seq::<Seq<u8>>::empty()) == Seq::<u8>::empty());
    assert(concat_all(seq![a]) == Seq::<u8>::empty() + a);
    assert(concat_all(seq![a, b]) == concat_all(seq![a]) + b);
    assert(concat_all(seq![a + b]) == Seq::<u8>::empty() + (a + b));
    assert(Seq::<u8>::empty() + a + b =~= Seq::<u8>::empty() + (a + b));
}

/// HMAC over a list of messages depends only on the list's concatenation:
/// streaming the messages one by one equals streaming the single message
/// formed by joining them all.
pub proof fn lemma_hmac_many_flatten<H: Hash>(key: Seq<u8>, data: Seq<Seq<u8>>)
    ensures
        spec_hmac_many::<H>(key, data) == spec_hmac_many::<H>(key, seq![concat_all(data)]),
{
    reveal_with_fuel(concat_all, 2);
    assert(seq![concat_all(data)].drop_last() =~= Seq::<Seq<u8>>::empty());
    assert(concat_all(seq![concat_all(data)]) == Seq::<u8>::empty() + concat_all(data));
    assert(Seq::<u8>::empty() + concat_all(data) =~= concat_all(data));
}

} // verus!
