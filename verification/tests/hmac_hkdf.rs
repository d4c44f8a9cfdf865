use hmac::{KeyInit, Mac};
use noise::traits::{block_len, hash, hash_len, hkdf, hmac, hmac_many, reset};
use sha2::Digest;

struct Sha256H(sha2::Sha256);

impl noise::traits::Hash for Sha256H {
    type Block = [u8; 64];
    type Output = [u8; 32];

    fn spec_hash(_data: vstd::seq::Seq<u8>) -> vstd::seq::Seq<u8> {
        unreachable!()
    }

    fn absorbed(&self) -> vstd::seq::Seq<u8> {
        unreachable!()
    }

    fn lemma_hash_len(_data: vstd::seq::Seq<u8>) {
        unreachable!()
    }

    fn lemma_output_le_block() {
        unreachable!()
    }

    fn name() -> &'static str {
        "SHA256"
    }

    fn init() -> Self {
        Sha256H(sha2::Sha256::new())
    }

    fn input(&mut self, data: &[u8]) {
        self.0.update(data);
    }

    fn result(&mut self) -> [u8; 32] {
        let d = self.0.finalize_reset();
        let mut out = [0u8; 32];
        out.copy_from_slice(&d);
        out
    }
}

struct Sha512H(sha2::Sha512);

impl noise::traits::Hash for Sha512H {
    type Block = [u8; 128];
    type Output = [u8; 64];

    fn spec_hash(_data: vstd::seq::Seq<u8>) -> vstd::seq::Seq<u8> {
        unreachable!()
    }

    fn absorbed(&self) -> vstd::seq::Seq<u8> {
        unreachable!()
    }

    fn lemma_hash_len(_data: vstd::seq::Seq<u8>) {
        unreachable!()
    }

    fn lemma_output_le_block() {
        unreachable!()
    }

    fn name() -> &'static str {
        "SHA512"
    }

    fn init() -> Self {
        Sha512H(sha2::Sha512::new())
    }

    fn input(&mut self, data: &[u8]) {
        self.0.update(data);
    }

    fn result(&mut self) -> [u8; 64] {
        let d = self.0.finalize_reset();
        let mut out = [0u8; 64];
        out.copy_from_slice(&d);
        out
    }
}

fn hex(s: &str) -> Vec<u8> {
    let digits: Vec<u8> = s
        .bytes()
        .map(|b| match b {
            b'0'..=b'9' => b - b'0',
            b'a'..=b'f' => b - b'a' + 10,
            b'A'..=b'F' => b - b'A' + 10,
            _ => panic!("not a hex digit"),
        })
        .collect();
    digits.chunks(2).map(|c| (c[0] << 4) | c[1]).collect()
}

fn hmac_sha256_reference(key: &[u8], data: &[u8]) -> [u8; 32] {
    let mut m = hmac::Hmac::<sha2::Sha256>::new_from_slice(key).unwrap();
    m.update(data);
    let mut out = [0u8; 32];
    out.copy_from_slice(&m.finalize().into_bytes());
    out
}

#[test]
fn lengths_match_the_hash() {
    assert_eq!(block_len::<Sha256H>(), 64);
    assert_eq!(hash_len::<Sha256H>(), 32);
    assert_eq!(block_len::<Sha512H>(), 128);
    assert_eq!(hash_len::<Sha512H>(), 64);
}

#[test]
fn one_shot_hash_matches_sha256() {
    let d: [u8; 32] = hash::<Sha256H>(b"abc");
    assert_eq!(
        d.to_vec(),
        hex("ba7816bf8f01cfea414140de5dae2223b00361a396177a9cb410ff61f20015ad")
    );
}

#[test]
fn reset_clears_absorbed_input() {
    let mut h = <Sha256H as noise::traits::Hash>::init();
    noise::traits::Hash::input(&mut h, b"garbage that must not matter");
    reset(&mut h);
    noise::traits::Hash::input(&mut h, b"abc");
    let d = noise::traits::Hash::result(&mut h);
    assert_eq!(
        d.to_vec(),
        hex("ba7816bf8f01cfea414140de5dae2223b00361a396177a9cb410ff61f20015ad")
    );
}

#[test]
fn hmac_sha256_rfc4231_case_1() {
    let key = [0x0bu8; 20];
    let mac = hmac::<Sha256H>(&key, b"Hi There");
    assert_eq!(
        mac.to_vec(),
        hex("b0344c61d8db38535ca8afceaf0bf12b881dc200c9833da726e9376c2e32cff7")
    );
}

#[test]
fn hmac_sha256_rfc4231_case_2() {
    let mac = hmac::<Sha256H>(b"Jefe", b"what do ya want for nothing?");
    assert_eq!(
        mac.to_vec(),
        hex("5bdcc146bf60754e6a042426089575c75a003f089d2739839dec58b964ec3843")
    );
}

#[test]
fn hmac_sha512_rfc4231_case_1() {
    let key = [0x0bu8; 20];
    let mac = hmac::<Sha512H>(&key, b"Hi There");
    assert_eq!(
        mac.to_vec(),
        hex(
            "87aa7cdea5ef619d4ff0b4241a1d6cb02379f4e2ce4ec2787ad0b30545e17cde\
             daa833b7d6b8a702038b274eaea3f4e4be9d914eeb61f1702e696c203a126854"
        )
    );
}

#[test]
fn hmac_matches_independent_implementation() {
    let key: Vec<u8> = (0u8..37).collect();
    let data: Vec<u8> = (0u8..200).map(|i| i.wrapping_mul(31)).collect();
    let ours = hmac::<Sha256H>(&key, &data);
    assert_eq!(ours, hmac_sha256_reference(&key, &data));
}

#[test]
fn hmac_with_full_block_key() {
    let key = [0xaau8; 64];
    let data = b"key exactly one block long";
    let ours = hmac::<Sha256H>(&key, data);
    assert_eq!(ours, hmac_sha256_reference(&key, data));
}

#[test]
fn hmac_with_empty_key_and_message() {
    let ours = hmac::<Sha256H>(&[], &[]);
    assert_eq!(ours, hmac_sha256_reference(&[], &[]));
}

#[test]
fn hmac_many_equals_hmac_of_concatenation() {
    let key = b"a shared key";
    let a = b"first part ";
    let b = b"and the rest";
    let mut joined = Vec::new();
    joined.extend_from_slice(a);
    joined.extend_from_slice(b);
    assert_eq!(
        hmac_many::<Sha256H>(key, &[a, b]),
        hmac::<Sha256H>(key, &joined)
    );

    let c = b"!third!";
    joined.extend_from_slice(c);
    assert_eq!(
        hmac_many::<Sha256H>(key, &[a, b, c]),
        hmac::<Sha256H>(key, &joined)
    );
}

#[test]
fn hmac_many_of_no_messages_is_hmac_of_empty() {
    let key = b"k";
    assert_eq!(hmac_many::<Sha256H>(key, &[]), hmac::<Sha256H>(key, &[]));
}

#[test]
fn hkdf_matches_rfc5869_sha256_case_3() {
    // Extract-then-expand with an empty salt and empty info: the Noise HKDF
    // outputs are exactly the first two expansion blocks.
    let ikm = [0x0bu8; 22];
    let (out1, out2) = hkdf::<Sha256H>(&[], &ikm);
    assert_eq!(
        out1.to_vec(),
        hex("8da4e775a563c18f715f802a063c5a31b8a11f5c5ee1879ec3454e5f3c738d2d")
    );
    assert_eq!(out2[..10].to_vec(), hex("9d201395faa4b61a96c8"));
}

#[test]
fn hkdf_construction_is_the_noise_one() {
    let ck = [0x77u8; 32];
    let ikm = [0x11u8; 32];
    let (out1, out2) = hkdf::<Sha256H>(&ck, &ikm);

    let temp_key = hmac_sha256_reference(&ck, &ikm);
    let expect1 = hmac_sha256_reference(&temp_key, &[0x01]);
    let mut second_input = expect1.to_vec();
    second_input.push(0x02);
    let expect2 = hmac_sha256_reference(&temp_key, &second_input);

    assert_eq!(out1, expect1);
    assert_eq!(out2, expect2);
}
