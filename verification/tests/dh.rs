use noise::traits::DH;

// A deliberately toy DH binding: the public key reverses the private key's
// bytes and the shared secret XORs the two. It only exercises the trait's
// shape; it is no cryptography.
struct ToyDh;

impl DH for ToyDh {
    type Key = [u8; 32];
    type Pubkey = [u8; 32];
    type Output = [u8; 32];

    fn spec_pubkey(_k: vstd::seq::Seq<u8>) -> vstd::seq::Seq<u8> {
        unreachable!()
    }

    fn spec_dh(_k: vstd::seq::Seq<u8>, _pk: vstd::seq::Seq<u8>) -> vstd::seq::Seq<u8> {
        unreachable!()
    }

    fn name() -> &'static str {
        "toy"
    }

    fn genkey() -> [u8; 32] {
        let mut k = [0u8; 32];
        for i in 0..32 {
            k[i] = i as u8;
        }
        k
    }

    fn pubkey(k: &[u8; 32]) -> [u8; 32] {
        let mut p = [0u8; 32];
        for i in 0..32 {
            p[i] = k[31 - i];
        }
        p
    }

    fn dh(k: &[u8; 32], pk: &[u8; 32]) -> [u8; 32] {
        let mut o = [0u8; 32];
        for i in 0..32 {
            o[i] = k[i] ^ pk[i];
        }
        o
    }
}

#[test]
fn dh_binding_round_trips_through_the_trait() {
    assert_eq!(ToyDh::name(), "toy");
    let k = ToyDh::genkey();
    let p = ToyDh::pubkey(&k);
    assert_eq!(p[0], k[31]);
    let s = ToyDh::dh(&k, &p);
    for i in 0..32 {
        assert_eq!(s[i], k[i] ^ k[31 - i]);
    }
}

