use noise::traits::{from_slice_round_trip, U8Array};

#[test]
fn new_is_all_zero() {
    let a = <[u8; 32] as U8Array>::new();
    assert_eq!(a, [0u8; 32]);
    let b = <[u8; 64] as U8Array>::new();
    assert_eq!(b, [0u8; 64]);
    let c = <[u8; 128] as U8Array>::new();
    assert!(c.iter().all(|&x| x == 0));
}

#[test]
fn new_with_fills_every_byte() {
    let a = <[u8; 32] as U8Array>::new_with(0x36);
    assert_eq!(a, [0x36u8; 32]);
    let b = <[u8; 64] as U8Array>::new_with(0x5c);
    assert_eq!(b, [0x5cu8; 64]);
    let c = <[u8; 128] as U8Array>::new_with(0xff);
    assert!(c.iter().all(|&x| x == 0xff));
}

#[test]
fn len_is_the_fixed_size() {
    assert_eq!(<[u8; 32] as U8Array>::len(), 32);
    assert_eq!(<[u8; 64] as U8Array>::len(), 64);
    assert_eq!(<[u8; 128] as U8Array>::len(), 128);
}

#[test]
fn from_slice_copies_exactly() {
    let mut data = [0u8; 32];
    for i in 0..32 {
        data[i] = i as u8;
    }
    let a = <[u8; 32] as U8Array>::from_slice(&data);
    assert_eq!(a, data);
}

#[test]
fn from_slice_round_trips() {
    let mut x = [0u8; 32];
    for i in 0..32 {
        x[i] = (i * 7 + 3) as u8;
    }
    let r: [u8; 32] = from_slice_round_trip(&x);
    assert_eq!(r, x);

    let mut y = [0u8; 64];
    for i in 0..64 {
        y[i] = (i * 5 + 1) as u8;
    }
    let r64: [u8; 64] = from_slice_round_trip(&y);
    assert_eq!(r64, y);

    let mut z = [0u8; 128];
    for i in 0..128 {
        z[i] = (i * 3 + 2) as u8;
    }
    let r128: [u8; 128] = from_slice_round_trip(&z);
    assert_eq!(r128, z);

    let manual = <[u8; 32] as U8Array>::from_slice(U8Array::as_slice(&x));
    assert_eq!(manual, x);
}

#[test]
fn as_slice_and_as_mut_view_the_same_bytes() {
    let mut a = <[u8; 32] as U8Array>::new_with(9);
    assert_eq!(U8Array::as_slice(&a), &[9u8; 32][..]);
    {
        let m = U8Array::as_mut(&mut a);
        m[0] = 1;
        m[31] = 2;
    }
    assert_eq!(a[0], 1);
    assert_eq!(a[31], 2);
    assert_eq!(a[1], 9);
}
