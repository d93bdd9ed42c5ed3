use shielded_tx::blinding::BlindingAccumulator;
use shielded_tx::bytes::{bytes32_eq, bytes32_less, u128_to_bytes32};
use shielded_tx::domain::{domain_separator, notecommit_domain_separator, swap_domain_separator};
use shielded_tx::encoding::{put_bytes, put_option, put_prefixed, put_u64, put_u8};
use shielded_tx::transaction::hash_action;
use shielded_tx::wire::field_element;

const R_MINUS_ONE: [u8; 32] = [
    254, 217, 63, 195, 154, 238, 90, 185, 254, 138, 60, 196, 175, 163, 147, 82, 0, 236, 13, 151,
    71, 19, 45, 152, 85, 41, 139, 166, 87, 217, 170, 4,
];

const Q_MINUS_ONE: [u8; 32] = [
    0, 0, 0, 0, 0, 128, 17, 10, 1, 0, 0, 208, 254, 118, 170, 89, 1, 176, 55, 92, 30, 77, 180, 96,
    86, 165, 44, 154, 94, 101, 171, 18,
];

fn number(n: u64) -> [u8; 32] {
    let mut bytes = [0u8; 32];
    bytes[..8].copy_from_slice(&n.to_le_bytes());
    bytes
}

#[test]
fn scalars_add_modulo_the_group_order() {
    let mut acc = BlindingAccumulator::new();
    acc.add(&R_MINUS_ONE);
    assert_eq!(acc.sum(), R_MINUS_ONE);
    acc.add(&number(2));
    assert_eq!(acc.sum(), number(1));
    // Bytes that are not reduced stand for their remainder.
    let mut wide = BlindingAccumulator::new();
    wide.add(&[0xff; 32]);
    let expected = {
        let r = num(&R_MINUS_ONE) + 1u8;
        let all = num(&[0xff; 32]);
        bytes(&(all % r))
    };
    assert_eq!(wide.sum(), expected);
}

// A small unsigned number type for the expected values of this file: eight
// 64-bit limbs, least significant first.
#[derive(Clone, Copy, Debug, PartialEq, Eq, PartialOrd, Ord)]
struct Wide([u64; 8]);

fn num(le: &[u8]) -> Wide {
    let mut limbs = [0u64; 8];
    for (i, chunk) in le.chunks(8).enumerate() {
        let mut limb = [0u8; 8];
        limb[..chunk.len()].copy_from_slice(chunk);
        limbs[i] = u64::from_le_bytes(limb);
    }
    Wide(limbs)
}

fn bytes(n: &Wide) -> [u8; 32] {
    let mut out = [0u8; 32];
    for i in 0..4 {
        out[8 * i..8 * i + 8].copy_from_slice(&n.0[i].to_le_bytes());
    }
    assert_eq!(&n.0[4..], &[0u64; 4]);
    out
}

fn less(a: &Wide, b: &Wide) -> bool {
    for i in (0..8).rev() {
        if a.0[i] != b.0[i] {
            return a.0[i] < b.0[i];
        }
    }
    false
}

fn sub(a: &Wide, b: &Wide) -> Wide {
    let mut out = [0u64; 8];
    let mut borrow = false;
    for i in 0..8 {
        let (d, b1) = a.0[i].overflowing_sub(b.0[i]);
        let (d, b2) = d.overflowing_sub(borrow as u64);
        out[i] = d;
        borrow = b1 || b2;
    }
    Wide(out)
}

fn shl1(a: &Wide) -> Wide {
    let mut out = [0u64; 8];
    let mut carry = 0u64;
    for i in 0..8 {
        out[i] = (a.0[i] << 1) | carry;
        carry = a.0[i] >> 63;
    }
    Wide(out)
}

impl std::ops::Add<u8> for Wide {
    type Output = Wide;

    fn add(self, rhs: u8) -> Wide {
        let mut out = self.0;
        let mut carry = rhs as u64;
        for limb in out.iter_mut() {
            let (sum, over) = limb.overflowing_add(carry);
            *limb = sum;
            carry = over as u64;
        }
        Wide(out)
    }
}

impl std::ops::Rem for Wide {
    type Output = Wide;

    fn rem(self, modulus: Wide) -> Wide {
        // Long division, bit by bit from the top.
        let mut remainder = Wide([0; 8]);
        for bit in (0..512).rev() {
            remainder = shl1(&remainder);
            remainder.0[0] |= (self.0[bit / 64] >> (bit % 64)) & 1;
            if !less(&remainder, &modulus) {
                remainder = sub(&remainder, &modulus);
            }
        }
        remainder
    }
}

#[test]
fn domain_separators_are_reduced_digests() {
    assert_eq!(
        notecommit_domain_separator(),
        [
            115, 32, 219, 53, 176, 134, 230, 2, 215, 45, 250, 37, 193, 61, 73, 75, 233, 95, 111,
            112, 63, 213, 131, 43, 191, 222, 149, 210, 34, 47, 235, 8
        ]
    );
    assert_eq!(
        swap_domain_separator(),
        [
            30, 45, 77, 148, 85, 239, 193, 192, 195, 34, 242, 37, 181, 116, 16, 107, 211, 93, 141,
            213, 143, 243, 76, 178, 48, 113, 78, 136, 233, 15, 13, 1
        ]
    );
    assert_eq!(domain_separator(b"penumbra.swap"), swap_domain_separator());
    // The digest is 64 bytes long and is reduced as a whole.
    let digest = blake2b_simd::blake2b(b"penumbra.swap");
    let q = num(&Q_MINUS_ONE) + 1u8;
    assert_eq!(swap_domain_separator(), bytes(&(num(digest.as_bytes()) % q)));
}

#[test]
fn action_digest_is_blake2b_under_its_personalization() {
    assert_eq!(&hash_action(b"abc")[..8], &[88, 74, 35, 105, 127, 151, 27, 10]);
}

#[test]
fn canonical_field_elements_are_below_the_modulus() {
    assert_eq!(field_element(&Q_MINUS_ONE.to_vec()), Some(Q_MINUS_ONE));
    let q = bytes(&(num(&Q_MINUS_ONE) + 1u8));
    assert_eq!(field_element(&q.to_vec()), None);
    assert_eq!(field_element(&number(0).to_vec()), Some(number(0)));
}

#[test]
fn numbers_are_written_in_little_endian() {
    assert_eq!(u128_to_bytes32(0), [0u8; 32]);
    assert_eq!(u128_to_bytes32(0x0102), number(0x0102));
    let mut expected = [0u8; 32];
    expected[..16].copy_from_slice(&u128::MAX.to_le_bytes());
    assert_eq!(u128_to_bytes32(u128::MAX), expected);
    let mut out = vec![9u8];
    put_u64(&mut out, 0x0102_0304_0506_0708);
    put_u8(&mut out, 7);
    put_bytes(&mut out, &[1, 2]);
    put_prefixed(&mut out, &[5, 6, 7]);
    put_option(&mut out, Some(3));
    put_option(&mut out, None);
    assert_eq!(
        out,
        vec![
            9, 8, 7, 6, 5, 4, 3, 2, 1, 7, 1, 2, 3, 0, 0, 0, 0, 0, 0, 0, 5, 6, 7, 1, 3, 0, 0, 0, 0,
            0, 0, 0, 0, 0, 0, 0, 0, 0, 0, 0, 0
        ]
    );
}

#[test]
fn byte_strings_are_compared_as_numbers() {
    assert!(bytes32_eq(&number(5), &number(5)));
    assert!(!bytes32_eq(&number(5), &number(6)));
    assert!(bytes32_less(&number(255), &number(256)));
    assert!(!bytes32_less(&number(256), &number(255)));
    assert!(!bytes32_less(&number(7), &number(7)));
    assert!(bytes32_less(&Q_MINUS_ONE, &[0xff; 32]));
    assert!(bytes32_less(&R_MINUS_ONE, &Q_MINUS_ONE));
    let mut high = [0u8; 32];
    high[31] = 1;
    assert!(bytes32_less(&[0xff, 0xff, 0xff, 0, 0, 0, 0, 0, 0, 0, 0, 0, 0, 0, 0, 0, 0, 0, 0, 0, 0, 0, 0, 0, 0, 0, 0, 0, 0, 0, 0, 0], &high));
}
