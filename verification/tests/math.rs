use gossamer::math::{ext_euclid, mod_mult_inv};

// Much credit to https://stackoverflow.com/a/50670084
const M: i128 = 101;
const X: i128 = 387420489;
const OBFUSCATIONS: [(i128, i128); 10] = [
    (1, 43), (2, 86),
    (3, 28), (4, 71),
    (5, 13), (6, 56),
    (7, 99), (8, 41),
    (9, 84), (10, 26),
];

#[test]
fn obfuscate() {
    for (i, obf) in OBFUSCATIONS {
        let mult_inv = mod_mult_inv(X, M).unwrap();

        let obfuscated = i * X % M;
        let original = obfuscated * mult_inv % M;

        assert_eq!(obfuscated, obf);
        assert_eq!(original, i);
    }
}

#[test]
fn ext_euclid_finds_gcd_and_bezout_coefficients() {
    let (g, x, y) = ext_euclid(240, 46);
    assert_eq!(g, 2);
    assert_eq!(240 * x + 46 * y, 2);
    assert_eq!((x, y), (-9, 47));
}

#[test]
fn ext_euclid_with_zero() {
    assert_eq!(ext_euclid(0, 7), (7, 0, 1));
    assert_eq!(ext_euclid(7, 0), (7, 1, 0));
    assert_eq!(ext_euclid(0, 0), (0, 0, 1));
}

#[test]
fn ext_euclid_with_negative_arguments() {
    assert_eq!(ext_euclid(3, -4), (1, -1, -1));
    assert_eq!(ext_euclid(4, -6), (2, -1, -1));
    assert_eq!(ext_euclid(0, -5), (5, 0, -1));
    assert_eq!(ext_euclid(-5, 0), (5, -1, 0));
    let (g, x, y) = ext_euclid(-12, 18);
    assert_eq!(-12 * x + 18 * y, g);
    assert_eq!(g, 6);
}

#[test]
fn ext_euclid_near_the_limits() {
    let (g, x, y) = ext_euclid(i128::MAX, i128::MAX - 1);
    assert_eq!(g, 1);
    assert_eq!((x, y), (1, -1));
    assert_eq!(ext_euclid(i128::MIN, 1), (1, 0, 1));
}

#[test]
fn mod_mult_inv_small_values() {
    assert_eq!(mod_mult_inv(3, 7), Some(5));
    assert_eq!(mod_mult_inv(10, 17), Some(12));
    assert_eq!(mod_mult_inv(1, 1), Some(0));
    assert_eq!(mod_mult_inv(0, 1), Some(0));
}

#[test]
fn mod_mult_inv_none_without_inverse() {
    assert_eq!(mod_mult_inv(2, 4), None);
    assert_eq!(mod_mult_inv(0, 5), None);
    assert_eq!(mod_mult_inv(6, 9), None);
}

#[test]
fn mod_mult_inv_negative_arguments() {
    assert_eq!(mod_mult_inv(-1, 3), Some(2));
    assert_eq!(mod_mult_inv(-3, 7), Some(2));
    assert_eq!(mod_mult_inv(-7, 3), Some(2));
    assert_eq!(mod_mult_inv(3, -4), Some(-1));
    assert_eq!(mod_mult_inv(3, -7), Some(-2));
    assert_eq!(mod_mult_inv(3, -8), Some(-5));
    assert_eq!(mod_mult_inv(1, -1), Some(0));
    assert_eq!(mod_mult_inv(5, 0), None);
}

#[test]
fn ext_euclid_gcd_is_greatest_common_divisor() {
    let (g, _, _) = ext_euclid(84, 36);
    assert_eq!(g, 12);
    for d in 1..=84i128 {
        if 84 % d == 0 && 36 % d == 0 {
            assert_eq!(g % d, 0);
        }
    }
}

#[test]
fn mod_mult_inv_finds_inverse_exactly_when_one_exists() {
    for m in 1..=30i128 {
        for a in -40..=40i128 {
            let exists = (0..m).any(|x| (a * x - 1).rem_euclid(m) == 0);
            match mod_mult_inv(a, m) {
                Some(v) => {
                    assert!(exists);
                    assert!(0 <= v && v < m);
                    assert_eq!((a * v - 1).rem_euclid(m), 0);
                }
                None => assert!(!exists),
            }
        }
    }
}

#[test]
fn inverse_of_inverse_is_the_reduced_number() {
    for m in 1..=30i128 {
        for a in -40..=40i128 {
            if let Some(x) = mod_mult_inv(a, m) {
                assert_eq!(mod_mult_inv(x, m), Some(a.rem_euclid(m)));
            }
            assert_eq!(mod_mult_inv(a + m, m), mod_mult_inv(a, m));
            assert_eq!(mod_mult_inv(a.rem_euclid(m), m), mod_mult_inv(a, m));
        }
    }
}

#[test]
fn ext_euclid_gcd_is_never_negative() {
    for a in -30..=30i128 {
        for b in -30..=30i128 {
            let (g, x, y) = ext_euclid(a, b);
            assert!(g >= 0);
            assert_eq!(a * x + b * y, g);
            if g != 0 {
                assert_eq!(a % g, 0);
                assert_eq!(b % g, 0);
            } else {
                assert_eq!((a, b), (0, 0));
            }
        }
    }
}
