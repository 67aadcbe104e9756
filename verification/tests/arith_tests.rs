use chip8::arith::{add_get_carry, sub_get_borrow};

#[test]
fn add_with_carry_all_pairs() {
    for a in 0..=255u16 {
        for b in 0..=255u16 {
            let (s, c) = add_get_carry(a as u8, b as u8);
            let sum: u16 = a + b;
            assert_eq!(s as u16, sum % 256);
            assert_eq!(c, if sum >= 256 { 1 } else { 0 });
        }
    }
}

#[test]
fn sub_with_borrow_all_pairs() {
    for a in 0..=255i32 {
        for b in 0..=255i32 {
            let (d, borrow) = sub_get_borrow(a as u8, b as u8);
            assert_eq!(d as i32, (a - b).rem_euclid(256));
            assert_eq!(borrow, if a < b { 1 } else { 0 });
        }
    }
}
