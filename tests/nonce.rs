use wgpu_playground::nonce::add_big_int;

fn counter(low: &[u8]) -> [u8; 32] {
    let mut b = [0u8; 32];
    b[..low.len()].copy_from_slice(low);
    b
}

#[test]
fn add_small_increment() {
    let mut b = [0u8; 32];
    add_big_int(&mut b, 5);
    assert_eq!(b, counter(&[5]));
}

#[test]
fn add_carries_into_next_byte() {
    let mut b = counter(&[0xff]);
    add_big_int(&mut b, 1);
    assert_eq!(b, counter(&[0x00, 0x01]));
}

#[test]
fn add_carries_across_several_bytes() {
    let mut b = counter(&[0xff, 0xff, 0xff, 0x07]);
    add_big_int(&mut b, 0x0102);
    assert_eq!(b, counter(&[0x01, 0x01, 0x00, 0x08]));
}

#[test]
fn add_largest_increment() {
    let mut b = counter(&[0x01]);
    add_big_int(&mut b, u32::MAX);
    assert_eq!(b, counter(&[0x00, 0x00, 0x00, 0x00, 0x01]));
}

#[test]
fn add_zero_changes_nothing() {
    let mut b = counter(&[9, 8, 7]);
    add_big_int(&mut b, 0);
    assert_eq!(b, counter(&[9, 8, 7]));
}

#[test]
fn add_wraps_past_the_top() {
    let mut b = [0xffu8; 32];
    add_big_int(&mut b, 3);
    assert_eq!(b, counter(&[2]));
}

#[test]
fn add_twice_equals_add_of_sum() {
    let start = counter(&[0xfe, 0xff, 0x10]);
    let mut twice = start;
    add_big_int(&mut twice, 300);
    add_big_int(&mut twice, 70_000);
    let mut once = start;
    add_big_int(&mut once, 70_300);
    assert_eq!(twice, once);

    let mut top = [0xffu8; 32];
    add_big_int(&mut top, 1);
    add_big_int(&mut top, 1);
    let mut top_once = [0xffu8; 32];
    add_big_int(&mut top_once, 2);
    assert_eq!(top, top_once);
    assert_eq!(top, counter(&[1]));
}
