use basis::{add, gen_u32};

#[test]
fn it_works() {
    let result = add(2, 2);
    assert_eq!(result, 4);
}

#[test]
fn xorshift_of_one() {
    assert_eq!(gen_u32(1), 270369);
}

#[test]
fn xorshift_is_not_identity() {
    assert_ne!(gen_u32(42), 42);
}
