use buguc::text::{i32_to_string, u32_to_string};

#[test]
fn decimal_of_unsigned_numbers() {
    assert_eq!(u32_to_string(0), "0");
    assert_eq!(u32_to_string(7), "7");
    assert_eq!(u32_to_string(123), "123");
    assert_eq!(u32_to_string(4294967295), "4294967295");
}

#[test]
fn decimal_of_signed_numbers() {
    assert_eq!(i32_to_string(0), "0");
    assert_eq!(i32_to_string(-5), "-5");
    assert_eq!(i32_to_string(2147483647), "2147483647");
    assert_eq!(i32_to_string(-2147483648), "-2147483648");
}
