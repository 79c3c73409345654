use askrs::text::{decimal, hex};
use askrs::utility::{
    bit_range, clear_bit, push_u16, read_u16, read_u32, set_bit, Blob, Byte, Row,
};

#[test]
fn test_slicing() {
    let a: Vec<u8> = vec![1, 2, 3, 4, 5];
    let expect: Vec<u8> = vec![3, 4, 5];
    let res: Vec<u8> = a.get_slice(2, 5).unwrap();
    for (idx, i) in res.iter().enumerate() {
        assert_eq!(&expect[idx], i);
    }
    assert_eq!(a.len(), 5);
}

#[test]
fn test_get_from_offset() {
    let a: Vec<u8> = vec![1, 2, 3, 4, 5];
    let expect: Vec<u8> = vec![3, 4, 5];
    let res: Vec<u8> = a.get_from_offset(2).unwrap();
    for (idx, i) in res.iter().enumerate() {
        assert_eq!(&expect[idx], i);
    }
    assert_eq!(a.len(), 5);
}

#[test]
fn test_row_trait() {
    let a: [u8; 2] = [0, 1];
    let expect_u16: u16 = 1;
    assert_eq!(a.as_u16(), expect_u16);
}

#[test]
fn test_bit_is_set() {
    let val: u8 = 0b01010101;
    for n in 0..8 {
        assert_eq!((n + 1) % 2 == 1, val.bit_is_set(n));
    }
}

#[test]
fn slices_are_checked() {
    let a: Vec<u8> = vec![1, 2, 3, 4, 5];
    assert_eq!(a.get_slice(0, 5).unwrap(), vec![1, 2, 3, 4, 5]);
    assert_eq!(a.get_slice(0, 2).unwrap(), vec![1, 2]);
    assert_eq!(a.get_slice(1, 2).unwrap(), vec![2, 3]);
    assert_eq!(a.get_slice(3, 4).unwrap(), vec![4, 5]);
    assert_eq!(a.get_slice(0, 0).unwrap(), Vec::<u8>::new());
    assert_eq!(a.get_slice(3, 2), Err("Invalid range"));
    assert_eq!(a.get_slice(0, 6), Err("Invalid range"));
    assert_eq!(a.get_from_offset(0).unwrap(), a);
    assert_eq!(a.get_from_offset(5).unwrap(), Vec::<u8>::new());
    assert_eq!(a.get_from_offset(6), Err("Start index out of bounds."));
    assert_eq!(a.to_socket_msg().unwrap(), &[1, 2, 3, 4, 5]);
}

#[test]
fn bits_of_a_byte() {
    let b: u8 = 0b1011_0100;
    assert!(!b.bit_is_set(0));
    assert!(b.bit_is_set(2));
    assert!(b.bit_is_set(7));
    assert!(!b.bit_is_set(8));
    assert!(!b.bit_is_set(200));
    assert_eq!(b.take_left_nibble(), 0b1011_0000);
    assert_eq!(b.take_right_nibble(), 0b0100);
    let mut c: u8 = 0b0000_0101;
    Byte::set_bits(&mut c, 0b1000_0001);
    assert_eq!(c, 0b1000_0101);
    Byte::unset_bits(&mut c, 0b0000_1111);
    assert_eq!(c, 0b0000_0101);
    assert_eq!(bit_range(b, 0, 8), b);
    assert_eq!(bit_range(b, 2, 6), 0b1101);
    assert_eq!(bit_range(b, 4, 8), 0b1011);
    assert_eq!(bit_range(b, 7, 8), 1);
    assert_eq!(bit_range(b, 0, 1), 0);
    assert_eq!(set_bit(0, 0), 1);
    assert_eq!(set_bit(0b0100, 7), 0b1000_0100);
    assert_eq!(set_bit(0xFF, 3), 0xFF);
    assert_eq!(clear_bit(0xFF, 0), 0xFE);
    assert_eq!(clear_bit(0b1000_0100, 7), 0b0100);
    assert_eq!(clear_bit(0, 5), 0);
}

#[test]
fn rows_of_two_octets() {
    let mut r: [u8; 2] = [0x12, 0x34];
    assert_eq!(r.as_u16(), 0x1234);
    r.start_set_bits(0x80);
    r.end_set_bits(0x01);
    assert_eq!(r, [0x92, 0x35]);
    r.start_unset_bits(0x0F);
    r.end_unset_bits(0xF0);
    assert_eq!(r, [0x02, 0x30]);
    assert_eq!([0xFFu8, 0xFF].as_u16(), 0xFFFF);
}

#[test]
fn big_endian_numbers() {
    let data: Vec<u8> = vec![0xAA, 0x01, 0x02, 0x03, 0x04];
    assert_eq!(read_u16(&data, 1), 0x0102);
    assert_eq!(read_u16(&data, 3), 0x0304);
    assert_eq!(read_u32(&data, 1), 0x01020304);
    assert_eq!(read_u32(&data, 0), 0xAA010203);
    let mut out: Vec<u8> = vec![9];
    push_u16(&mut out, 0xBEEF);
    assert_eq!(out, vec![9, 0xBE, 0xEF]);
}

#[test]
fn numbers_in_words() {
    assert_eq!(decimal(0), "0");
    assert_eq!(decimal(7), "7");
    assert_eq!(decimal(10), "10");
    assert_eq!(decimal(65535), "65535");
    assert_eq!(decimal(4294967295), "4294967295");
    assert_eq!(decimal(u64::MAX), "18446744073709551615");
    assert_eq!(hex(0, false), "0");
    assert_eq!(hex(0xdead, false), "dead");
    assert_eq!(hex(0xDEAD, true), "DEAD");
    assert_eq!(hex(0x1F, true), "1F");
    assert_eq!(hex(0x100, false), "100");
    assert_eq!(hex(u64::MAX, true), "FFFFFFFFFFFFFFFF");
    for n in [0u64, 9, 10, 99, 100, 255, 256, 1000, 123456789] {
        assert_eq!(decimal(n), format!("{n}"));
        assert_eq!(hex(n, false), format!("{n:x}"));
        assert_eq!(hex(n, true), format!("{n:X}"));
    }
}
