use parsely::bits::ByteOrder;
use parsely::builtin::{ParselyRead, ParselyWrite, StateSync};
use parsely::error::ErrorKind;
use parsely::wire::{reader, remaining_bits, writer};

#[test]
fn primitives_read_themselves() {
    let mut buf = reader(&vec![0b1000_0000, 7, 1, 2, 1, 2, 3, 4]);
    assert_eq!(<bool as ParselyRead<_>>::read(&mut buf, ByteOrder::BigEndian, ()), Ok(true));
    assert_eq!(remaining_bits(&buf), 63);
    assert_eq!(<bool as ParselyRead<_>>::read(&mut buf, ByteOrder::BigEndian, ()), Ok(false));
    let mut buf = reader(&vec![7, 1, 2, 1, 2, 3, 4]);
    assert_eq!(<u8 as ParselyRead<_>>::read(&mut buf, ByteOrder::BigEndian, ()), Ok(7));
    assert_eq!(<u16 as ParselyRead<_>>::read(&mut buf, ByteOrder::LittleEndian, ()), Ok(0x0201));
    assert_eq!(<u32 as ParselyRead<_>>::read(&mut buf, ByteOrder::BigEndian, ()), Ok(0x01020304));
    let error = <u8 as ParselyRead<_>>::read(&mut buf, ByteOrder::BigEndian, ()).unwrap_err();
    assert_eq!(error.kind, ErrorKind::Primitive);
}

#[test]
fn primitives_write_themselves() {
    let mut out = writer();
    true.write(&mut out, ByteOrder::BigEndian, ()).unwrap();
    assert_eq!(out.len_bits(), 1);
    let mut out = writer();
    7u8.write(&mut out, ByteOrder::BigEndian, ()).unwrap();
    0x0201u16.write(&mut out, ByteOrder::LittleEndian, ()).unwrap();
    0x01020304u32.write(&mut out, ByteOrder::BigEndian, ()).unwrap();
    assert_eq!(out.freeze(), reader(&vec![7, 1, 2, 1, 2, 3, 4]));
}

#[test]
fn primitives_have_nothing_to_synchronize() {
    let mut flag = true;
    flag.sync(()).unwrap();
    assert!(flag);
    let mut byte = 7u8;
    byte.sync(()).unwrap();
    assert_eq!(byte, 7);
    let mut short = 7u16;
    short.sync(()).unwrap();
    assert_eq!(short, 7);
    let mut word = 7u32;
    word.sync(()).unwrap();
    assert_eq!(word, 7);
    let mut text = "x".to_string();
    text.sync(()).unwrap();
    assert_eq!(text, "x");
}
