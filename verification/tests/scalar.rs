use hoard::dumper::ShallowDumper;
use hoard::layout::BlobLayout;
use hoard::marshal::{encode, Load, Primitive};
use hoard::offset::{Kind, Offset, OffsetMut};
use hoard::scalar::{read_le, write_le};
use hoard::writer::{VecWriter, WriteBlob};

#[test]
fn test() {
    assert_eq!(encode(42u8),
               &[42]);
}

#[test]
fn encode_is_little_endian() {
    assert_eq!(encode(0x1234u16), [0x34, 0x12]);
    assert_eq!(encode(0x1234_5678u32), [0x78, 0x56, 0x34, 0x12]);
    assert_eq!(encode(0x0102_0304_0506_0708u64), [8, 7, 6, 5, 4, 3, 2, 1]);
    assert_eq!(encode(1u128 << 120), [0, 0, 0, 0, 0, 0, 0, 0, 0, 0, 0, 0, 0, 0, 0, 1]);
    assert_eq!(encode(()), [0u8; 0]);
}

#[test]
fn encode_signed_is_twos_complement() {
    assert_eq!(encode(-1i8), [0xff]);
    assert_eq!(encode(-2i16), [0xfe, 0xff]);
    assert_eq!(encode(i32::MIN), [0, 0, 0, 0x80]);
    assert_eq!(encode(-1i64), [0xff; 8]);
    assert_eq!(encode(i128::MIN).to_vec(), i128::MIN.to_le_bytes().to_vec());
    assert_eq!(encode(i128::MAX).to_vec(), i128::MAX.to_le_bytes().to_vec());
    assert_eq!(encode(-5i128).to_vec(), (-5i128).to_le_bytes().to_vec());
    assert_eq!(encode(77i64).to_vec(), 77i64.to_le_bytes().to_vec());
}

#[test]
fn scalars_round_trip() {
    for v in [0u8, 1, 42, 255] {
        assert_eq!(u8::decode_blob(&encode(v)), v);
    }
    for v in [0u16, 1, 0x1234, u16::MAX] {
        assert_eq!(u16::decode_blob(&encode(v)), v);
    }
    for v in [0u32, 0xdead_beef, u32::MAX] {
        assert_eq!(u32::decode_blob(&encode(v)), v);
    }
    for v in [0u64, 0x0123_4567_89ab_cdef, u64::MAX] {
        assert_eq!(u64::decode_blob(&encode(v)), v);
    }
    for v in [0u128, 1 << 100, u128::MAX] {
        assert_eq!(u128::decode_blob(&encode(v)), v);
    }
    for v in [i8::MIN, -1, 0, 1, i8::MAX] {
        assert_eq!(i8::decode_blob(&encode(v)), v);
    }
    for v in [i16::MIN, -1, 0, 1, i16::MAX] {
        assert_eq!(i16::decode_blob(&encode(v)), v);
    }
    for v in [i32::MIN, -1, 0, 1, i32::MAX] {
        assert_eq!(i32::decode_blob(&encode(v)), v);
    }
    for v in [i64::MIN, -1, 0, 1, i64::MAX] {
        assert_eq!(i64::decode_blob(&encode(v)), v);
    }
    for v in [i128::MIN, -1, 0, 1, i128::MAX] {
        assert_eq!(i128::decode_blob(&encode(v)), v);
    }
}

#[test]
fn scalar_layouts_have_the_size_of_the_type() {
    assert_eq!(<() as Primitive>::blob_layout(), BlobLayout::new(0));
    assert_eq!(<u8 as Primitive>::blob_layout(), BlobLayout::new(1));
    assert_eq!(<i16 as Primitive>::blob_layout(), BlobLayout::new(2));
    assert_eq!(<u32 as Primitive>::blob_layout(), BlobLayout::new(4));
    assert_eq!(<i64 as Primitive>::blob_layout(), BlobLayout::new(8));
    assert_eq!(<u128 as Primitive>::blob_layout(), BlobLayout::new(16));
    assert_eq!(encode(7u32).len(), 4);
    assert_eq!(encode(7i128).len(), 16);
}

#[test]
fn scalars_always_validate() {
    assert!(u8::validate_blob(&[0]).is_ok());
    assert!(i32::validate_blob(&[0xff; 4]).is_ok());
    assert!(<() as Load>::validate_blob(&[]).is_ok());
}

#[test]
fn le_helpers() {
    let w = write_le(VecWriter::new(vec![]), 0x0a0b0c, 4).unwrap();
    let bytes = w.finish().unwrap();
    assert_eq!(bytes, [0x0c, 0x0b, 0x0a, 0]);
    assert_eq!(read_le(&bytes), 0x0a0b0c);
    assert_eq!(read_le(&[]), 0);
    assert_eq!(read_le(&[0xff; 16]), u128::MAX);
}

#[test]
fn write_holds_value_to_its_size() {
    let w = VecWriter::new(vec![1]);
    let w = hoard::marshal::write(w, &0x0203u16).unwrap();
    let w = hoard::marshal::write(w, &4u8).unwrap();
    assert_eq!(w.finish().unwrap(), [1, 3, 2, 4]);
}

#[test]
fn offset_round_trip() {
    for x in [0usize, 1, 2, 1000, (1 << 62) - 1] {
        assert_eq!(Offset::new(x).unwrap().get(), x);
        assert!(Offset::new(x).unwrap().eq_usize(x));
    }
}

#[test]
fn offset_overflow() {
    assert!(Offset::new(1 << 62).is_none());
    assert!(Offset::new((1 << 62) + 5).is_none());
    assert!(Offset::new(usize::MAX).is_none());
}

#[test]
fn offset_dangling_is_max() {
    assert_eq!(Offset::dangling().get(), (1 << 62) - 1);
    assert_eq!(Offset::MAX, (1 << 62) - 1);
    assert_eq!(Offset::dangling().to_word(), 0x7fff_ffff_ffff_ffff);
}

#[test]
fn offset_word_has_tag_bit() {
    assert_eq!(Offset::new(0).unwrap().to_word(), 1);
    assert_eq!(Offset::new(1).unwrap().to_word(), 3);
    assert_eq!(Offset::new(4).unwrap().to_word(), 9);
    assert_eq!(Offset::from_word(9).unwrap().get(), 4);
    assert!(Offset::from_word(8).is_none());
    assert!(Offset::from_word(0).is_none());
    assert!(Offset::from_word(u64::MAX).is_none());
}

#[test]
fn offset_encoding() {
    let o = Offset::new(4).unwrap();
    assert_eq!(encode(o), [9, 0, 0, 0, 0, 0, 0, 0]);
    assert_eq!(encode(Offset::new(0x1234).unwrap()), [0x69, 0x24, 0, 0, 0, 0, 0, 0]);
    assert_eq!(<Offset as Primitive>::blob_layout(), BlobLayout::new_nonzero(8));
    assert!(Offset::validate_blob(&[9, 0, 0, 0, 0, 0, 0, 0]).is_ok());
    assert_eq!(Offset::decode_blob(&[9, 0, 0, 0, 0, 0, 0, 0]).get(), 4);
}

#[test]
fn offset_validation_rejects_bad_words() {
    assert!(Offset::validate_blob(&[0; 8]).is_err());
    assert!(Offset::validate_blob(&[8, 0, 0, 0, 0, 0, 0, 0]).is_err());
    assert!(Offset::validate_blob(&[0xff; 8]).is_err());
    assert!(Offset::validate_blob(&[0xff, 0xff, 0xff, 0xff, 0xff, 0xff, 0xff, 0x7f]).is_ok());
}

#[test]
fn offset_copies() {
    let o = Offset::new(12).unwrap();
    assert_eq!(o.cast().get(), 12);
    assert_eq!(o.to_static().get(), 12);
    assert_eq!(o.duplicate().get(), 12);
}

#[test]
fn offset_mut_kinds() {
    let clean = OffsetMut::from_offset(Offset::new(21).unwrap());
    assert!(matches!(clean.kind(), Kind::Offset(o) if o.get() == 21));
    assert_eq!(clean.get_offset().unwrap().get(), 21);
    assert!(clean.get_ptr().is_none());

    let dirty = OffsetMut::from_ptr(0x1000);
    assert!(matches!(dirty.kind(), Kind::Ptr(0x1000)));
    assert_eq!(dirty.get_ptr(), Some(0x1000));
    assert!(dirty.get_offset().is_none());
    assert_eq!(dirty.duplicate().get_ptr(), Some(0x1000));

    assert_eq!(OffsetMut::default().get_offset().unwrap().get(), Offset::dangling().get());
}

#[test]
fn shallow_dumper_scalar() {
    let (buf, offset) = ShallowDumper::new(0).save(&42u8);
    assert_eq!(offset.get(), 0);
    assert!(offset.eq_usize(0));
    assert_eq!(buf, &[42]);
}

#[test]
fn shallow_dumper_assigns_offsets_in_order() {
    let d = ShallowDumper::new(100);
    let (d, first) = d.save_ptr(&0x0102u16, &());
    let (d, second) = d.save_ptr(&0x0102u16, &());
    let (buf, third) = d.save(&second);
    assert_eq!(first.get(), 100);
    assert_eq!(second.get(), 102);
    assert_eq!(third.get(), 104);
    assert_eq!(buf, [2, 1, 2, 1, 205, 0, 0, 0, 0, 0, 0, 0]);
}

#[test]
fn shallow_dumper_tells_clean_from_dirty() {
    let d = ShallowDumper::default();
    let (d, offset) = d.save_ptr(&7u8, &());
    let clean = OffsetMut::from_offset(offset);
    assert_eq!(d.try_save_ptr(&clean).unwrap().get(), 0);
    let dirty = OffsetMut::from_ptr(64);
    assert_eq!(d.try_save_ptr(&dirty).unwrap_err(), 64);
}

#[test]
fn shallow_dumper_pointer_after_value() {
    let (d, offset) = ShallowDumper::new(0).save_ptr(&42u8, &());
    assert_eq!(offset.get(), 0);
    let (buf, offset) = d.save(&offset);
    assert_eq!(offset.get(), 1);
    assert_eq!(buf, &[42, 1, 0, 0, 0, 0, 0, 0, 0]);
}

#[test]
fn shallow_dumper_pointer_to_pointer() {
    let (d, value) = ShallowDumper::new(0).save_ptr(&42u8, &());
    let (d, inner) = d.save_ptr(&value, &());
    let (buf, outer) = d.save(&inner);
    assert_eq!(outer.get(), 9);
    assert_eq!(buf, &[42, 1, 0, 0, 0, 0, 0, 0, 0, 3, 0, 0, 0, 0, 0, 0, 0]);
}

#[test]
fn shallow_dumper_does_not_share() {
    let d = ShallowDumper::new(0);
    let (d, a) = d.save_ptr(&7u8, &());
    let (d, b) = d.save_ptr(&7u8, &());
    assert_eq!(a.get(), 0);
    assert_eq!(b.get(), 1);
    assert!(d.has_room_for(1));
    let (buf, _) = d.save(&());
    assert_eq!(buf, [7, 7]);
}

#[test]
fn shallow_dumper_room() {
    assert!(ShallowDumper::new(0).has_room_for(8));
    assert!(ShallowDumper::new((1 << 62) - 1).has_room_for(8));
    assert!(!ShallowDumper::new(1 << 62).has_room_for(8));
    assert!(!ShallowDumper::new(usize::MAX).has_room_for(0));
}
