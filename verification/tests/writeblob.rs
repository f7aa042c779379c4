use hoard::layout::BlobLayout;
use hoard::writer::{SliceWriter, ValueWriter, VecWriter, WriteBlob};

#[test]
fn write_exact_u8_slice() -> Result<(), Box<dyn std::error::Error>> {
    let mut buf = [0,0,0];

    let w = SliceWriter::new(&mut buf[..]);
    w.write_bytes(&[1])?
     .write_bytes(&[2])?
     .write_bytes(&[3])?
     .finish()?;

    assert_eq!(buf, [1,2,3]);

    Ok(())
}

#[test]
fn slice_writer_overwrites_in_order() {
    let mut buf = [9, 9, 9, 9];
    let w = SliceWriter::new(&mut buf);
    assert_eq!(w.remaining_len(), 4);
    let w = w.write_bytes(&[1, 2]).unwrap().write_bytes(&[]).unwrap();
    assert_eq!(w.remaining_len(), 2);
    w.write_bytes(&[3, 4]).unwrap().finish().unwrap();
    assert_eq!(buf, [1, 2, 3, 4]);
}

#[test]
fn vec_writer_appends() {
    let w = VecWriter::new(vec![7]);
    let buf = w.write_bytes(&[1, 2]).unwrap().write_bytes(&[3]).unwrap().finish().unwrap();
    assert_eq!(buf, [7, 1, 2, 3]);
}

#[test]
fn padding_is_zero_filled() {
    let w = VecWriter::new(vec![5]);
    let buf = w.write_padding(3).unwrap().write_bytes(&[6]).unwrap().finish().unwrap();
    assert_eq!(buf, [5, 0, 0, 0, 6]);
    let mut buf = [9, 9, 9];
    let w = SliceWriter::new(&mut buf);
    w.write_bytes(&[1]).unwrap().write_padding(2).unwrap().finish().unwrap();
    assert_eq!(buf, [1, 0, 0]);
}

#[test]
fn value_writer_hands_back_inner_sink() {
    let inner = VecWriter::new(vec![]);
    let w = ValueWriter::new(inner, 3);
    let inner = w.write_bytes(&[1]).unwrap().write_padding(1).unwrap().write_bytes(&[3]).unwrap().finish().unwrap();
    let inner = ValueWriter::new(inner, 1).write_bytes(&[4]).unwrap().finish().unwrap();
    assert_eq!(inner.finish().unwrap(), [1, 0, 3, 4]);
}

#[test]
fn value_written_into_slice() {
    let mut buf = [9u8; 6];
    let w = SliceWriter::new(&mut buf);
    let w = hoard::marshal::write(w, &0x0102_0304u32).unwrap();
    let w = hoard::marshal::write(w, &-2i16).unwrap();
    w.finish().unwrap();
    assert_eq!(buf, [4, 3, 2, 1, 0xfe, 0xff]);
}

#[test]
fn nested_value_writers() {
    let outer = ValueWriter::new(VecWriter::new(vec![]), 3);
    let inner = ValueWriter::new(outer, 2);
    let outer = inner.write_bytes(&[1, 2]).unwrap().finish().unwrap();
    let sink = outer.write_bytes(&[3]).unwrap().finish().unwrap();
    assert_eq!(sink.finish().unwrap(), [1, 2, 3]);
}

#[test]
fn layout_constructors() {
    assert_eq!(BlobLayout::new(4).size(), 4);
    assert_eq!(BlobLayout::new(4).niche(), None);
    assert!(!BlobLayout::new(4).has_niche());
    assert!(BlobLayout::new(4).inhabited());
    assert_eq!(BlobLayout::new_nonzero(4).niche(), Some(0..4));
    assert_eq!(BlobLayout::new_nonzero(0).niche(), None);
    assert_eq!(BlobLayout::with_niche(8, 2..5).niche(), Some(2..5));
    assert_eq!(BlobLayout::with_niche(8, 2..5).size(), 8);
    assert_eq!(BlobLayout::never().size(), 0);
    assert!(!BlobLayout::never().inhabited());
    assert_eq!(BlobLayout::never().niche(), None);
    assert_eq!(BlobLayout::default(), BlobLayout::never());
}

#[test]
fn layout_extend_adds_sizes() {
    let a = BlobLayout::new(3);
    let b = BlobLayout::new_nonzero(5);
    assert_eq!(a.extend(b).size(), 8);
    assert_eq!(b.extend(a).size(), 8);
    assert_eq!(a.extend(a).extend(b).size(), 11);
}

#[test]
fn layout_extend_keeps_shorter_niche() {
    let long = BlobLayout::with_niche(8, 1..5);
    let short = BlobLayout::with_niche(4, 1..3);
    assert_eq!(long.extend(short).niche(), Some(9..11));
    assert_eq!(short.extend(long).niche(), Some(1..3));
}

#[test]
fn layout_extend_tie_keeps_first_niche() {
    let a = BlobLayout::with_niche(8, 1..3);
    let b = BlobLayout::with_niche(4, 2..4);
    assert_eq!(a.extend(b).niche(), Some(1..3));
    assert_eq!(b.extend(a).niche(), Some(2..4));
}

#[test]
fn layout_extend_keeps_the_only_niche() {
    let plain = BlobLayout::new(2);
    let nz = BlobLayout::new_nonzero(4);
    assert_eq!(plain.extend(nz).niche(), Some(2..6));
    assert_eq!(nz.extend(plain).niche(), Some(0..4));
    assert_eq!(plain.extend(plain).niche(), None);
}

#[test]
fn layout_extend_with_uninhabited() {
    let never = BlobLayout::never();
    let nz = BlobLayout::new_nonzero(4);
    let both = nz.extend(never);
    assert!(!both.inhabited());
    assert!(!both.has_niche());
    assert_eq!(both.niche(), None);
    assert_eq!(both.size(), 4);
    assert!(nz.extend(nz).inhabited());
}
