use hoard::blob::{load, Blob};
use hoard::marshal::encode;
use hoard::offset::Offset;
use hoard::validptr::FatPtr;

#[test]
fn blob_of_wrong_size_is_refused() {
    assert!(Blob::<u16>::new(&[1]).is_none());
    assert!(Blob::<u16>::new(&[1, 2, 3]).is_none());
    assert!(Blob::<u16>::new(&[1, 2]).is_some());
    assert!(Blob::<()>::new(&[]).is_some());
    assert!(load::<u32>(&[1, 2, 3]).is_none());
    assert!(load::<Offset>(&[1; 9]).is_none());
}

#[test]
fn blob_goes_through_the_stages() {
    let bytes = [9u8, 0, 0, 0, 0, 0, 0, 0];
    let blob = Blob::<Offset>::new(&bytes).unwrap();
    assert_eq!(blob.as_bytes(), bytes);
    let valid = match blob.validate() {
        Ok(valid) => valid,
        Err(_) => panic!("the word of an offset"),
    };
    assert_eq!(valid.as_bytes(), bytes);
    let full = valid.into_fully_valid::<(), (), ()>(&());
    assert_eq!(full.as_bytes(), bytes);
    assert_eq!(full.decode().get(), 4);
}

#[test]
fn invalid_blob_is_not_decoded() {
    let bytes = [8u8, 0, 0, 0, 0, 0, 0, 0];
    assert!(Blob::<Offset>::new(&bytes).unwrap().validate().is_err());
    assert!(matches!(load::<Offset>(&bytes), Some(Err(_))));
    assert!(matches!(load::<FatPtr<Offset, u8>>(&[0; 9]), Some(Err(_))));
}

#[test]
fn load_reads_back_what_was_encoded() {
    assert!(matches!(load::<u32>(&encode(0xdead_beefu32)), Some(Ok(0xdead_beef))));
    assert!(matches!(load::<i64>(&encode(-3i64)), Some(Ok(-3))));
    assert!(matches!(load::<()>(&[]), Some(Ok(()))));
    match load::<FatPtr<Offset, u16>>(&[9, 0, 0, 0, 0, 0, 0, 0, 2, 1]) {
        Some(Ok(fat)) => {
            assert_eq!(fat.raw.get(), 4);
            assert_eq!(fat.metadata, 0x0102);
        }
        _ => panic!("a valid fat pointer"),
    }
}
