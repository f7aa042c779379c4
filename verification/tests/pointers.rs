use std::cell::RefCell;

use hoard::coerce::{Cast, CastRef, TryCast, TryCastRef};
use hoard::dumper::ShallowDumper;
use hoard::heap::{Arena, Heap};
use hoard::layout::BlobLayout;
use hoard::marshal::{encode, Load, Primitive};
use hoard::offset::{Kind, Offset, OffsetMut};
use hoard::save::{Own, Save};
use hoard::pile::{DerefError, DerefErrorPayload, OffsetError, Pile, ValidatorError};
use hoard::validptr::{FatPtr, PtrValidator, ValidPtr, ValidateChildren, ValidateError, ValidateState};

#[test]
fn arena_addresses_are_even_and_fresh() {
    let mut heap = Arena::new();
    let a = heap.allocate(10u32);
    let b = heap.allocate(20u32);
    assert_eq!(a, 2);
    assert_eq!(b, 4);
    assert_eq!(*heap.get(a), 10);
    assert_eq!(*heap.get(b), 20);
    assert_eq!(heap.take(a), 10);
    assert_eq!(*heap.get(b), 20);
    heap.dealloc(b);
    let c = heap.allocate(30u32);
    assert_eq!(c, 6);
    assert_eq!(*heap.get(c), 30);
}

#[test]
fn fresh_pointer_is_dirty_and_dumped_pointer_is_clean() {
    let mut heap = Arena::new();
    let ptr = OffsetMut::allocate(&mut heap, 42u8);
    assert!(matches!(ptr.kind(), Kind::Ptr(_)));
    assert!(ptr.get_offset().is_none());
    let value = match ptr.try_get_dirty_unchecked(&heap) {
        Ok(value) => value,
        Err(_) => panic!("a fresh pointer is dirty"),
    };
    assert_eq!(*value, 42);

    let (buf, offset) = ShallowDumper::new(0).save(value);
    assert_eq!(buf, [42]);
    assert_eq!(offset.get(), 0);

    let clean = OffsetMut::from(offset);
    assert!(matches!(clean.kind(), Kind::Offset(_)));
    match clean.try_get_dirty_unchecked::<u8, _>(&heap) {
        Ok(_) => panic!("a persisted pointer is clean"),
        Err(persisted) => assert_eq!(persisted.get(), 0),
    }
    match clean.try_take_dirty_unchecked::<u8, _>(&mut heap) {
        Ok(_) => panic!("a persisted pointer is clean"),
        Err(persisted) => assert_eq!(persisted.get(), 0),
    }
    assert_eq!(*heap.get(2), 42);
}

#[test]
fn take_dirty_moves_the_value_out() {
    let mut heap = Arena::new();
    let ptr = OffsetMut::allocate(&mut heap, String::from("abc"));
    match ptr.try_take_dirty_unchecked(&mut heap) {
        Ok(value) => assert_eq!(value, "abc"),
        Err(_) => panic!("dirty"),
    }
}

#[test]
fn dealloc_of_clean_pointer_is_a_no_op() {
    let mut heap = Arena::new();
    let dirty = OffsetMut::allocate(&mut heap, 5u16);
    let clean = OffsetMut::from_offset(Offset::new(1).unwrap());
    clean.dealloc::<u16, _>(&mut heap);
    assert_eq!(*heap.get(2), 5);
    Offset::new(1).unwrap().dealloc::<u16, _>(&mut heap);
    assert_eq!(*heap.get(2), 5);
    dirty.dealloc::<u16, _>(&mut heap);
    let next = OffsetMut::allocate(&mut heap, 6u16);
    assert_eq!(next.get_ptr(), Some(4));
}

#[test]
fn clone_with_duplicates_dirty_and_shares_clean() {
    let mut heap = Arena::new();
    let dirty = OffsetMut::allocate(&mut heap, 7u32);
    let copy = dirty.clone_unchecked_with(&mut heap, 3usize, |v: &u32| *v + 1);
    assert_eq!(copy.metadata, 3);
    assert_eq!(copy.raw.get_ptr(), Some(4));
    assert_eq!(*heap.get(4), 8);
    assert_eq!(*heap.get(2), 7);

    let clean = OffsetMut::from_offset(Offset::new(9).unwrap());
    let copy = clean.clone_unchecked_with(&mut heap, (), |v: &u32| *v);
    assert_eq!(copy.raw.get_offset().unwrap().get(), 9);

    let copy = Offset::new(9).unwrap().clone_unchecked_with(5u8, ());
    assert_eq!(copy.raw.get(), 9);
    assert_eq!(copy.metadata, 5);
}

#[test]
fn offset_is_never_dirty() {
    let o = Offset::new(3).unwrap();
    assert_eq!(o.try_get_dirty_unchecked::<u8>().unwrap_err().get(), 3);
    assert_eq!(o.try_take_dirty_unchecked::<u8>().unwrap_err().get(), 3);
}

#[test]
fn offset_casts_to_clean_pointer() {
    let o = Offset::new(11).unwrap();
    assert_eq!(o.try_cast_ref().unwrap().get_offset().unwrap().get(), 11);
    assert_eq!(o.try_cast().unwrap().get_offset().unwrap().get(), 11);
    assert_eq!(o.as_cast_ref().get_offset().unwrap().get(), 11);
    let m: OffsetMut = Cast::cast(o);
    assert_eq!(m.get_offset().unwrap().get(), 11);
    assert_eq!(o.as_ref().get_offset().unwrap().get(), 11);
    assert_eq!(o.borrow().get_offset().unwrap().get(), 11);
    assert_eq!(usize::from(o), 11);
    assert!(o == 11usize);
    assert!(11usize == o);
    assert!(o != 12usize);
}

#[test]
fn valid_ptr_wraps_and_unwraps() {
    let fat = FatPtr { raw: Offset::new(5).unwrap(), metadata: 9u16 };
    let mut valid = ValidPtr::new_unchecked(fat);
    assert_eq!(valid.deref().raw.get(), 5);
    *valid.raw_mut() = Offset::new(6).unwrap();
    let fat = valid.into_inner();
    assert_eq!(fat.raw.get(), 6);
    assert_eq!(fat.metadata, 9);
}

#[test]
fn fat_ptr_encoding() {
    let fat = FatPtr { raw: Offset::new(4).unwrap(), metadata: 0x0102u16 };
    let bytes = encode(fat);
    assert_eq!(bytes, [9, 0, 0, 0, 0, 0, 0, 0, 2, 1]);
    let layout = <FatPtr<Offset, u16> as Primitive>::blob_layout();
    assert_eq!(layout.size(), 10);
    assert_eq!(layout.niche(), Some(0..8));
    assert_eq!(layout, BlobLayout::new_nonzero(8).extend(BlobLayout::new(2)));
    assert!(ValidPtr::<Offset, u16>::validate(&bytes).is_ok());
    let back = FatPtr::<Offset, u16>::decode_blob(&bytes);
    assert_eq!(back.raw.get(), 4);
    assert_eq!(back.metadata, 0x0102);
}

#[test]
fn fat_ptr_validation_names_the_bad_part() {
    let bad = [8u8, 0, 0, 0, 0, 0, 0, 0, 2, 1];
    assert!(matches!(ValidPtr::<Offset, u16>::validate(&bad), Err(ValidateError::Ptr(_))));
    let bad = [9u8, 0, 0, 0, 0, 0, 0, 0, 8, 0, 0, 0, 0, 0, 0, 0];
    assert!(matches!(
        FatPtr::<Offset, Offset>::validate_blob(&bad),
        Err(ValidateError::Metadata(_))
    ));
    let bad = [0u8; 16];
    assert!(matches!(FatPtr::<Offset, Offset>::validate_blob(&bad), Err(ValidateError::Ptr(_))));
}

#[test]
fn validate_children_of_dirty_pointer_is_done() {
    let dirty = ValidPtr::new_unchecked(FatPtr { raw: OffsetMut::from_ptr(8), metadata: () });
    assert!(matches!(dirty.validate_children::<()>(), ValidateState::Done));
    let clean = ValidPtr::new_unchecked(FatPtr {
        raw: OffsetMut::from_offset(Offset::new(3).unwrap()),
        metadata: 7u8,
    });
    match clean.validate_children::<()>() {
        ValidateState::FatPtr(ptr) => {
            assert_eq!(ptr.raw.get(), 3);
            assert_eq!(ptr.metadata, 7);
        }
        _ => panic!("a clean pointer is pending"),
    }
}

struct Child {
    failures_left: u32,
}

struct Script {
    answers: RefCell<Vec<Result<Option<Child>, &'static str>>>,
    seen: RefCell<Vec<usize>>,
}

impl PtrValidator<Offset, (), Child> for Script {
    type Error = &'static str;

    fn answers(&self, _: &FatPtr<Offset, ()>, _: Result<Option<Child>, &'static str>) -> bool {
        true
    }

    fn validate_ptr(&self, ptr: &FatPtr<Offset, ()>) -> Result<Option<Child>, &'static str> {
        self.seen.borrow_mut().push(ptr.raw.get());
        self.answers.borrow_mut().remove(0)
    }
}

impl ValidateChildren<Script, &'static str> for Child {
    fn is_done(&self) -> bool {
        self.failures_left == 0
    }

    fn polled(&self, _: &Self, _: &Script, _: Result<(), &'static str>) -> bool {
        true
    }

    fn poll(&mut self, _: &Script) -> Result<(), &'static str> {
        if self.failures_left == 0 {
            Ok(())
        } else {
            self.failures_left -= 1;
            Err("child pending")
        }
    }
}

fn script(answers: Vec<Result<Option<Child>, &'static str>>) -> Script {
    Script { answers: RefCell::new(answers), seen: RefCell::new(vec![]) }
}

fn pending(at: usize) -> ValidateState<Offset, (), Child> {
    ValidateState::FatPtr(FatPtr { raw: Offset::new(at).unwrap(), metadata: () })
}

#[test]
fn poll_moves_forward_only() {
    let v = script(vec![Err("not mapped"), Ok(Some(Child { failures_left: 2 }))]);
    let mut state = pending(40);

    assert_eq!(state.poll(&v), Err("not mapped"));
    assert!(matches!(state, ValidateState::FatPtr(_)));

    assert_eq!(state.poll(&v), Err("child pending"));
    assert!(matches!(state, ValidateState::Value(Child { failures_left: 1 })));

    assert_eq!(state.poll(&v), Err("child pending"));
    assert!(matches!(state, ValidateState::Value(Child { failures_left: 0 })));

    assert_eq!(state.poll(&v), Ok(()));
    assert!(matches!(state, ValidateState::Done));
    assert_eq!(*v.seen.borrow(), [40, 40]);
}

#[test]
fn poll_past_done_is_a_no_op() {
    let v = script(vec![]);
    let mut state: ValidateState<Offset, (), Child> = ValidateState::Done;
    assert_eq!(state.poll(&v), Ok(()));
    assert_eq!(state.poll(&v), Ok(()));
    assert!(matches!(state, ValidateState::Done));
    assert!(v.seen.borrow().is_empty());
}

#[test]
fn poll_without_child_value_is_done_at_once() {
    let v = script(vec![Ok(None)]);
    let mut state = pending(8);
    assert_eq!(state.poll(&v), Ok(()));
    assert!(matches!(state, ValidateState::Done));
}

#[test]
fn poll_runs_through_in_one_call() {
    let v = script(vec![Ok(Some(Child { failures_left: 0 }))]);
    let mut state = pending(8);
    assert_eq!(state.poll(&v), Ok(()));
    assert!(matches!(state, ValidateState::Done));
}

#[test]
fn unit_has_no_children() {
    let v = script(vec![]);
    let mut unit = ();
    assert_eq!(ValidateChildren::<Script, &'static str>::poll(&mut unit, &v), Ok(()));
}

#[test]
fn deref_errors_keep_mapping_and_offset() {
    let pile = Pile { mapping: 0x7000, len: 64 };
    let ptr = FatPtr { raw: Offset::new(100).unwrap(), metadata: () };
    let err = OffsetError::new(&pile, &ptr);
    assert_eq!(err.pile, pile);
    assert_eq!(err.offset.get(), 100);

    let deref: DerefError<u8> = DerefError::from(OffsetError::new(&pile, &ptr));
    assert!(matches!(&deref, DerefError::Offset(e) if e.offset.get() == 100));
    match DerefErrorPayload::from(deref) {
        DerefErrorPayload::Offset { mapping, offset } => {
            assert_eq!(mapping, 0x7000);
            assert_eq!(offset.get(), 100);
        }
        _ => panic!("an offset error stays one"),
    }

    let deref = DerefError::Value { pile, offset: Offset::new(8).unwrap(), err: 3u8 };
    match DerefErrorPayload::from(deref) {
        DerefErrorPayload::Value { mapping, offset, err } => {
            assert_eq!(mapping, 0x7000);
            assert_eq!(offset.get(), 8);
            assert_eq!(err, 3);
        }
        _ => panic!("a value error stays one"),
    }

    match DerefErrorPayload::<u8>::from(err) {
        DerefErrorPayload::Offset { mapping, offset } => {
            assert_eq!(mapping, 0x7000);
            assert_eq!(offset.get(), 100);
        }
        _ => panic!("an offset error stays one"),
    }
}

fn own<'a, T: Save, H: Heap<T>>(ptr: OffsetMut, heap: &'a H) -> Own<'a, T, H> {
    Own::new(ptr, heap)
}

#[test]
fn dumper_saves_target_before_pointer() {
    let mut heap = Arena::new();
    let ptr = OffsetMut::allocate(&mut heap, 42u8);
    let bag = own(ptr, &heap);

    let (buf, offset) = ShallowDumper::new(0).save(&bag);
    assert_eq!(offset.get(), 1);
    assert_eq!(buf, &[42, 1, 0, 0, 0, 0, 0, 0, 0]);
}

#[test]
fn dumper_saves_nested_targets_innermost_first() {
    let mut values = Arena::new();
    let ptr = OffsetMut::allocate(&mut values, 42u8);
    let bag = own(ptr, &values);

    let mut bags = Arena::new();
    let ptr2 = OffsetMut::allocate(&mut bags, bag);
    let bag2 = own(ptr2, &bags);

    let (buf, offset) = ShallowDumper::new(0).save(&bag2);
    assert_eq!(offset.get(), 9);
    assert_eq!(buf, &[42, 1, 0, 0, 0, 0, 0, 0, 0, 3, 0, 0, 0, 0, 0, 0, 0]);
}

#[test]
fn dumper_keeps_clean_pointer_as_it_is() {
    let heap: Arena<u8> = Arena::new();
    let bag = own(OffsetMut::from_offset(Offset::new(5).unwrap()), &heap);
    let (buf, offset) = ShallowDumper::new(16).save(&bag);
    assert_eq!(offset.get(), 16);
    assert_eq!(buf, &[11, 0, 0, 0, 0, 0, 0, 0]);
}

#[test]
fn save_in_two_phases() {
    let mut heap = Arena::new();
    let ptr = OffsetMut::allocate(&mut heap, 0x0102u16);
    let bag = own(ptr, &heap);

    let mut state = bag.init_save_state();
    assert!(state.is_none());
    let dumper = bag.save_poll(&mut state, ShallowDumper::new(10));
    assert_eq!(state.unwrap().get(), 10);
    assert_eq!(bag.save_blob(&state, vec![7]), [7, 21, 0, 0, 0, 0, 0, 0, 0]);
    let (dumper, at) = dumper.save_ptr(&bag, &state);
    assert_eq!(at.get(), 12);
    let (buf, end) = dumper.save(&());
    assert_eq!(end.get(), 20);
    assert_eq!(buf, [2, 1, 21, 0, 0, 0, 0, 0, 0, 0]);
}

#[test]
fn dumped_pointer_is_clean() {
    let mut heap = Arena::new();
    let ptr = OffsetMut::allocate(&mut heap, 42u8);
    assert!(ptr.get_ptr().is_some());
    let bag = own(ptr, &heap);
    let mut state = bag.init_save_state();
    let dumper = bag.save_poll(&mut state, ShallowDumper::new(0));
    let persisted = OffsetMut::from(state.unwrap());
    assert!(matches!(persisted.kind(), Kind::Offset(_)));
    match persisted.try_get_dirty_unchecked::<u8, _>(&heap) {
        Ok(_) => panic!("a persisted pointer is clean"),
        Err(offset) => assert_eq!(offset.get(), 0),
    }
    assert!(dumper.try_save_ptr(&persisted).is_ok());
    assert!(dumper.try_save_ptr(&ptr).is_err());
}

#[test]
fn offsets_compare_by_position() {
    assert_eq!(Offset::new(5).unwrap(), Offset::new(5).unwrap());
    assert_ne!(Offset::new(5).unwrap(), Offset::new(6).unwrap());
    assert_eq!(OffsetMut::from(Offset::new(5).unwrap()), OffsetMut::from_offset(Offset::new(5).unwrap()));
    assert_ne!(OffsetMut::from_ptr(10), OffsetMut::from_offset(Offset::new(5).unwrap()));
    let pile = Pile { mapping: 16, len: 4 };
    let ptr = FatPtr { raw: Offset::new(5).unwrap(), metadata: () };
    assert_eq!(OffsetError::new(&pile, &ptr), OffsetError { pile, offset: Offset::new(5).unwrap() });
}

#[test]
fn validator_errors_name_the_offset() {
    let at = Offset::new(24).unwrap();
    let errors: [ValidatorError<u8>; 3] = [
        ValidatorError::Offset { offset: at },
        ValidatorError::Value { offset: at, err: 7 },
        ValidatorError::Padding { offset: at },
    ];
    for e in errors {
        let offset = match e {
            ValidatorError::Offset { offset } => offset,
            ValidatorError::Value { offset, err } => {
                assert_eq!(err, 7);
                offset
            }
            ValidatorError::Padding { offset } => offset,
        };
        assert_eq!(offset, at);
    }
}
