//! Packing and component-count behaviour of SSA value identities.

use bak::ir::RegFile;
use bak::ir::SSARef;
use bak::ir::SSAValue;
use bak::ir::SSAValueAllocator;
use bak::ir::SrcRef;
use bak::ir::MAX_SSA_IDX;

#[test]
fn pack_unpack_gpr() {
    let v = SSAValue::new(RegFile::GPR, 1);
    assert_eq!(v.file(), RegFile::GPR);
    assert_eq!(v.idx(), 1);
}

#[test]
fn pack_unpack_pred() {
    let v = SSAValue::new(RegFile::Pred, 12345);
    assert_eq!(v.file(), RegFile::Pred);
    assert_eq!(v.idx(), 12345);
}

#[test]
fn pack_unpack_largest_index() {
    let v = SSAValue::new(RegFile::GPR, MAX_SSA_IDX);
    assert_eq!(v.file(), RegFile::GPR);
    assert_eq!(v.idx(), MAX_SSA_IDX);
    let w = SSAValue::new(RegFile::Pred, MAX_SSA_IDX);
    assert_eq!(w.file(), RegFile::Pred);
    assert_eq!(w.idx(), MAX_SSA_IDX);
}

#[test]
fn file_tag_bits() {
    assert_eq!(u8::from(RegFile::GPR), 0);
    assert_eq!(u8::from(RegFile::Pred), 2);
}

#[test]
fn allocator_counts_up_from_one() {
    let mut a = SSAValueAllocator::new();
    let v1 = a.alloc_value(RegFile::GPR);
    let v2 = a.alloc_value(RegFile::Pred);
    assert_eq!(v1.idx(), 1);
    assert_eq!(v1.file(), RegFile::GPR);
    assert_eq!(v2.idx(), 2);
    assert_eq!(v2.file(), RegFile::Pred);
}

#[test]
fn alloc_vec_component_counts() {
    for comps in 1..=4u8 {
        let mut a = SSAValueAllocator::new();
        let r = a.alloc_vec(RegFile::GPR, comps);
        assert_eq!(r.comps(), comps);
    }
}

#[test]
fn alloc_vec_behaves_as_a_sequence() {
    let mut a = SSAValueAllocator::new();
    let first = a.alloc_vec(RegFile::GPR, 3);
    assert_eq!(first.comps(), 3);
    for i in 0..3usize {
        assert_eq!(first.comp(i).idx(), (i + 1) as u32);
        assert_eq!(first.comp(i).file(), RegFile::GPR);
    }
    let second = a.alloc_vec(RegFile::Pred, 2);
    assert_eq!(second.comps(), 2);
    assert_eq!(second.comp(0).idx(), 4);
    assert_eq!(second.comp(1).idx(), 5);
    assert_eq!(second.comp(0).file(), RegFile::Pred);
}

#[test]
fn try_from_slice_accepts_one_to_four() {
    let vals = [
        SSAValue::new(RegFile::GPR, 10),
        SSAValue::new(RegFile::GPR, 20),
        SSAValue::new(RegFile::GPR, 30),
        SSAValue::new(RegFile::GPR, 40),
    ];
    for n in 1..=4usize {
        let r = SSARef::try_from_slice(&vals[..n]).unwrap();
        assert_eq!(r.comps() as usize, n);
        for i in 0..n {
            assert_eq!(r.comp(i).idx(), (10 * (i + 1)) as u32);
        }
    }
}

#[test]
fn try_from_slice_rejects_empty() {
    let vals: [SSAValue; 0] = [];
    assert!(SSARef::try_from_slice(&vals).is_err());
}

#[test]
fn try_from_slice_rejects_more_than_four() {
    let vals = [
        SSAValue::new(RegFile::GPR, 1),
        SSAValue::new(RegFile::GPR, 2),
        SSAValue::new(RegFile::GPR, 3),
        SSAValue::new(RegFile::GPR, 4),
        SSAValue::new(RegFile::GPR, 5),
    ];
    assert!(SSARef::try_from_slice(&vals).is_err());
}

#[test]
fn zero_immediate_has_a_reference() {
    assert!(matches!(SrcRef::from_imm(0), SrcRef::Zero));
}
