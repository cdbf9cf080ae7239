use rain_llvm::codegen::arena::Arena;
use rain_llvm::codegen::position::Position;
use rain_llvm::codegen::treesym::SymbolTable;
use rain_llvm::repr::{IxMap, ReprIx};
use std::convert::TryFrom;

#[test]
fn repr_ix_from_raw_entries() {
    assert_eq!(ReprIx::from(-1), ReprIx::Prop);
    assert_eq!(ReprIx::from(ReprIx::PROP_IX), ReprIx::Prop);
    assert_eq!(ReprIx::from(0), ReprIx::Val(0));
    assert_eq!(ReprIx::from(17), ReprIx::Val(17));
    // other negative entries read back as the index whose bits they hold
    assert_eq!(ReprIx::from(-2), ReprIx::Val(u32::MAX - 1));
    assert_eq!(i32::try_from(5u32).map(ReprIx::from), Ok(ReprIx::Val(5)));
}

#[test]
fn ix_map_push_and_get() {
    let mut m = IxMap::new();
    assert_eq!(m.len(), 0);
    assert_eq!(m.get(0), None);
    m.push_ix(3);
    m.push_prop();
    m.push(ReprIx::Val(7));
    m.push(ReprIx::Prop);
    assert_eq!(m.len(), 4);
    assert_eq!(m.get(0), Some(3));
    assert_eq!(m.get(1), None);
    assert_eq!(m.get(2), Some(7));
    assert_eq!(m.get(3), None);
    assert_eq!(m.get(4), None);
    assert_eq!(m.iter(), vec![ReprIx::Val(3), ReprIx::Prop, ReprIx::Val(7), ReprIx::Prop]);
    assert_eq!(&*m, &[3, -1, 7, -1][..]);
    assert_eq!(m.duplicate(), m);
    let d = IxMap::default();
    assert_eq!(d, IxMap::with_capacity(10));
}

#[test]
fn ix_map_largest_index_reads_back() {
    let mut m = IxMap::new();
    m.push_ix(u32::MAX);
    assert_eq!(m.len(), 1);
    assert_eq!(m.get(0), Some(u32::MAX));
    assert_eq!(m.iter(), vec![ReprIx::Val(u32::MAX)]);
    m.push(ReprIx::Val(u32::MAX));
    m.push_prop();
    assert_eq!(m.get(1), Some(u32::MAX));
    assert_eq!(m.get(2), None);
    assert_eq!(&*m, &[u32::MAX as i64, u32::MAX as i64, -1][..]);
}

#[test]
fn ix_map_large_indices_read_back() {
    // indices whose raw entries are negative still read back as themselves
    let mut m = IxMap::new();
    m.push_ix(u32::MAX - 1);
    m.push_ix(1 << 31);
    m.push(ReprIx::Val(u32::MAX - 2));
    m.push_prop();
    assert_eq!(m.get(0), Some(u32::MAX - 1));
    assert_eq!(m.get(1), Some(1 << 31));
    assert_eq!(m.get(2), Some(u32::MAX - 2));
    assert_eq!(m.get(3), None);
    assert_eq!(
        m.iter(),
        vec![ReprIx::Val(u32::MAX - 1), ReprIx::Val(1 << 31), ReprIx::Val(u32::MAX - 2), ReprIx::Prop]
    );
}

#[test]
fn arena_push_get_free() {
    let mut a: Arena<u64, u8> = Arena::new();
    assert_eq!(a.capacity(), 0);
    assert!(a.get(0).is_none());
    let i0 = a.push(SymbolTable::new());
    let i1 = a.push(SymbolTable::new());
    let i2 = a.push_end(SymbolTable::new());
    assert_eq!((i0, i1, i2), (0, 1, 2));
    assert_eq!(a.capacity(), 3);
    assert!(a.get(1).is_some());
    assert!(a.get_mut(2).is_some());
    assert!(a.get(3).is_none());
    // freeing gives the table back once
    assert!(a.free(1).is_some());
    assert!(a.get(1).is_none());
    assert!(a.get_mut(1).is_none());
    assert!(a.free(1).is_none());
    // out of bounds frees give nothing, including at the capacity itself
    assert!(a.free(3).is_none());
    assert!(a.free(100).is_none());
    // freed slots are reused, last freed first
    assert!(a.free(0).is_some());
    assert_eq!(a.push(SymbolTable::new()), 0);
    assert_eq!(a.push(SymbolTable::new()), 1);
    assert_eq!(a.push(SymbolTable::new()), 3);
    assert_eq!(a.capacity(), 4);
    // pushing at the end never reuses a slot
    assert!(a.free(2).is_some());
    assert_eq!(a.push_end(SymbolTable::new()), 4);
    assert_eq!(a.push(SymbolTable::new()), 2);
    assert_eq!(a.capacity(), 5);
}

#[test]
fn symbol_table_starts_empty() {
    let t: SymbolTable<u64, u8> = SymbolTable::new();
    let _copy = t.clone();
}

#[test]
fn position_is_restored_after_building() {
    let mut p: Position<u8, u16> = Position::new();
    let outer = p.enter(1, 10);
    assert!(outer.curr.is_none() && outer.head.is_none());
    p.move_to(11);
    let inner = p.enter(2, 20);
    assert_eq!((inner.curr, inner.head), (Some(1), Some(11)));
    p.move_to(21);
    p.move_to(22);
    assert_eq!((p.curr, p.head), (Some(2), Some(22)));
    assert_eq!(p.restore(inner), Some(11));
    assert_eq!((p.curr, p.head), (Some(1), Some(11)));
    assert_eq!(p.restore(outer), None);
    assert!(p.curr.is_none() && p.head.is_none());
}
