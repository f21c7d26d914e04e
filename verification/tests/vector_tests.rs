use gm_game::bounds::{sort_by_lower_x, Bounds};
use gm_game::entity::Entity;
use gm_game::input::BitMask;
use gm_game::vector::Vector2;

#[test]
fn vector_arithmetic() {
    let a = Vector2::from(3, -4);
    let b = Vector2::from(10, 20);
    assert_eq!(a.add(b), Vector2::from(13, 16));
    assert_eq!(a.sub(b), Vector2::from(-7, -24));
    assert_eq!(a.neg(), Vector2::from(-3, 4));
    assert_eq!(Vector2::new(), Vector2::from(0, 0));
    assert_eq!(Vector2::default(), Vector2::new());
    let mut c = a;
    c.add_assign(b);
    assert_eq!(c, Vector2::from(13, 16));
    c.sub_assign(b);
    assert_eq!(c, a);
}

#[test]
fn vector_arithmetic_wraps() {
    let a = Vector2::from(i32::MAX, i32::MIN);
    assert_eq!(a.add(Vector2::from(1, -1)), Vector2::from(i32::MIN, i32::MAX));
    assert_eq!(a.sub(Vector2::from(-1, 1)), Vector2::from(i32::MIN, i32::MAX));
    assert_eq!(a.neg(), Vector2::from(-i32::MAX, i32::MIN));
}

#[test]
fn entity_handles() {
    assert!(Entity::new().is_null());
    assert!(Entity::from(0, 9).is_null());
    assert!(!Entity::from(1, 0).is_null());
    let e = Entity::from(7, 3);
    assert_eq!(e.id(), 7);
    assert_eq!(e.index(), 7usize);
    assert_eq!(e.generation(), 3);
    assert_eq!(Entity::from_index(65535), Entity::from(65535, 0));
    assert_eq!(Entity::from_unknown(12), Entity::new());
    assert_eq!(Entity::default(), Entity::new());
}

fn boxed(index: u16, x: i32, y: i32, w: i32, h: i32) -> Bounds {
    Bounds::from(
        Entity::from(index, 0),
        3,
        Vector2::from(x, y),
        Vector2::from(99, 99),
        Vector2::from(w, h),
    )
}

#[test]
fn bounds_are_position_plus_and_minus_half_extent() {
    let b = boxed(1, 10, -20, 3, 4);
    assert_eq!(b.lower, Vector2::from(7, -24));
    assert_eq!(b.upper, Vector2::from(13, -16));
    assert_eq!(b.btype, 3);
    assert_eq!(b.entity, Entity::from(1, 0));
}

#[test]
fn boxes_apart_on_one_axis_do_not_overlap() {
    let a = boxed(1, 0, 0, 10, 10);
    assert!(!a.overlap(&boxed(2, 21, 0, 10, 10)));
    assert!(!a.overlap(&boxed(2, -21, 0, 10, 10)));
    assert!(!a.overlap(&boxed(2, 0, 21, 10, 10)));
    assert!(!a.overlap(&boxed(2, 0, -21, 10, 10)));
}

#[test]
fn boxes_that_touch_overlap() {
    let a = boxed(1, 0, 0, 10, 10);
    assert!(a.overlap(&boxed(2, 20, 0, 10, 10)));
    assert!(a.overlap(&boxed(2, 20, 20, 10, 10)));
    assert!(a.overlap(&boxed(2, 0, 0, 1, 1)));
    assert!(boxed(2, 0, 0, 1, 1).overlap(&a));
    assert!(a.overlap(&a));
}

#[test]
fn less_than_compares_lower_x() {
    let a = boxed(1, 0, 0, 10, 10);
    let b = boxed(2, 5, -100, 10, 10);
    assert!(a.less_than(&b));
    assert!(!b.less_than(&a));
    assert!(!a.less_than(&a));
}

#[test]
fn sort_is_ascending_and_stable() {
    let mut list = vec![
        boxed(1, 50, 0, 1, 1),
        boxed(2, 10, 0, 1, 1),
        boxed(3, 50, 5, 1, 1),
        boxed(4, -30, 0, 1, 1),
        boxed(5, 10, 7, 1, 1),
        boxed(6, 50, 9, 1, 1),
    ];
    sort_by_lower_x(&mut list);
    let order: Vec<u16> = list.iter().map(|b| b.entity.index).collect();
    assert_eq!(order, vec![4, 2, 5, 1, 3, 6]);
}

#[test]
fn sort_agrees_with_a_stable_sort() {
    let mut state: u32 = 99;
    let mut list: Vec<Bounds> = Vec::new();
    for k in 0..300u16 {
        state = state.wrapping_mul(1103515245).wrapping_add(12345);
        list.push(boxed(k, ((state >> 16) % 40) as i32 - 20, 0, 2, 2));
    }
    let mut expected = list.clone();
    expected.sort_by_key(|b| b.lower.x);
    sort_by_lower_x(&mut list);
    assert_eq!(list, expected);
    let mut empty: Vec<Bounds> = Vec::new();
    sort_by_lower_x(&mut empty);
    assert!(empty.is_empty());
}

#[test]
fn bit_masks_cover_their_run() {
    assert_eq!(BitMask::new(), BitMask { mask: 0, shift: 0 });
    assert_eq!(BitMask::from(16, 17), BitMask { mask: 1 << 16, shift: 16 });
    assert_eq!(BitMask::from(0, 16), BitMask { mask: 0xffff, shift: 0 });
    assert_eq!(BitMask::const_from(55, 56), BitMask { mask: 1 << 55, shift: 55 });
    assert_eq!(BitMask::const_from(18, 19), BitMask::from(18, 19));
    // a run never reaches bit 63
    assert_eq!(BitMask::from(60, 64), BitMask { mask: 0x7 << 60, shift: 60 });
    assert_eq!(BitMask::from(60, 200), BitMask::from(60, 64));
    // an empty run
    assert_eq!(BitMask::from(9, 9), BitMask { mask: 0, shift: 9 });
    assert_eq!(BitMask::from(12, 3), BitMask { mask: 0, shift: 12 });
}

#[test]
fn bit_masks_decode_and_encode() {
    let m = BitMask::from(4, 12);
    assert_eq!(m.decode(0xabcd), 0xbc);
    assert_eq!(m.encode(0xbc), 0xbc0);
    assert_eq!(m.encode(0x1ff), 0xff0);
    assert_eq!(m.decode(m.encode(0x5a)), 0x5a);
    let primary = BitMask::from(18, 19);
    assert_eq!(primary.decode(1 << 18), 1);
    assert_eq!(primary.decode(!(1i64 << 18)), 0);
}
