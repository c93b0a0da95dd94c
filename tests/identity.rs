use microui::pool::PoolItem;
use microui::{Context, FontId, Id, Pool, TextMetrics};

struct Mono;

impl TextMetrics for Mono {
    fn char_width(&self, _font: FontId, _c: char) -> usize {
        8
    }

    fn font_height(&self, _font: FontId) -> usize {
        10
    }
}

#[test]
fn fnv1a_known_vectors() {
    let mut id = Id::start();
    id.hash(b"a");
    assert_eq!(id, Id(0xe40c292c));
    let mut id = Id::start();
    id.hash(b"foobar");
    assert_eq!(id, Id(0xbf9cf968));
    let mut id = Id::start();
    id.hash(b"");
    assert_eq!(id, Id(2166136261));
}

#[test]
fn identify_is_deterministic() {
    let mut ctx = Context::new(Mono);
    let a = ctx.get_id_from_str("button");
    let b = ctx.get_id_from_str("button");
    assert_eq!(a, b);
    assert_eq!(ctx.last_id, Some(a));
    let c = ctx.get_id_from_str("other");
    assert_ne!(a, c);
}

#[test]
fn identify_depends_on_scope() {
    let mut ctx = Context::new(Mono);
    let outer = ctx.get_id_from_str("x");
    ctx.push_id_from_str("scope");
    let inner = ctx.get_id_from_str("x");
    ctx.pop_id();
    assert_ne!(outer, inner);
    let mut seed = Id::start();
    seed.hash(b"scope");
    let mut expected = seed;
    expected.hash(b"x");
    assert_eq!(inner, expected);
    assert_eq!(ctx.get_id_from_str("x"), outer);
}

#[test]
fn integer_and_key_identifiers_hash_little_endian_bytes() {
    let mut ctx = Context::new(Mono);
    let a = ctx.get_id_u32(0x04030201);
    let mut expected = Id::start();
    expected.hash(&[1, 2, 3, 4]);
    assert_eq!(a, expected);
    let k = ctx.get_id_from_ptr(0x0807060504030201);
    let mut expected = Id::start();
    expected.hash(&[1, 2, 3, 4, 5, 6, 7, 8]);
    assert_eq!(k, expected);
    ctx.push_id_from_ptr(7);
    assert_eq!(ctx.id_stack.len(), 1);
}

#[test]
fn pool_get_finds_first_holder() {
    let mut pool: Pool<4> = Pool::new();
    let a = pool.allocate(Id(10), 1);
    let b = pool.allocate(Id(20), 1);
    assert_eq!(a, 0);
    assert_eq!(b, 1);
    assert_eq!(pool.get(Id(10)), Some(0));
    assert_eq!(pool.get(Id(20)), Some(1));
    assert_eq!(pool.get(Id(30)), None);
}

#[test]
fn pool_exhausted_within_one_frame() {
    let mut pool: Pool<2> = Pool::new();
    assert!(pool.has_free_slot(1));
    pool.allocate(Id(1), 1);
    assert!(pool.has_free_slot(1));
    pool.allocate(Id(2), 1);
    assert!(!pool.has_free_slot(1));
    assert!(pool.has_free_slot(2));
}

#[test]
fn pool_evicts_least_recently_touched() {
    let mut pool: Pool<3> = Pool::new();
    pool.allocate(Id(1), 1);
    pool.allocate(Id(2), 2);
    pool.allocate(Id(3), 3);
    pool.update(0, 4);
    let k = pool.allocate(Id(4), 5);
    assert_eq!(k, 1);
    assert_eq!(pool.get(Id(2)), None);
    assert_eq!(pool.get(Id(1)), Some(0));
    assert_eq!(pool.get(Id(4)), Some(1));
}

#[test]
fn pool_never_evicts_slot_touched_this_frame() {
    let mut pool: Pool<2> = Pool::new();
    pool.allocate(Id(1), 1);
    pool.allocate(Id(2), 1);
    pool.update(0, 2);
    let k = pool.allocate(Id(3), 2);
    assert_eq!(k, 1);
    assert_eq!(pool.get(Id(1)), Some(0));
}

#[test]
fn pool_reset_forgets_slot() {
    let mut pool: Pool<2> = Pool::default();
    let k = pool.allocate(Id(5), 3);
    pool.reset(k);
    assert_eq!(pool.get(Id(5)), None);
    assert!(pool.has_free_slot(1));
    let item = PoolItem::default();
    assert_eq!(item.last_update, 0);
}
