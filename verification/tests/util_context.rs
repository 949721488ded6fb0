//! Utilities, the asset store and the shared context.

use rust_pixel::asset::AssetManager;
use rust_pixel::context::Context;
use rust_pixel::util::{rand_in_range, Rand};

#[test]
fn rand_is_deterministic_for_a_seed() {
    let mut a = Rand::new();
    let mut b = Rand::new();
    let xs: Vec<u32> = (0..5).map(|_| a.rand()).collect();
    let ys: Vec<u32> = (0..5).map(|_| b.rand()).collect();
    assert_eq!(xs, ys);
    let mut c = Rand::new();
    c.srand(42);
    let first = c.rand();
    let second = c.rand();
    c.srand(42);
    assert_eq!(c.rand(), first);
    assert_eq!(c.rand(), second);
}

#[test]
fn rand_in_range_stays_below_the_bound() {
    for n in [1u32, 2, 7, 60] {
        for _ in 0..50 {
            assert!(rand_in_range(n) < n);
        }
    }
    assert_eq!(rand_in_range(1), 0);
}

#[test]
fn asset_store_replaces_bytes_per_url() {
    let mut am = AssetManager::new();
    assert!(am.get_data("a.png").is_none());
    am.set_data("a.png", vec![1, 2, 3]);
    am.set_data("b.png", vec![9]);
    assert_eq!(am.get_data("a.png").unwrap(), &vec![1, 2, 3]);
    am.set_data("a.png", vec![4]);
    assert_eq!(am.get_data("a.png").unwrap(), &vec![4]);
    assert_eq!(am.get_data("b.png").unwrap(), &vec![9]);
    assert_eq!(am.assets.len(), 2);
}

#[test]
fn fresh_context_starts_at_stage_zero() {
    let ctx = Context::new("demo");
    assert_eq!(ctx.stage, 0);
    assert_eq!(ctx.state, 0);
    assert_eq!(ctx.input_events.len(), 0);
    assert_eq!(ctx.game_name.as_str(), "demo");
    assert_eq!(ctx.bus.events.len(), 0);
    assert_eq!(ctx.bus.timers.len(), 0);
}
