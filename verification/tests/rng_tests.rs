use gauge_battle::rng::SimpleRng;
use gauge_battle::run_sim;

#[test]
fn rng_is_deterministic() {
    let mut a = SimpleRng::new(42);
    let mut b = SimpleRng::new(42);
    for _ in 0..100 {
        assert_eq!(a.next_u32(), b.next_u32());
    }
}

#[test]
fn rng_new_folds_the_mask_into_the_seed() {
    assert_eq!(SimpleRng::new(0).state, 0x9E37_79B9_7F4A_7C15);
    assert_eq!(SimpleRng::new(0x9E37_79B9_7F4A_7C15).state, 0);
}

#[test]
fn rng_first_draws_for_seed_42() {
    let mut rng = SimpleRng::new(42);
    let draws: Vec<u32> = (0..5).map(|_| rng.next_u32()).collect();
    assert_eq!(draws, vec![2522317329, 142116349, 2822304379, 1544901621, 3895587319]);
}

#[test]
fn rng_first_draws_for_seed_0() {
    let mut rng = SimpleRng::new(0);
    assert_eq!(rng.next_u32(), 417690274);
    assert_eq!(rng.next_u32(), 3905518440);
    assert_eq!(rng.next_u32(), 3649021175);
}

#[test]
fn range_with_at_most_one_choice_costs_no_draw() {
    let mut rng = SimpleRng::new(7);
    let before = rng.state;
    assert_eq!(rng.range_usize(0), 0);
    assert_eq!(rng.range_usize(1), 0);
    assert_eq!(rng.state, before);
}

#[test]
fn range_is_the_draw_modulo_the_bound() {
    let mut rng = SimpleRng::new(42);
    assert_eq!(rng.range_usize(10), (2522317329u32 % 10) as usize);
    assert_eq!(rng.range_usize(7), (142116349u32 % 7) as usize);
    for bound in 2..50usize {
        assert!(rng.range_usize(bound) < bound);
    }
}

#[test]
fn run_sim_with_no_steps_returns_the_seed() {
    assert_eq!(run_sim(12345, 0), 12345);
}

#[test]
fn run_sim_takes_congruential_steps() {
    assert_eq!(run_sim(0, 1), 1_013_904_223);
    let one = 7u32.wrapping_mul(1_664_525).wrapping_add(1_013_904_223);
    let two = one.wrapping_mul(1_664_525).wrapping_add(1_013_904_223);
    assert_eq!(run_sim(7, 1), one);
    assert_eq!(run_sim(7, 2), two);
    assert_eq!(run_sim(one, 1), two);
}
