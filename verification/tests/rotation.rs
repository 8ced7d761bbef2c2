use libdiffuzz::region::{carry_over, fill};
use libdiffuzz::{get_mem_init, Config};

#[test]
fn new_config_starts_at_zero() {
    let config = Config::new();
    assert_eq!(config.mem_init, 0);
    assert_eq!(config.alloc_extra_mem, 0);
}

#[test]
fn get_mem_init_returns_then_increments() {
    let mut config = Config::new();
    assert_eq!(get_mem_init(&mut config), 0);
    assert_eq!(get_mem_init(&mut config), 1);
    assert_eq!(get_mem_init(&mut config), 2);
    assert_eq!(config.mem_init, 3);
}

#[test]
fn get_mem_init_wraps() {
    let mut config = Config { mem_init: 255, alloc_extra_mem: 4 };
    assert_eq!(get_mem_init(&mut config), 255);
    assert_eq!(config.mem_init, 0);
    assert_eq!(get_mem_init(&mut config), 0);
    assert_eq!(config.alloc_extra_mem, 4);
}

#[test]
fn successive_fill_bytes_differ_over_a_whole_turn() {
    let mut config = Config::new();
    let mut previous = get_mem_init(&mut config);
    for _ in 0..600 {
        let next = get_mem_init(&mut config);
        assert_ne!(next, previous);
        assert_eq!(next, previous.wrapping_add(1));
        previous = next;
    }
}

#[test]
fn rotation_comes_back_after_256_steps() {
    let mut config = Config { mem_init: 77, alloc_extra_mem: 0 };
    for step in 1..256u32 {
        get_mem_init(&mut config);
        assert_ne!(config.mem_init, 77, "step {}", step);
    }
    get_mem_init(&mut config);
    assert_eq!(config.mem_init, 77);
}

#[test]
fn fill_sets_only_the_range() {
    let mut bytes = vec![1u8, 2, 3, 4, 5, 6];
    fill(&mut bytes, 2, 5, 0xEE);
    assert_eq!(bytes, vec![1, 2, 0xEE, 0xEE, 0xEE, 6]);
    fill(&mut bytes, 3, 3, 0);
    assert_eq!(bytes, vec![1, 2, 0xEE, 0xEE, 0xEE, 6]);
    fill(&mut bytes, 0, 6, 9);
    assert_eq!(bytes, vec![9; 6]);
}

#[test]
fn carry_over_copies_only_the_front() {
    let mut dst = vec![0u8; 5];
    let src = vec![10u8, 11, 12, 13];
    carry_over(&mut dst, &src, 3);
    assert_eq!(dst, vec![10, 11, 12, 0, 0]);
    carry_over(&mut dst, &src, 0);
    assert_eq!(dst, vec![10, 11, 12, 0, 0]);
}
