use empire::game::exp::{level_from_xp, lvl_xp, xp_from_level, xp_lvl};

#[test]
fn test_level_from_xp() {
    for level in 1..100 {
        let xp = xp_from_level(level);
        let new_level = level_from_xp(xp);
        assert_eq!(level, new_level);
    }
}

#[test]
fn test_xp_from_level() {
    for level in 1..100 {
        let xp = lvl_xp(level);
        let new_level = xp_lvl(xp);
        assert_eq!(level, new_level);
    }
}

#[test]
fn xp_from_level_values() {
    assert_eq!(xp_from_level(0), 0);
    assert_eq!(xp_from_level(1), 16);
    assert_eq!(xp_from_level(10), 1600);
    assert_eq!(xp_from_level(-3), 144);
    // saturates where the square no longer fits
    assert_eq!(xp_from_level(20000), i32::MAX);
}

#[test]
fn level_from_xp_values() {
    assert_eq!(level_from_xp(0), 0);
    assert_eq!(level_from_xp(-5), 0);
    assert_eq!(level_from_xp(1), 1);
    assert_eq!(level_from_xp(16), 1);
    assert_eq!(level_from_xp(17), 2);
    assert_eq!(level_from_xp(64), 2);
    assert_eq!(level_from_xp(65), 3);
    assert_eq!(level_from_xp(i32::MAX), 11586);
}

#[test]
fn lvl_xp_values() {
    assert_eq!(lvl_xp(0), 0);
    assert_eq!(lvl_xp(1), 0);
    assert_eq!(lvl_xp(2), 50);
    assert_eq!(lvl_xp(10), 2250);
}

#[test]
fn xp_lvl_values() {
    assert_eq!(xp_lvl(-25), 0);
    assert_eq!(xp_lvl(0), 1);
    assert_eq!(xp_lvl(50), 2);
    assert_eq!(xp_lvl(75), 2);
    assert_eq!(xp_lvl(76), 3);
    assert_eq!(xp_lvl(2250), 10);
}
