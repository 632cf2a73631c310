use rtiow::trace::{after_hit_test, after_scatter, Step, MAX_DEPTH};

#[test]
fn depth_limit_is_fifty() {
    assert_eq!(MAX_DEPTH, 50);
}

#[test]
fn miss_is_sky_at_every_depth() {
    for depth in [0u32, 1, 49, 50, 51, u32::MAX] {
        assert_eq!(after_hit_test(false, depth, MAX_DEPTH), Step::Sky);
    }
    assert_eq!(after_hit_test(false, 0, 0), Step::Sky);
}

#[test]
fn hit_below_limit_scatters() {
    assert_eq!(after_hit_test(true, 0, MAX_DEPTH), Step::Scatter);
    assert_eq!(after_hit_test(true, 49, MAX_DEPTH), Step::Scatter);
}

#[test]
fn hit_at_limit_is_absorbed() {
    assert_eq!(after_hit_test(true, 50, MAX_DEPTH), Step::Absorbed);
    assert_eq!(after_hit_test(true, 51, MAX_DEPTH), Step::Absorbed);
    assert_eq!(after_hit_test(true, 0, 0), Step::Absorbed);
}

#[test]
fn scattered_ray_goes_one_deeper() {
    assert_eq!(after_scatter(true, 0, MAX_DEPTH), Some(1));
    assert_eq!(after_scatter(true, 49, MAX_DEPTH), Some(50));
}

#[test]
fn absorbed_by_material_ends_path() {
    assert_eq!(after_scatter(false, 0, MAX_DEPTH), None);
    assert_eq!(after_scatter(false, 49, MAX_DEPTH), None);
}

#[test]
fn path_is_cut_after_max_depth_bounces() {
    let mut depth = 0u32;
    let mut bounces = 0u32;
    while after_hit_test(true, depth, MAX_DEPTH) == Step::Scatter {
        depth = after_scatter(true, depth, MAX_DEPTH).unwrap();
        bounces += 1;
    }
    assert_eq!(bounces, MAX_DEPTH);
    assert_eq!(after_hit_test(true, depth, MAX_DEPTH), Step::Absorbed);
}
