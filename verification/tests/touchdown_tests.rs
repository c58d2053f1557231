use rust_rocket_sim::touchdown::{has_touched_down, Quat, RocketPose, Vec3};

const S: i32 = 1 << 30;

fn pose(z_um: i32, q: Quat) -> RocketPose {
    RocketPose {
        position: Vec3 { x: 3_000_000, y: -2_000_000, z: z_um },
        attitude: q,
        com_to_ground: Vec3 { x: 0, y: 0, z: -1_500_000 },
    }
}

const UPRIGHT: Quat = Quat { w: S, x: 0, y: 0, z: 0 };

#[test]
fn upright_on_the_pad() {
    assert!(has_touched_down(&pose(1_500_000, UPRIGHT)));
    assert!(has_touched_down(&pose(1_501_000, UPRIGHT)));
    assert!(!has_touched_down(&pose(1_501_001, UPRIGHT)));
    assert!(!has_touched_down(&pose(50_000_000, UPRIGHT)));
}

#[test]
fn scale_of_quaternion_does_not_matter() {
    let q = Quat { w: 3, x: 0, y: 0, z: 0 };
    assert!(has_touched_down(&pose(1_501_000, q)));
    assert!(!has_touched_down(&pose(1_501_001, q)));
}

#[test]
fn upside_down_bottom_is_above() {
    // 180 degrees about x: the contact point is 1.5 m above the centre of mass
    let q = Quat { w: 0, x: S, y: 0, z: 0 };
    assert!(!has_touched_down(&pose(0, q)));
    assert!(has_touched_down(&pose(-1_499_000, q)));
    assert!(!has_touched_down(&pose(-1_498_999, q)));
}

#[test]
fn tilted_ninety_degrees() {
    // 90 degrees about x (w = x = 1/sqrt 2): the body z axis lies horizontal
    let q = Quat { w: 1, x: 1, y: 0, z: 0 };
    assert!(has_touched_down(&pose(1_000, q)));
    assert!(!has_touched_down(&pose(1_001, q)));
}

#[test]
fn matches_float_rotation() {
    // 60 degrees about y: cos 60 = 0.5, so the bottom is 0.75 m below the centre of mass
    let half = 60f64.to_radians() / 2.0;
    let q = Quat { w: (half.cos() * S as f64) as i32, x: 0, y: (half.sin() * S as f64) as i32, z: 0 };
    assert!(has_touched_down(&pose(750_000 + 999, q)));
    assert!(!has_touched_down(&pose(750_000 + 1_001, q)));
}
