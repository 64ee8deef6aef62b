use tactical_core::{
    bullet_speeds, gun_color, gun_offsets, least_fired_targets, min_shots, next_track_index,
    track_index_after_loss, turret_assignment, ObjectClass,
};

#[test]
fn weapon_tables() {
    assert_eq!(bullet_speeds(ObjectClass::Fighter, 0), 1000);
    assert_eq!(bullet_speeds(ObjectClass::Frigate, 0), 4000);
    assert_eq!(bullet_speeds(ObjectClass::Frigate, 2), 1000);
    assert_eq!(bullet_speeds(ObjectClass::Frigate, 3), 0);
    assert_eq!(bullet_speeds(ObjectClass::Cruiser, 1), 2000);
    assert_eq!(bullet_speeds(ObjectClass::Missile, 0), 3000);
    assert_eq!(bullet_speeds(ObjectClass::Torpedo, 0), 0);
    assert_eq!(gun_offsets(ObjectClass::Frigate, 0), (-40, 0));
    assert_eq!(gun_offsets(ObjectClass::Frigate, 1), (0, -30));
    assert_eq!(gun_offsets(ObjectClass::Frigate, 2), (0, 30));
    assert_eq!(gun_offsets(ObjectClass::Fighter, 0), (0, 0));
    assert_eq!(gun_color(0), 0x00ffff);
    assert_eq!(gun_color(2), 0xff0000);
    assert_eq!(gun_color(9), 0xffffff);
}

#[test]
fn least_fired_selection() {
    let shots = [3u32, 1, 4, 1, 5];
    assert_eq!(min_shots(&shots), 1);
    assert_eq!(least_fired_targets(&shots), vec![1, 3]);
    assert_eq!(least_fired_targets(&[0, 0, 0]), vec![0, 1, 2]);
    assert_eq!(least_fired_targets(&[7]), vec![0]);
}

#[test]
fn turrets_share_out_candidates() {
    let c = [4usize, 9];
    assert_eq!(turret_assignment(&c, 0), 4);
    assert_eq!(turret_assignment(&c, 1), 9);
    assert_eq!(turret_assignment(&c, 3), 9);
}

#[test]
fn track_cycling() {
    assert_eq!(next_track_index(0, 3), Some(1));
    assert_eq!(next_track_index(2, 3), Some(0));
    assert_eq!(next_track_index(0, 0), None);
    assert_eq!(track_index_after_loss(1, 2), Some(1));
    assert_eq!(track_index_after_loss(2, 2), Some(0));
    assert_eq!(track_index_after_loss(0, 0), None);
    let mut i = 1usize;
    for _ in 0..4 {
        i = next_track_index(i, 4).unwrap();
    }
    assert_eq!(i, 1);
}
