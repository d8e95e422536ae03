use ecs_game::components::{Position, Sprite, Tint, Velocity};
use ecs_game::ecs::{Aspect, EntityTemplate, KindSet, Registry};

fn kinds(position: bool, velocity: bool, sprite: bool, tint: bool, camera_follow: bool) -> KindSet {
    KindSet { position, velocity, sprite, tint, camera_follow }
}

fn position_template(x: i64, y: i64) -> EntityTemplate {
    EntityTemplate {
        position: Some(Position { x, y }),
        velocity: None,
        sprite: None,
        tint: None,
        camera_follow: false,
    }
}

#[test]
fn create_attaches_exactly_the_template() {
    let mut reg = Registry::new();
    let e = reg.create(EntityTemplate {
        position: Some(Position { x: 1, y: 2 }),
        velocity: Some(Velocity { dx: 3, dy: 4 }),
        sprite: Some(Sprite::new(7, 4, 1_000_000)),
        tint: Some(Tint::white()),
        camera_follow: true,
    });
    assert!(reg.is_alive(e));
    assert_eq!(reg.position(e), Some(Position { x: 1, y: 2 }));
    assert_eq!(reg.sprite(e).unwrap().texture, 7);
    assert_eq!(reg.tint(e), Some(Tint::white()));
    let bare = reg.create(EntityTemplate::empty());
    assert_eq!(reg.position(bare), None);
    assert_eq!(reg.sprite(bare), None);
    assert_eq!(reg.tint(bare), None);
}

#[test]
fn destroy_removes_entity_and_components() {
    let mut reg = Registry::new();
    let a = reg.create(position_template(1, 1));
    let b = reg.create(position_template(2, 2));
    assert!(reg.destroy(a));
    assert!(!reg.is_alive(a));
    assert!(reg.is_alive(b));
    assert_eq!(reg.position(a), None);
    assert_eq!(reg.position(b), Some(Position { x: 2, y: 2 }));
    // destroying again changes nothing and reports it
    assert!(!reg.destroy(a));
}

#[test]
fn recycled_slot_does_not_alias_old_handle() {
    let mut reg = Registry::new();
    let a = reg.create(position_template(1, 1));
    assert!(reg.destroy(a));
    let b = reg.create(position_template(9, 9));
    // the slot is reused under a fresh generation
    assert_eq!(a.index, b.index);
    assert_ne!(a.generation, b.generation);
    assert!(!reg.is_alive(a));
    assert!(reg.is_alive(b));
    assert_eq!(reg.position(a), None);
    assert_eq!(reg.position(b), Some(Position { x: 9, y: 9 }));
}

#[test]
fn iter_matching_filters_and_keeps_insertion_order() {
    let mut reg = Registry::new();
    let a = reg.create(position_template(1, 0));
    let _no_pos = reg.create(EntityTemplate {
        position: None,
        velocity: Some(Velocity { dx: 0, dy: 0 }),
        sprite: None,
        tint: None,
        camera_follow: false,
    });
    let b = reg.create(position_template(2, 0));
    let c = reg.create(position_template(3, 0));
    let ents = reg.iter_matching(Aspect::with_all(kinds(true, false, false, false, false)));
    assert_eq!(ents, vec![a, b, c]);
    // destroying one removes it from the iteration order
    assert!(reg.destroy(b));
    let ents = reg.iter_matching(Aspect::with_all(kinds(true, false, false, false, false)));
    assert_eq!(ents, vec![a, c]);
}

#[test]
fn aspect_any_and_none() {
    let mut reg = Registry::new();
    let tagged = reg.create(EntityTemplate {
        position: Some(Position { x: 0, y: 0 }),
        velocity: None,
        sprite: None,
        tint: None,
        camera_follow: true,
    });
    let plain = reg.create(position_template(0, 0));
    let with_velocity = reg.create(EntityTemplate {
        position: Some(Position { x: 0, y: 0 }),
        velocity: Some(Velocity { dx: 1, dy: 0 }),
        sprite: None,
        tint: None,
        camera_follow: false,
    });
    let any_aspect = Aspect {
        all: kinds(true, false, false, false, false),
        any: kinds(false, true, false, false, true),
        none: kinds(false, false, false, false, false),
    };
    assert_eq!(reg.iter_matching(any_aspect), vec![tagged, with_velocity]);
    let none_aspect = Aspect {
        all: kinds(true, false, false, false, false),
        any: kinds(false, false, false, false, false),
        none: kinds(false, false, false, false, true),
    };
    assert_eq!(reg.iter_matching(none_aspect), vec![plain, with_velocity]);
}
