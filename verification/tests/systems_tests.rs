use ecs_game::camera::midpoint;
use ecs_game::components::{Position, Sprite, FIXED_ONE};
use ecs_game::ecs::{EntityTemplate, Registry};
use ecs_game::services::{FrameInfo, InputEvent, Services};
use ecs_game::systems::{
    Animate, BeginDraw, CameraFollow, DrawSprites, DrawTerrain, EndDraw, Input, TerrainInstance,
    Time, World,
};
use ecs_game::tilemap::Tilemap;

fn simple_services(text: &str) -> Services {
    Services::new(Tilemap::parse_text_map(text).unwrap(), 0)
}

fn follower(x: i64, y: i64) -> EntityTemplate {
    EntityTemplate {
        position: Some(Position { x, y }),
        velocity: None,
        sprite: None,
        tint: None,
        camera_follow: true,
    }
}

#[test]
fn animation_wrap() {
    // one second period, four frames: a delta of 2.75 periods lands on 0.75
    let mut sprite = Sprite::new(0, 4, 1_000_000);
    sprite.update(2_750_000);
    assert_eq!(sprite.animation_time, 750_000);
    assert_eq!(sprite.animation_frame(), 3);
}

#[test]
fn animation_zero_delta_keeps_clock() {
    let mut sprite = Sprite::new(0, 2, 500);
    sprite.update(0);
    assert_eq!(sprite.animation_time, 0);
    assert_eq!(sprite.animation_frame(), 0);
}

#[test]
fn animation_clock_stays_inside_period() {
    let mut sprite = Sprite::new(0, 8, 333);
    for delta in [1, 332, 333, 334, 1000, 999_999_999] {
        sprite.update(delta);
        assert!(sprite.animation_time < 333);
        assert!(sprite.animation_frame() < 8);
    }
}

#[test]
fn time_first_tick_has_zero_delta() {
    let time = Time;
    let mut services = simple_services("1 1\n_\n");
    time.process(&mut services, 5_000);
    assert_eq!(services.delta_time, 0);
    assert_eq!(services.running_time, Some(5_000));
    time.process(&mut services, 7_500);
    assert_eq!(services.delta_time, 2_500);
    assert_eq!(services.running_time, Some(7_500));
}

#[test]
fn time_clamps_backwards_clock() {
    let time = Time;
    let mut services = simple_services("1 1\n_\n");
    time.process(&mut services, 9_000);
    time.process(&mut services, 4_000);
    assert_eq!(services.delta_time, 0);
    assert_eq!(services.running_time, Some(4_000));
}

#[test]
fn input_close_clears_running() {
    let input = Input;
    let mut services = simple_services("1 1\n_\n");
    input.process(&mut services, &vec![InputEvent::Other, InputEvent::Other]);
    assert!(services.running);
    input.process(&mut services, &vec![InputEvent::Other, InputEvent::CloseRequested]);
    assert!(!services.running);
    // the flag stays down even on an empty tick
    input.process(&mut services, &vec![]);
    assert!(!services.running);
}

#[test]
fn midpoint_rounds_down() {
    assert_eq!(midpoint(0, 5), 2);
    assert_eq!(midpoint(-5, 0), -3);
    assert_eq!(midpoint(4, 8), 6);
    assert_eq!(midpoint(i64::MAX, i64::MAX), i64::MAX);
    assert_eq!(midpoint(i64::MIN, i64::MIN), i64::MIN);
}

#[test]
fn camera_follow_midpoint_chain() {
    let sys = CameraFollow;
    let mut reg = Registry::new();
    reg.create(follower(4, 8));
    reg.create(follower(10, 0));
    let mut services = simple_services("1 1\n_\n");
    sys.process(&reg, &mut services);
    // ((0+4)/2 + 10)/2 = 6, ((0+8)/2 + 0)/2 = 2
    assert_eq!(services.camera.center_x, 6);
    assert_eq!(services.camera.center_y, 2);
}

#[test]
fn camera_follow_ignores_untagged_entities() {
    let sys = CameraFollow;
    let mut reg = Registry::new();
    reg.create(EntityTemplate {
        position: Some(Position { x: 100, y: 100 }),
        velocity: None,
        sprite: None,
        tint: None,
        camera_follow: false,
    });
    let mut services = simple_services("1 1\n_\n");
    sys.process(&reg, &mut services);
    assert_eq!(services.camera.center_x, 0);
    assert_eq!(services.camera.center_y, 0);
}

#[test]
fn animate_advances_every_sprite() {
    let sys = Animate;
    let mut reg = Registry::new();
    reg.create(EntityTemplate {
        position: None,
        velocity: None,
        sprite: Some(Sprite::new(0, 4, 1_000)),
        tint: None,
        camera_follow: false,
    });
    reg.create(EntityTemplate {
        position: None,
        velocity: None,
        sprite: Some(Sprite::new(1, 2, 600)),
        tint: None,
        camera_follow: false,
    });
    sys.process(&mut reg, 700);
    let times: Vec<u64> = reg
        .components
        .sprites
        .iter()
        .map(|s| s.as_ref().unwrap().animation_time)
        .collect();
    assert_eq!(times, vec![700, 100]);
}

#[test]
fn begin_and_end_draw_manage_frame() {
    let begin = BeginDraw;
    let end = EndDraw;
    let mut services = simple_services("1 1\n_\n");
    begin.process(&mut services, 100, 50);
    assert_eq!(services.frame, Some(FrameInfo { width: 100, height: 50 }));
    // aspect ratio is height / width in fixed point
    assert_eq!(services.camera.aspect_ratio, FIXED_ONE / 2);
    end.process(&mut services);
    assert_eq!(services.frame, None);
}

#[test]
fn terrain_instances_on_known_map() {
    let terrain = DrawTerrain::new();
    let map = Tilemap::parse_text_map("2 2\n#_\n_c\n").unwrap();
    let instances = terrain.setup_tiles(&map);
    assert_eq!(
        instances,
        vec![
            // wall at row 0, column 0: y flips to 2, offset 1 - 2
            TerrainInstance { offset_x: 0, offset_y: -1, tile: 0 },
            // breakable at row 1, column 1: y flips to 1, offset 1 - 1
            TerrainInstance { offset_x: 1, offset_y: 0, tile: 1 },
        ]
    );
}

#[test]
fn draw_terrain_clears_change_flag_and_rebuilds_once() {
    let mut terrain = DrawTerrain::new();
    let mut services = simple_services("1 2\n_#\n");
    services.frame = Some(FrameInfo { width: 10, height: 10 });
    assert!(services.tilemap_changed);
    let first = terrain.process(&mut services);
    assert!(!services.tilemap_changed);
    assert_eq!(first.unwrap().len(), 1);
    // nothing changed: no rebuild, flag stays down
    let second = terrain.process(&mut services);
    assert!(second.is_none());
    assert!(!services.tilemap_changed);
    // a change forces one rebuild
    services.tilemap_changed = true;
    let third = terrain.process(&mut services);
    assert!(third.is_some());
    assert!(!services.tilemap_changed);
}

#[test]
fn draw_sprites_reads_defaults_and_frames() {
    let draw = DrawSprites::new();
    let mut reg = Registry::new();
    reg.create(EntityTemplate {
        position: Some(Position { x: 7, y: -3 }),
        velocity: None,
        sprite: Some(Sprite::new(9, 4, 1_000)),
        tint: None,
        camera_follow: false,
    });
    let mut services = simple_services("1 1\n_\n");
    services.frame = Some(FrameInfo { width: 10, height: 10 });
    let draws = draw.process(&reg, &services);
    assert_eq!(draws.len(), 1);
    let d = &draws[0];
    assert_eq!((d.x, d.y), (7, -3));
    assert_eq!(d.texture, 9);
    assert_eq!(d.frame, 0);
    assert_eq!(d.tint.red, FIXED_ONE);
    assert_eq!(d.tint.alpha, FIXED_ONE);
}

#[test]
fn world_tick_runs_the_whole_pipeline() {
    let map = Tilemap::parse_text_map("1 2\n_#\n").unwrap();
    let mut world = World::new(map, 3);
    world.registry.create(EntityTemplate {
        position: Some(Position { x: FIXED_ONE, y: 0 }),
        velocity: None,
        sprite: Some(Sprite::new(2, 4, 1_000_000)),
        tint: None,
        camera_follow: false,
    });
    let out = world.update(0, &vec![], 100, 50);
    // first tick: zero delta, terrain built, one sprite drawn
    assert_eq!(world.services.delta_time, 0);
    assert!(!world.services.tilemap_changed);
    assert!(world.services.frame.is_none());
    assert!(world.services.running);
    assert_eq!(out.terrain.unwrap().len(), 1);
    assert_eq!(out.sprites.len(), 1);
    assert_eq!(out.sprites[0].frame, 0);
    assert_eq!(world.services.camera.aspect_ratio, FIXED_ONE / 2);

    // second tick: the elapsed time animates the sprite into frame three
    let out = world.update(2_750_000, &vec![], 100, 50);
    assert_eq!(world.services.delta_time, 2_750_000);
    assert!(out.terrain.is_none());
    assert_eq!(out.sprites[0].frame, 3);

    // a close request ends the loop after the frame completes
    let out = world.update(3_000_000, &vec![InputEvent::CloseRequested], 100, 50);
    assert!(!world.services.running);
    assert_eq!(out.sprites.len(), 1);
}
