use vstd::prelude::*;

use crate::camera::{midpoint, spec_midpoint, Camera};
use crate::components::{spec_animated, spec_animation_frame, TextureId, Tint, FIXED_ONE};
use crate::ecs::{
    aspect_matches, matching_entities, no_kinds, Aspect, Entity, KindSet, Registry,
};
use crate::services::{FrameInfo, InputEvent, Services};
use crate::tilemap::{Tile, Tilemap};

verus! {

/// The frame delta: zero on the very first tick, zero again if the clock
/// ever reads earlier than the previous tick, else the elapsed time.
pub open spec fn spec_delta(prev: Option<u64>, now: u64) -> u64 {
    match prev {
        Some(p) => if now >= p {
            (now - p) as u64
        } else {
            0
        },
        None => 0,
    }
}

/// Writes the frame clock: the delta since the previous tick, clamped to
/// zero against clock glitches, and the new running time.
pub struct Time;

impl Time {
    pub fn process(&self, services: &mut Services, now_micros: u64)
        ensures
            final(services).delta_time == spec_delta(old(services).running_time, now_micros),
            final(services).running_time == Some(now_micros),
            final(services).running == old(services).running,
            final(services).tilemap_changed == old(services).tilemap_changed,
            final(services).tilemap == old(services).tilemap,
            final(services).tileset == old(services).tileset,
            final(services).frame == old(services).frame,
            final(services).camera == old(services).camera,
    {
        let delta: u64 = match services.running_time {
            Some(prev) => if now_micros >= prev {
                now_micros - prev
            } else {
                0
            },
            None => 0,
        };
        services.delta_time = delta;
        services.running_time = Some(now_micros);
    }
}

/// Whether the window asked to close somewhere in this tick's events.
pub open spec fn has_close(events: Seq<InputEvent>) -> bool {
    exists|i: int| 0 <= i < events.len() && events[i] is CloseRequested
}

/// Drains the tick's windowing events: a close request clears the running
/// flag; every other event is reserved.
pub struct Input;

impl Input {
    pub fn process(&self, services: &mut Services, events: &Vec<InputEvent>)
        ensures
            final(services).running == (old(services).running && !has_close(events@)),
            final(services).delta_time == old(services).delta_time,
            final(services).running_time == old(services).running_time,
            final(services).tilemap_changed == old(services).tilemap_changed,
            final(services).tilemap == old(services).tilemap,
            final(services).tileset == old(services).tileset,
            final(services).frame == old(services).frame,
            final(services).camera == old(services).camera,
    {
        let n = events.len();
        let mut i: usize = 0;
        while i < n
            invariant
                0 <= i <= n,
                n == events@.len(),
                services.running == (old(services).running && !has_close(events@.take(i as int))),
                services.delta_time == old(services).delta_time,
                services.running_time == old(services).running_time,
                services.tilemap_changed == old(services).tilemap_changed,
                services.tilemap == old(services).tilemap,
                services.tileset == old(services).tileset,
                services.frame == old(services).frame,
                services.camera == old(services).camera,
            decreases n - i,
        {
            match events[i] {
                InputEvent::CloseRequested => {
                    services.running = false;
                },
                InputEvent::Other => {},
            }
            proof {
                assert(events@.take(i + 1).drop_last() =~= events@.take(i as int));
                assert(events@.take(i + 1).last() == events@[i as int]);
                assert(has_close(events@.take(i + 1)) == (has_close(events@.take(i as int))
                    || events@[i as int] is CloseRequested)) by {
                    let cur = events@.take(i + 1);
                    let pre = events@.take(i as int);
                    if has_close(pre) {
                        let w = choose|j: int| 0 <= j < pre.len() && pre[j] is CloseRequested;
                        assert(cur[w] is CloseRequested);
                    }
                    if events@[i as int] is CloseRequested {
                        assert(cur[i as int] is CloseRequested);
                    }
                    if has_close(cur) {
                        let w = choose|j: int| 0 <= j < cur.len() && cur[j] is CloseRequested;
                        if w < i {
                            assert(pre[w] is CloseRequested);
                        }
                    }
                }
            }
            i = i + 1;
        }
        proof {
            assert(events@.take(n as int) =~= events@);
        }
    }
}

/// The aspect of the camera-blending pass: entities that carry both a
/// position and the camera-follow marker.
pub open spec fn spec_camera_follow_aspect() -> Aspect {
    Aspect {
        all: KindSet {
            position: true,
            velocity: false,
            sprite: false,
            tint: false,
            camera_follow: true,
        },
        any: no_kinds(),
        none: no_kinds(),
    }
}

/// The camera center after blending toward each follower in order: each
/// step moves the center to the midpoint of itself and the follower's
/// position.
pub open spec fn follow_fold(r: Registry, cx: i64, cy: i64, ents: Seq<Entity>) -> (i64, i64)
    decreases ents.len(),
{
    if ents.len() == 0 {
        (cx, cy)
    } else {
        let prev = follow_fold(r, cx, cy, ents.drop_last());
        match r.components.positions@[ents.last().index as int] {
            Some(p) => (spec_midpoint(prev.0, p.x) as i64, spec_midpoint(prev.1, p.y) as i64),
            None => prev,
        }
    }
}

/// Blends the camera toward every entity that asks to be followed, in
/// registry insertion order.
pub struct CameraFollow;

impl CameraFollow {
    pub fn aspect() -> (r: Aspect)
        ensures
            r == spec_camera_follow_aspect(),
    {
        Aspect::with_all(
            KindSet {
                position: true,
                velocity: false,
                sprite: false,
                tint: false,
                camera_follow: true,
            },
        )
    }

    pub fn process(&self, registry: &Registry, services: &mut Services)
        requires
            registry.wf(),
        ensures
            ({
                let folded = follow_fold(
                    *registry,
                    old(services).camera.center_x,
                    old(services).camera.center_y,
                    matching_entities(*registry, spec_camera_follow_aspect()),
                );
                final(services).camera == (Camera {
                    center_x: folded.0,
                    center_y: folded.1,
                    ..old(services).camera
                })
            }),
            final(services).delta_time == old(services).delta_time,
            final(services).running_time == old(services).running_time,
            final(services).running == old(services).running,
            final(services).tilemap_changed == old(services).tilemap_changed,
            final(services).tilemap == old(services).tilemap,
            final(services).tileset == old(services).tileset,
            final(services).frame == old(services).frame,
    {
        let ents = registry.iter_matching(Self::aspect());
        let ghost all = ents@;
        let n = ents.len();
        let mut cx = services.camera.center_x;
        let mut cy = services.camera.center_y;
        let mut i: usize = 0;
        while i < n
            invariant
                0 <= i <= n,
                registry.wf(),
                n == all.len(),
                ents@ == all,
                all == matching_entities(*registry, spec_camera_follow_aspect()),
                forall|k: int|
                    0 <= k < all.len() ==> registry.live(#[trigger] all[k]) && aspect_matches(
                        spec_camera_follow_aspect(),
                        registry.kinds_at(all[k].index as int),
                    ),
                (cx, cy) == follow_fold(
                    *registry,
                    old(services).camera.center_x,
                    old(services).camera.center_y,
                    all.take(i as int),
                ),
            decreases n - i,
        {
            let e = ents[i];
            let pos = match registry.components.positions[e.index] {
                Some(p) => p,
                None => {
                    proof {
                        assert(aspect_matches(
                            spec_camera_follow_aspect(),
                            registry.kinds_at(e.index as int),
                        ));
                        assert(false);
                    }
                    crate::components::Position { x: 0, y: 0 }
                },
            };
            cx = midpoint(cx, pos.x);
            cy = midpoint(cy, pos.y);
            proof {
                assert(all.take(i + 1).drop_last() =~= all.take(i as int));
                assert(all.take(i + 1).last() == all[i as int]);
            }
            i = i + 1;
        }
        proof {
            assert(all.take(n as int) =~= all);
        }
        services.camera.center_x = cx;
        services.camera.center_y = cy;
    }
}

/// The aspect of the animation pass: entities that carry a sprite.
pub open spec fn spec_animate_aspect() -> Aspect {
    Aspect {
        all: KindSet {
            position: false,
            velocity: false,
            sprite: true,
            tint: false,
            camera_follow: false,
        },
        any: no_kinds(),
        none: no_kinds(),
    }
}

/// Advances every sprite's animation clock by the frame delta, wrapping by
/// true modulo.
pub struct Animate;

impl Animate {
    pub fn aspect() -> (r: Aspect)
        ensures
            r == spec_animate_aspect(),
    {
        Aspect::with_all(
            KindSet {
                position: false,
                velocity: false,
                sprite: true,
                tint: false,
                camera_follow: false,
            },
        )
    }

    pub fn process(&self, registry: &mut Registry, delta_time: u64)
        requires
            old(registry).wf(),
        ensures
            final(registry).wf(),
            final(registry).slot_count() == old(registry).slot_count(),
            forall|s: int|
                0 <= s < old(registry).slot_count()
                    ==> final(registry).components.sprites@[s] == match old(
                    registry,
                ).components.sprites@[s] {
                    Some(sp) => Some(spec_animated(sp, delta_time)),
                    None => None::<crate::components::Sprite>,
                },
            final(registry).generations@ == old(registry).generations@,
            final(registry).alive@ == old(registry).alive@,
            final(registry).free@ == old(registry).free@,
            final(registry).order@ == old(registry).order@,
            final(registry).components.positions@ == old(registry).components.positions@,
            final(registry).components.velocities@ == old(registry).components.velocities@,
            final(registry).components.tints@ == old(registry).components.tints@,
            final(registry).components.camera_follows@ == old(
                registry,
            ).components.camera_follows@,
    {
        let n = registry.components.sprites.len();
        let mut s: usize = 0;
        while s < n
            invariant
                0 <= s <= n,
                n == registry.components.sprites@.len(),
                n == old(registry).components.sprites@.len(),
                forall|j: int|
                    0 <= j < s ==> registry.components.sprites@[j] == match old(
                        registry,
                    ).components.sprites@[j] {
                        Some(sp) => Some(spec_animated(sp, delta_time)),
                        None => None::<crate::components::Sprite>,
                    },
                forall|j: int|
                    s <= j < n ==> registry.components.sprites@[j] == old(
                        registry,
                    ).components.sprites@[j],
                forall|j: int|
                    0 <= j < n ==> (#[trigger] old(registry).components.sprites@[j] matches Some(
                        sp,
                    ) ==> sp.wf()),
                forall|j: int|
                    0 <= j < s ==> (#[trigger] registry.components.sprites@[j] matches Some(sp)
                        ==> sp.wf()),
                registry.generations@ == old(registry).generations@,
                registry.alive@ == old(registry).alive@,
                registry.free@ == old(registry).free@,
                registry.order@ == old(registry).order@,
                registry.components.positions@ == old(registry).components.positions@,
                registry.components.velocities@ == old(registry).components.velocities@,
                registry.components.tints@ == old(registry).components.tints@,
                registry.components.camera_follows@ == old(registry).components.camera_follows@,
            decreases n - s,
        {
            match registry.components.sprites[s] {
                Some(sprite0) => {
                    let mut sp = sprite0;
                    sp.update(delta_time);
                    registry.components.sprites[s] = Some(sp);
                },
                None => {},
            }
            s = s + 1;
        }
        proof {
            assert(registry.wf()) by {
                assert forall|k: int|
                    0 <= k < registry.order@.len() implies registry.live(
                    #[trigger] registry.order@[k],
                ) by {
                    assert(old(registry).live(registry.order@[k]));
                }
                assert forall|t: int|
                    0 <= t < registry.slot_count() && !registry.alive@[t] implies registry.kinds_at(
                    t,
                ) == no_kinds() by {
                    assert(old(registry).kinds_at(t) == no_kinds());
                }
            }
        }
    }
}

/// Acquires the frame for this tick: records its dimensions and recomputes
/// the camera's aspect ratio from them.
pub struct BeginDraw;

impl BeginDraw {
    pub fn process(&self, services: &mut Services, width: u32, height: u32)
        requires
            old(services).frame is None,
            width > 0,
        ensures
            final(services).frame == Some(FrameInfo { width, height }),
            final(services).camera == (Camera {
                aspect_ratio: ((height * FIXED_ONE / width as int)) as i64,
                ..old(services).camera
            }),
            final(services).delta_time == old(services).delta_time,
            final(services).running_time == old(services).running_time,
            final(services).running == old(services).running,
            final(services).tilemap_changed == old(services).tilemap_changed,
            final(services).tilemap == old(services).tilemap,
            final(services).tileset == old(services).tileset,
    {
        let aspect: u64 = (height as u64) * (FIXED_ONE as u64) / (width as u64);
        services.camera.aspect_ratio = aspect as i64;
        services.frame = Some(FrameInfo { width, height });
    }
}

/// Hands the finished frame back: the tick's draw pass is over.
pub struct EndDraw;

impl EndDraw {
    pub fn process(&self, services: &mut Services)
        requires
            old(services).frame is Some,
        ensures
            final(services).frame is None,
            final(services).delta_time == old(services).delta_time,
            final(services).running_time == old(services).running_time,
            final(services).running == old(services).running,
            final(services).tilemap_changed == old(services).tilemap_changed,
            final(services).tilemap == old(services).tilemap,
            final(services).tileset == old(services).tileset,
            final(services).camera == old(services).camera,
    {
        services.frame = None;
    }
}

/// One instance of the terrain draw: the cell's offset in world units and
/// the tileset layer to sample.
#[derive(Copy, Clone, Debug, PartialEq, Eq, Structural)]
pub struct TerrainInstance {
    pub offset_x: i64,
    pub offset_y: i64,
    pub tile: u32,
}

/// The instance emitted for the cell at row-major index `i`: its column,
/// its row flipped against the map height, and the layer for its tile kind.
pub open spec fn spec_instance_at(i: int, width: u32, height: u32, layer: u32) -> TerrainInstance {
    let x = i % (width as int);
    let y = height - i / (width as int);
    TerrainInstance { offset_x: x as i64, offset_y: (1 - y) as i64, tile: layer }
}

/// The terrain instance list: one instance per cell that is not open air,
/// in row-major order; walls sample layer 0, breakables layer 1.
pub open spec fn spec_terrain_instances(tiles: Seq<Tile>, width: u32, height: u32) -> Seq<
    TerrainInstance,
>
    decreases tiles.len(),
{
    if tiles.len() == 0 {
        Seq::empty()
    } else {
        let rest = spec_terrain_instances(tiles.drop_last(), width, height);
        let i = tiles.len() - 1;
        match tiles.last() {
            Tile::Open => rest,
            Tile::Wall => rest.push(spec_instance_at(i, width, height, 0)),
            Tile::Breakable(_) => rest.push(spec_instance_at(i, width, height, 1)),
        }
    }
}

/// Draws the level: rebuilds the terrain instance list when the tilemap
/// changed or nothing was built yet, and clears the change flag.
pub struct DrawTerrain {
    pub built: bool,
}

impl DrawTerrain {
    pub fn new() -> (r: DrawTerrain)
        ensures
            !r.built,
    {
        DrawTerrain { built: false }
    }

    /// Builds the instance list for the whole level.
    pub fn setup_tiles(&self, tilemap: &Tilemap) -> (r: Vec<TerrainInstance>)
        requires
            tilemap.wf(),
        ensures
            r@ == spec_terrain_instances(tilemap.tile_map@, tilemap.width, tilemap.height),
    {
        let width = tilemap.width;
        let height = tilemap.height;
        let n = tilemap.tile_map.len();
        let mut out: Vec<TerrainInstance> = Vec::new();
        let mut i: usize = 0;
        while i < n
            invariant
                0 <= i <= n,
                n == tilemap.tile_map@.len(),
                n == width * height,
                out@ == spec_terrain_instances(tilemap.tile_map@.take(i as int), width, height),
            decreases n - i,
        {
            let tile = tilemap.tile_map[i];
            let layer: u32 = match tile {
                Tile::Open => 0,
                Tile::Wall => 0,
                Tile::Breakable(_) => 1,
            };
            match tile {
                Tile::Open => {},
                _ => {
                    proof {
                        assert(width > 0 && (i as int) / (width as int) < height as int)
                            by (nonlinear_arith)
                            requires
                                n == width * height,
                                0 <= i < n,
                        {}
                    }
                    let x = ((i as u64) % (width as u64)) as i64;
                    let y = (height as i64) - ((i as u64) / (width as u64)) as i64;
                    out.push(TerrainInstance { offset_x: x, offset_y: 1 - y, tile: layer });
                },
            }
            proof {
                assert(tilemap.tile_map@.take(i + 1).drop_last() =~= tilemap.tile_map@.take(
                    i as int,
                ));
                assert(tilemap.tile_map@.take(i + 1).last() == tilemap.tile_map@[i as int]);
            }
            i = i + 1;
        }
        proof {
            assert(tilemap.tile_map@.take(n as int) =~= tilemap.tile_map@);
        }
        out
    }

    /// Runs the terrain pass: returns the fresh instance list when one had
    /// to be rebuilt, and always leaves the change flag cleared.
    pub fn process(&mut self, services: &mut Services) -> (r: Option<Vec<TerrainInstance>>)
        requires
            old(services).wf(),
            old(services).frame is Some,
        ensures
            final(self).built,
            final(services).tilemap_changed == false,
            (r is Some) == (old(services).tilemap_changed || !old(self).built),
            r matches Some(v) ==> v@ == spec_terrain_instances(
                old(services).tilemap.tile_map@,
                old(services).tilemap.width,
                old(services).tilemap.height,
            ),
            final(services).delta_time == old(services).delta_time,
            final(services).running_time == old(services).running_time,
            final(services).running == old(services).running,
            final(services).tilemap == old(services).tilemap,
            final(services).tileset == old(services).tileset,
            final(services).frame == old(services).frame,
            final(services).camera == old(services).camera,
    {
        let rebuild = services.tilemap_changed || !self.built;
        services.tilemap_changed = false;
        if rebuild {
            let instances = self.setup_tiles(&services.tilemap);
            self.built = true;
            Some(instances)
        } else {
            None
        }
    }
}

/// The aspect of the sprite draw pass: entities that carry both a sprite
/// and a position.
pub open spec fn spec_draw_aspect() -> Aspect {
    Aspect {
        all: KindSet {
            position: true,
            velocity: false,
            sprite: true,
            tint: false,
            camera_follow: false,
        },
        any: no_kinds(),
        none: no_kinds(),
    }
}

/// Everything the rendering edge needs for one sprite: its transform
/// values, the frame to sample, its texture, and its tint.
#[derive(Copy, Clone, Debug, PartialEq, Eq, Structural)]
pub struct SpriteDraw {
    pub x: i64,
    pub y: i64,
    pub size_x: i64,
    pub size_y: i64,
    pub scale: i64,
    pub rotation: i64,
    pub frame: u32,
    pub texture: TextureId,
    pub tint: Tint,
}

/// The draw record of one entity, read from its position, sprite, and
/// optional tint.
pub open spec fn spec_sprite_draw(r: Registry, e: Entity) -> SpriteDraw {
    let slot = e.index as int;
    match (r.components.positions@[slot], r.components.sprites@[slot]) {
        (Some(p), Some(sp)) => SpriteDraw {
            x: p.x,
            y: p.y,
            size_x: sp.size_x,
            size_y: sp.size_y,
            scale: sp.scale,
            rotation: sp.rotation,
            frame: spec_animation_frame(sp) as u32,
            texture: sp.texture,
            tint: match r.components.tints@[slot] {
                Some(t) => t,
                None => Tint {
                    red: FIXED_ONE,
                    green: FIXED_ONE,
                    blue: FIXED_ONE,
                    alpha: FIXED_ONE,
                },
            },
        },
        _ => SpriteDraw {
            x: 0,
            y: 0,
            size_x: 0,
            size_y: 0,
            scale: 0,
            rotation: 0,
            frame: 0,
            texture: 0,
            tint: Tint { red: 0, green: 0, blue: 0, alpha: 0 },
        },
    }
}

/// The draw records of a list of entities, in order.
pub open spec fn spec_sprite_draws(r: Registry, ents: Seq<Entity>) -> Seq<SpriteDraw>
    decreases ents.len(),
{
    if ents.len() == 0 {
        Seq::empty()
    } else {
        spec_sprite_draws(r, ents.drop_last()).push(spec_sprite_draw(r, ents.last()))
    }
}

/// Prepares one draw record per entity with a sprite and a position, in
/// registry insertion order.
pub struct DrawSprites;

impl DrawSprites {
    pub fn new() -> (r: DrawSprites)
        ensures
            true,
    {
        DrawSprites
    }

    pub fn aspect() -> (r: Aspect)
        ensures
            r == spec_draw_aspect(),
    {
        Aspect::with_all(
            KindSet {
                position: true,
                velocity: false,
                sprite: true,
                tint: false,
                camera_follow: false,
            },
        )
    }

    pub fn process(&self, registry: &Registry, services: &Services) -> (r: Vec<SpriteDraw>)
        requires
            registry.wf(),
            services.frame is Some,
        ensures
            r@ == spec_sprite_draws(
                *registry,
                matching_entities(*registry, spec_draw_aspect()),
            ),
    {
        let ents = registry.iter_matching(Self::aspect());
        let ghost all = ents@;
        let n = ents.len();
        let mut out: Vec<SpriteDraw> = Vec::new();
        let mut i: usize = 0;
        while i < n
            invariant
                0 <= i <= n,
                registry.wf(),
                n == all.len(),
                ents@ == all,
                all == matching_entities(*registry, spec_draw_aspect()),
                forall|k: int|
                    0 <= k < all.len() ==> registry.live(#[trigger] all[k]) && aspect_matches(
                        spec_draw_aspect(),
                        registry.kinds_at(all[k].index as int),
                    ),
                out@ == spec_sprite_draws(*registry, all.take(i as int)),
            decreases n - i,
        {
            let e = ents[i];
            proof {
                assert(aspect_matches(spec_draw_aspect(), registry.kinds_at(e.index as int)));
            }
            let pos = match registry.components.positions[e.index] {
                Some(p) => p,
                None => {
                    proof {
                        assert(false);
                    }
                    crate::components::Position { x: 0, y: 0 }
                },
            };
            let sp = match registry.components.sprites[e.index] {
                Some(sp) => sp,
                None => {
                    proof {
                        assert(false);
                    }
                    crate::components::Sprite::new(0, 1, 1)
                },
            };
            let tint = match registry.components.tints[e.index] {
                Some(t) => t,
                None => Tint::white(),
            };
            let frame = sp.animation_frame();
            out.push(
                SpriteDraw {
                    x: pos.x,
                    y: pos.y,
                    size_x: sp.size_x,
                    size_y: sp.size_y,
                    scale: sp.scale,
                    rotation: sp.rotation,
                    frame,
                    texture: sp.texture,
                    tint,
                },
            );
            proof {
                assert(all.take(i + 1).drop_last() =~= all.take(i as int));
                assert(all.take(i + 1).last() == all[i as int]);
            }
            i = i + 1;
        }
        proof {
            assert(all.take(n as int) =~= all);
        }
        out
    }
}

/// What one tick hands the rendering edge: the terrain instances when they
/// were rebuilt this tick, and one draw record per visible sprite.
pub struct FrameOutput {
    pub terrain: Option<Vec<TerrainInstance>>,
    pub sprites: Vec<SpriteDraw>,
}

/// The whole game state: the entity registry, the shared services, and the
/// per-frame systems in their fixed pipeline order.
pub struct World {
    pub registry: Registry,
    pub services: Services,
    pub time: Time,
    pub input: Input,
    pub camera_follow: CameraFollow,
    pub animate: Animate,
    pub begin_draw: BeginDraw,
    pub draw_terrain: DrawTerrain,
    pub draw_sprites: DrawSprites,
    pub end_draw: EndDraw,
}

impl World {
    pub open spec fn wf(self) -> bool {
        &&& self.registry.wf()
        &&& self.services.wf()
    }

    /// A world over a freshly loaded level: empty registry, default
    /// services, and the terrain not yet built.
    pub fn new(tilemap: Tilemap, tileset: TextureId) -> (r: World)
        requires
            tilemap.wf(),
        ensures
            r.wf(),
            r.registry.slot_count() == 0,
            r.registry.order@.len() == 0,
            r.services.running,
            r.services.tilemap_changed,
            r.services.tilemap == tilemap,
            r.services.tileset == tileset,
            r.services.frame is None,
            r.services.running_time is None,
            !r.draw_terrain.built,
    {
        World {
            registry: Registry::new(),
            services: Services::new(tilemap, tileset),
            time: Time,
            input: Input,
            camera_follow: CameraFollow,
            animate: Animate,
            begin_draw: BeginDraw,
            draw_terrain: DrawTerrain::new(),
            draw_sprites: DrawSprites::new(),
            end_draw: EndDraw,
        }
    }

    /// Runs one whole tick of the pipeline, in its fixed order: time,
    /// input, camera blending, animation, then the draw pass from frame
    /// acquisition to hand-back. The caller supplies the clock reading, the
    /// tick's events and the frame's dimensions, and receives what must be
    /// drawn.
    pub fn update(
        &mut self,
        now_micros: u64,
        events: &Vec<InputEvent>,
        frame_width: u32,
        frame_height: u32,
    ) -> (out: FrameOutput)
        requires
            old(self).wf(),
            old(self).services.frame is None,
            frame_width > 0,
        ensures
            final(self).wf(),
            final(self).services.frame is None,
            final(self).services.tilemap_changed == false,
            final(self).draw_terrain.built,
            final(self).services.running == (old(self).services.running && !has_close(events@)),
            final(self).services.delta_time == spec_delta(
                old(self).services.running_time,
                now_micros,
            ),
            final(self).services.running_time == Some(now_micros),
            final(self).services.tilemap == old(self).services.tilemap,
            final(self).services.tileset == old(self).services.tileset,
            ({
                let folded = follow_fold(
                    old(self).registry,
                    old(self).services.camera.center_x,
                    old(self).services.camera.center_y,
                    matching_entities(old(self).registry, spec_camera_follow_aspect()),
                );
                final(self).services.camera == (Camera {
                    center_x: folded.0,
                    center_y: folded.1,
                    aspect_ratio: ((frame_height * FIXED_ONE / frame_width as int)) as i64,
                    ..old(self).services.camera
                })
            }),
            final(self).registry.slot_count() == old(self).registry.slot_count(),
            final(self).registry.order@ == old(self).registry.order@,
            forall|s: int|
                0 <= s < old(self).registry.slot_count()
                    ==> final(self).registry.components.sprites@[s] == match old(
                    self,
                ).registry.components.sprites@[s] {
                    Some(sp) => Some(spec_animated(sp, spec_delta(
                        old(self).services.running_time,
                        now_micros,
                    ))),
                    None => None::<crate::components::Sprite>,
                },
            (out.terrain is Some) == (old(self).services.tilemap_changed || !old(
                self,
            ).draw_terrain.built),
            out.terrain matches Some(v) ==> v@ == spec_terrain_instances(
                old(self).services.tilemap.tile_map@,
                old(self).services.tilemap.width,
                old(self).services.tilemap.height,
            ),
            out.sprites@ == spec_sprite_draws(
                final(self).registry,
                matching_entities(final(self).registry, spec_draw_aspect()),
            ),
    {
        let time = Time;
        let input = Input;
        let camera_follow = CameraFollow;
        let animate = Animate;
        let begin_draw = BeginDraw;
        let draw_sprites = DrawSprites;
        let end_draw = EndDraw;
        time.process(&mut self.services, now_micros);
        input.process(&mut self.services, events);
        camera_follow.process(&self.registry, &mut self.services);
        let delta = self.services.delta_time;
        animate.process(&mut self.registry, delta);
        begin_draw.process(&mut self.services, frame_width, frame_height);
        let terrain = self.draw_terrain.process(&mut self.services);
        let sprites = draw_sprites.process(&self.registry, &self.services);
        end_draw.process(&mut self.services);
        FrameOutput { terrain, sprites }
    }
}

} // verus!
