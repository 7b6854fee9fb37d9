use invader::events::EventQueue;
use invader::geometry::{WorldDim, WorldVec};
use invader::persist::{
    apply_stage, collect_stage, PersistRequest, PersistentCollider, PersistentRigidBody,
    SpriteSheet, StageEntity,
};
use invader::physics::{
    BodyStatus, ColliderCom, CuboidDef, IsometryDef, RigidBodyCom, ShapeDef, TransformCom,
};
use invader::scene::SpriteCom;
use invader::world::{EntityId, World};

fn stage_world() -> World {
    let mut w = World::new();
    let a = w.create_entity();
    assert!(w.attach_transform(a, TransformCom::new(WorldVec::new(10, 20))));
    assert!(w.attach_sprite(a, SpriteCom::new("ship", WorldDim::new(16, 16))));
    assert!(w.attach_body(a, RigidBodyCom { handle: 7, status: BodyStatus::Dynamic }));
    assert!(w.attach_collider(
        a,
        ColliderCom {
            handle: 9,
            shape: ShapeDef::Cuboid(CuboidDef { half_extents: WorldVec::new(8, 8) }),
            position: IsometryDef { translation: WorldVec::new(0, 0), rotation_urad: 0 },
        },
    ));
    assert!(w.set_stage_marker(a, true));
    let b = w.create_entity();
    assert!(w.attach_transform(b, TransformCom::new(WorldVec::new(-5, 3))));
    assert!(w.attach_body(b, RigidBodyCom { handle: 8, status: BodyStatus::Static }));
    assert!(w.set_stage_marker(b, true));
    // an untagged bystander that persistence must leave alone
    let c = w.create_entity();
    assert!(w.attach_transform(c, TransformCom::new(WorldVec::new(1, 1))));
    w.commit();
    w
}

#[test]
fn save_then_load_preserves_stage_entities() {
    // the save-then-load round trip preserves transform, sprite key and
    // physics body status for every tagged stage entity
    let mut w = stage_world();
    let records = collect_stage(&w);
    assert_eq!(records.len(), 2);

    let base = w.num_slots();
    apply_stage(&mut w, &records);
    w.commit();

    let first = EntityId { index: base, generation: 0 };
    let second = EntityId { index: base + 1, generation: 0 };
    assert_eq!(w.get_transform(first).unwrap().pos, WorldVec::new(10, 20));
    assert_eq!(w.get_sprite(first).unwrap().name, "ship");
    assert_eq!(w.get_body(first).unwrap().status, BodyStatus::Dynamic);
    assert_eq!(w.get_transform(second).unwrap().pos, WorldVec::new(-5, 3));
    assert_eq!(w.get_body(second).unwrap().status, BodyStatus::Static);
    // handles are not persisted: the collaborator re-registers the bodies
    assert_eq!(w.get_body(first).unwrap().handle, 0);

    // the old tagged entities were stripped, the bystander kept
    assert!(w.get_transform(EntityId { index: 0, generation: 0 }).is_none());
    assert!(w.get_transform(EntityId { index: 2, generation: 0 }).is_some());

    // saving again yields the same records
    let again = collect_stage(&w);
    assert_eq!(again.len(), 2);
    assert_eq!(again[0].transform.unwrap().pos, WorldVec::new(10, 20));
    assert_eq!(again[0].sprite.as_ref().unwrap().name, "ship");
    assert_eq!(again[0].body, Some(PersistentRigidBody { status: BodyStatus::Dynamic }));
    assert_eq!(again[1].transform.unwrap().pos, WorldVec::new(-5, 3));
    assert_eq!(again[1].body, Some(PersistentRigidBody { status: BodyStatus::Static }));
}

#[test]
fn untagged_components_survive_a_load() {
    let mut w = stage_world();
    let records = collect_stage(&w);
    apply_stage(&mut w, &records);
    w.commit();
    let bystander = EntityId { index: 2, generation: 0 };
    assert_eq!(w.get_transform(bystander).unwrap().pos, WorldVec::new(1, 1));
}

#[test]
fn collider_without_body_is_not_recreated() {
    // a collider needs its own element's body as parent: a loaded record
    // carrying a collider but no body recreates the entity without the
    // collider, keeping its other components
    let records = vec![StageEntity {
        transform: Some(TransformCom::new(WorldVec::new(2, 3))),
        sprite: None,
        text: None,
        body: None,
        collider: Some(PersistentCollider {
            shape: ShapeDef::Cuboid(CuboidDef { half_extents: WorldVec::new(4, 4) }),
            position: IsometryDef { translation: WorldVec::new(0, 0), rotation_urad: 0 },
        }),
    }];
    let mut w = World::new();
    apply_stage(&mut w, &records);
    w.commit();
    let id = EntityId { index: 0, generation: 0 };
    assert_eq!(w.get_transform(id).unwrap().pos, WorldVec::new(2, 3));
    assert!(w.colliders[0].is_none());
    assert!(w.get_body(id).is_none());
}

#[test]
fn persist_requests_queue_in_order() {
    let mut q: EventQueue<PersistRequest> = EventQueue::new();
    q.push(PersistRequest::SaveStage(String::from("stage.mst")));
    q.push(PersistRequest::LoadStage(String::from("other.mst")));
    assert_eq!(q.len(), 2);
    match q.get(0) {
        PersistRequest::SaveStage(p) => assert_eq!(p, "stage.mst"),
        _ => panic!("save first"),
    }
    match q.get(1) {
        PersistRequest::LoadStage(p) => assert_eq!(p, "other.mst"),
        _ => panic!("load second"),
    }
    q.clear();
    assert_eq!(q.len(), 0);
}

#[test]
fn sprite_sheet_maps_names_once() {
    let mut sheet = SpriteSheet::new();
    sheet.add_sprite("ship", "ship.png");
    sheet.add_sprite("rock", "rock.png");
    sheet.add_sprite("ship", "ship2.png");
    assert_eq!(sheet.sprites.len(), 2);
    assert_eq!(sheet.sprites[0].0, "ship");
    assert_eq!(sheet.sprites[0].1, "ship2.png");
    assert_eq!(sheet.sprites[1].1, "rock.png");
    sheet.remove_sprite("ship");
    assert_eq!(sheet.sprites.len(), 1);
    assert_eq!(sheet.sprites[0].0, "rock");
    sheet.remove_sprite("missing");
    assert_eq!(sheet.sprites.len(), 1);

    sheet.add_font("mono", "mono.ttf", 14, 255, 255, 255);
    sheet.add_font("mono", "mono2.ttf", 16, 0, 0, 0);
    assert_eq!(sheet.fonts.len(), 1);
    assert_eq!(sheet.fonts[0].1.path, "mono2.ttf");
    assert_eq!(sheet.fonts[0].1.size, 16);
    sheet.remove_font("mono");
    assert!(sheet.fonts.is_empty());
}
