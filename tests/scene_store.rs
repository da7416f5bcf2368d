use ui_scene::asset::Handle;
use ui_scene::scene::{
    Anchor, Color, Components, Entity, LineMode, SceneStore, TextRun, Transform, Visual,
};

fn transform(x: i32) -> Transform {
    Transform { anchor: Anchor::Middle, pivot: Anchor::Middle, x, y: 0, z: 0, width: 100, height: 100 }
}

fn fill(r: u16) -> Visual {
    Visual::SolidFill(Color { r, g: 0, b: 0, a: 1000 })
}

fn parts(t: bool, v: bool, suppressed: bool) -> Components {
    Components {
        transform: if t { Some(transform(1)) } else { None },
        visual: if v { Some(fill(500)) } else { None },
        suppressed,
    }
}

#[test]
fn empty_store_renders_nothing() {
    let store = SceneStore::new();
    assert_eq!(store.len(), 0);
    assert!(store.render_set().is_empty());
}

#[test]
fn render_set_holds_exactly_the_eligible_entities() {
    let mut store = SceneStore::new();
    let mut expected = Vec::new();
    for t in [false, true] {
        for v in [false, true] {
            for s in [false, true] {
                let e = store.create_entity(parts(t, v, s));
                if t && v && !s {
                    expected.push(e);
                }
            }
        }
    }
    assert_eq!(store.len(), 8);
    assert_eq!(store.render_set(), expected);
    assert_eq!(expected.len(), 1);
}

#[test]
fn render_set_keeps_insertion_order() {
    let mut store = SceneStore::new();
    let a = store.create_entity(parts(true, true, false));
    let _ = store.create_entity(parts(true, true, true));
    let c = store.create_entity(parts(true, true, false));
    assert_eq!(store.render_set(), vec![a, c]);
    assert_eq!(store.render_set(), vec![a, c]);
}

#[test]
fn toggling_marker_changes_membership_only() {
    let mut store = SceneStore::new();
    let e = store.create_entity(parts(true, true, false));
    let t0 = store.get_transform(e);
    let v0 = store.get_visual(e).cloned();
    store.set_marker(e, true);
    assert!(store.has_marker(e));
    assert!(store.render_set().is_empty());
    assert_eq!(store.get_transform(e), t0);
    assert_eq!(store.get_visual(e).cloned(), v0);
    store.set_marker(e, true);
    assert!(store.render_set().is_empty());
    store.set_marker(e, false);
    assert!(!store.has_marker(e));
    assert_eq!(store.render_set(), vec![e]);
    assert_eq!(store.get_transform(e), t0);
    assert_eq!(store.get_visual(e).cloned(), v0);
}

#[test]
fn marker_on_entity_without_layout_is_not_an_error() {
    let mut store = SceneStore::new();
    let e = store.create_entity(parts(false, false, true));
    assert!(store.contains(e));
    assert!(store.has_marker(e));
    assert_eq!(store.get_transform(e), None);
    assert!(store.get_visual(e).is_none());
    assert!(store.render_set().is_empty());
}

#[test]
fn marked_entities_after_unmarked_ones_leave_them_unchanged() {
    let mut store = SceneStore::new();
    let mut prior = Vec::new();
    for i in 0..3 {
        let c = Components { transform: Some(transform(i)), visual: Some(fill(100 * i as u16)), suppressed: false };
        prior.push(store.create_entity(c));
    }
    let before: Vec<(Option<Transform>, Option<Visual>, bool)> = prior
        .iter()
        .map(|e| (store.get_transform(*e), store.get_visual(*e).cloned(), store.has_marker(*e)))
        .collect();
    let render_before = store.render_set();
    for _ in 0..5 {
        let e = store.create_entity(Components {
            transform: Some(transform(7)),
            visual: Some(fill(1000)),
            suppressed: true,
        });
        assert!(store.has_marker(e));
    }
    let after: Vec<(Option<Transform>, Option<Visual>, bool)> = prior
        .iter()
        .map(|e| (store.get_transform(*e), store.get_visual(*e).cloned(), store.has_marker(*e)))
        .collect();
    assert_eq!(before, after);
    assert_eq!(store.render_set(), render_before);
    assert_eq!(store.len(), 8);
}

#[test]
fn removed_entity_is_gone_and_its_id_not_reused() {
    let mut store = SceneStore::new();
    let a = store.create_entity(parts(true, true, false));
    let b = store.create_entity(parts(true, true, false));
    assert!(store.remove_entity(a));
    assert!(!store.contains(a));
    assert_eq!(store.get_transform(a), None);
    assert!(store.get_visual(a).is_none());
    assert!(!store.has_marker(a));
    assert!(!store.remove_entity(a));
    assert_eq!(store.render_set(), vec![b]);
    let c = store.create_entity(parts(true, true, false));
    assert_ne!(c, a);
    assert_ne!(c, b);
    assert_eq!(store.render_set(), vec![b, c]);
}

#[test]
fn unknown_entity_reads_as_absent() {
    let mut store = SceneStore::new();
    let ghost = Entity { id: 42 };
    assert!(!store.contains(ghost));
    store.set_marker(ghost, true);
    assert!(!store.has_marker(ghost));
    assert_eq!(store.len(), 0);
}

#[test]
fn text_visual_is_stored_and_forwarded() {
    let mut store = SceneStore::new();
    let run = TextRun {
        content: "hello".to_string(),
        font: Handle { id: 3 },
        color: Color { r: 200, g: 200, b: 1000, a: 1000 },
        point_size: 20,
        line_mode: LineMode::Wrap,
        align: Anchor::Middle,
    };
    let e = store.create_entity(Components {
        transform: Some(transform(0)),
        visual: Some(Visual::Text(run.clone())),
        suppressed: false,
    });
    assert_eq!(store.get_visual(e), Some(&Visual::Text(run)));
    assert!(store.id_available());
}

#[test]
fn entities_lists_every_entity_in_insertion_order() {
    let mut store = SceneStore::new();
    let a = store.create_entity(parts(true, true, false));
    let b = store.create_entity(parts(false, true, true));
    let c = store.create_entity(parts(true, false, false));
    assert_eq!(store.entities(), vec![a, b, c]);
    store.remove_entity(b);
    assert_eq!(store.entities(), vec![a, c]);
}
