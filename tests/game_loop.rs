use ui_scene::asset::Handle;
use ui_scene::game::{
    init_hidden_ui_element, init_shown_ui_element, init_text_ui, GameState, RunState, Trans,
    INSTRUCTION_TEXT,
};
use ui_scene::input::{Action, Key, RawEvent};
use ui_scene::scene::{Anchor, Color, LineMode, SceneStore, Visual};
use ui_scene::asset::AssetCache;

fn started() -> GameState {
    let mut g = GameState::new();
    g.on_start();
    g
}

#[test]
fn start_seeds_two_drawn_entities_in_order() {
    let g = started();
    assert_eq!(g.run, RunState::Running);
    assert_eq!(g.scene.len(), 2);
    let drawn = g.scene.render_set();
    assert_eq!(drawn.len(), 2);
    assert!(drawn[0].id < drawn[1].id);
    assert!(matches!(g.scene.get_visual(drawn[0]), Some(Visual::SolidFill(_))));
    match g.scene.get_visual(drawn[1]) {
        Some(Visual::Text(t)) => {
            assert_eq!(t.content, INSTRUCTION_TEXT);
            assert_eq!(t.font, Handle { id: 0 });
            assert_eq!(t.point_size, 20);
            assert_eq!(t.line_mode, LineMode::Wrap);
            assert_eq!(t.align, Anchor::Middle);
            assert_eq!(t.color, Color { r: 200, g: 200, b: 1000, a: 1000 });
        }
        other => panic!("expected text, got {:?}", other),
    }
    assert!(!g.scene.has_marker(drawn[0]));
    assert!(!g.scene.has_marker(drawn[1]));
}

#[test]
fn one_spawn_keeps_render_set_and_adds_entity() {
    let mut g = started();
    let before = g.scene.render_set();
    assert_eq!(g.handle_event(&RawEvent::KeyDown(Key::Space)), Trans::Continue);
    assert_eq!(g.scene.len(), 3);
    assert_eq!(g.scene.render_set(), before);
    assert_eq!(g.scene.render_set().len(), 2);
}

#[test]
fn state_machine_noop_spawn_quit() {
    let mut g = started();
    assert_eq!(g.apply_action(Action::NoOp), Trans::Continue);
    assert_eq!(g.run, RunState::Running);
    assert_eq!(g.scene.len(), 2);

    assert_eq!(g.apply_action(Action::SpawnMarkedEntity), Trans::Continue);
    assert_eq!(g.run, RunState::Running);
    assert_eq!(g.scene.len(), 3);
    let drawn = g.scene.render_set();
    assert_eq!(drawn.len(), 2);
    let spawned = ui_scene::scene::Entity { id: 2 };
    assert!(g.scene.contains(spawned));
    assert!(g.scene.has_marker(spawned));
    assert!(!drawn.contains(&spawned));

    assert_eq!(g.apply_action(Action::Quit), Trans::Quit);
    assert_eq!(g.run, RunState::Quit);
    assert_eq!(g.apply_action(Action::SpawnMarkedEntity), Trans::Quit);
    assert_eq!(g.run, RunState::Quit);
    assert_eq!(g.scene.len(), 3);
}

#[test]
fn events_after_quit_are_not_processed() {
    let mut g = started();
    let events = vec![
        RawEvent::Other,
        RawEvent::KeyDown(Key::Space),
        RawEvent::KeyUp(Key::Space),
        RawEvent::KeyDown(Key::Escape),
        RawEvent::KeyDown(Key::Space),
        RawEvent::CloseRequested,
    ];
    assert_eq!(g.handle_events(&events), Trans::Quit);
    assert_eq!(g.run, RunState::Quit);
    assert_eq!(g.scene.len(), 3);
}

#[test]
fn close_request_quits_without_spawning() {
    let mut g = started();
    assert_eq!(g.handle_event(&RawEvent::CloseRequested), Trans::Quit);
    assert_eq!(g.run, RunState::Quit);
    assert_eq!(g.scene.len(), 2);
}

#[test]
fn init_helpers_create_expected_components() {
    let mut scene = SceneStore::new();
    let mut assets = AssetCache::new();
    let shown = init_shown_ui_element(&mut scene);
    let text = init_text_ui(&mut scene, &mut assets);
    let hidden = init_hidden_ui_element(&mut scene);
    assert_eq!(scene.get_transform(shown).map(|t| (t.x, t.y, t.width, t.height)), Some((-100, 0, 100, 100)));
    assert_eq!(scene.get_visual(shown), Some(&Visual::SolidFill(Color { r: 0, g: 1000, b: 0, a: 1000 })));
    assert_eq!(scene.get_transform(text).map(|t| (t.anchor, t.y, t.width)), Some((Anchor::TopMiddle, -10, 300)));
    assert_eq!(scene.get_visual(hidden), Some(&Visual::SolidFill(Color { r: 1000, g: 0, b: 0, a: 1000 })));
    assert!(scene.has_marker(hidden));
    assert_eq!(scene.render_set(), vec![shown, text]);
    assert_eq!(assets.len(), 1);
}
