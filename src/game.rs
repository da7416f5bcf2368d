//! The application loop's state machine and the scene it seeds.
use crate::asset::{load_result, AssetCache, Handle};
use crate::input::{action_of, dispatch, Action, RawEvent};
use crate::scene::{
    eligible, lemma_create_keeps_existing, Anchor, Color, Components, Entity, LineMode, SceneStore, SceneView, TextRun,
    Transform, Visual,
};
use vstd::prelude::*;

verus! {

/// Logical path of the font used by the instruction text.
pub const FONT_PATH: &'static str = "font/square.ttf";

/// The instruction shown to the user.
pub const INSTRUCTION_TEXT: &'static str = "Press Space to add a new entity with a 'Hidden' component";

/// Run state of the application loop; `Quit` is terminal.
#[derive(Clone, Copy, Debug, PartialEq, Eq, Structural)]
pub enum RunState {
    Running,
    Quit,
}

/// What the loop asks of the runtime after an event.
#[derive(Clone, Copy, Debug, PartialEq, Eq, Structural)]
pub enum Trans {
    Continue,
    Quit,
}

/// The solid-fill entity seeded at start, drawn.
pub open spec fn shown_parts() -> Components {
    Components {
        transform: Some(
            Transform {
                anchor: Anchor::Middle,
                pivot: Anchor::Middle,
                x: -100i32,
                y: 0,
                z: 0,
                width: 100,
                height: 100,
            },
        ),
        visual: Some(Visual::SolidFill(Color { r: 0, g: 1000, b: 0, a: 1000 })),
        suppressed: false,
    }
}

/// The solid-fill entity spawned on request, carrying the marker.
pub open spec fn hidden_parts() -> Components {
    Components {
        transform: Some(
            Transform {
                anchor: Anchor::Middle,
                pivot: Anchor::Middle,
                x: 0,
                y: 0,
                z: 0,
                width: 100,
                height: 100,
            },
        ),
        visual: Some(Visual::SolidFill(Color { r: 1000, g: 0, b: 0, a: 1000 })),
        suppressed: true,
    }
}

/// The instruction text entity drawn with `font`.
pub open spec fn is_text_ui(parts: Components, font: Handle) -> bool {
    &&& parts.transform == Some(
        Transform {
            anchor: Anchor::TopMiddle,
            pivot: Anchor::TopMiddle,
            x: 0,
            y: -10i32,
            z: 0,
            width: 300,
            height: 100,
        },
    )
    &&& parts.visual matches Some(Visual::Text(t))
    &&& t.content@ == INSTRUCTION_TEXT@
    &&& t.font == font
    &&& t.color == (Color { r: 200, g: 200, b: 1000, a: 1000 })
    &&& t.point_size == 20
    &&& t.line_mode == LineMode::Wrap
    &&& t.align == Anchor::Middle
    &&& !parts.suppressed
}

/// Scene after `a` is applied in run state `run`.
pub open spec fn step_scene(run: RunState, scene: SceneView, a: Action) -> SceneView {
    if run == RunState::Running && a == Action::SpawnMarkedEntity && scene.next_id < u64::MAX {
        scene.created(hidden_parts())
    } else {
        scene
    }
}

/// Run state after `a` is applied in run state `run`.
pub open spec fn step_run(run: RunState, a: Action) -> RunState {
    if a == Action::Quit {
        RunState::Quit
    } else {
        run
    }
}

/// Run state and scene after the events are handled in order.
pub open spec fn after_events(run: RunState, scene: SceneView, events: Seq<RawEvent>) -> (
    RunState,
    SceneView,
)
    decreases events.len(),
{
    if events.len() == 0 {
        (run, scene)
    } else {
        let (r, s) = after_events(run, scene, events.drop_last());
        let a = action_of(events.last());
        (step_run(r, a), step_scene(r, s, a))
    }
}

/// Creates the solid-fill entity that carries no marker.
pub fn init_shown_ui_element(scene: &mut SceneStore) -> (r: Entity)
    requires
        old(scene).wf(),
        old(scene)@.next_id < u64::MAX,
    ensures
        final(scene).wf(),
        final(scene)@ == old(scene)@.created(shown_parts()),
        r.id == old(scene)@.next_id,
{
    let t = Transform {
        anchor: Anchor::Middle,
        pivot: Anchor::Middle,
        x: -100,
        y: 0,
        z: 0,
        width: 100,
        height: 100,
    };
    let v = Visual::SolidFill(Color { r: 0, g: 1000, b: 0, a: 1000 });
    scene.create_entity(Components { transform: Some(t), visual: Some(v), suppressed: false })
}

/// Creates a solid-fill entity that carries the suppression marker.
pub fn init_hidden_ui_element(scene: &mut SceneStore) -> (r: Entity)
    requires
        old(scene).wf(),
        old(scene)@.next_id < u64::MAX,
    ensures
        final(scene).wf(),
        final(scene)@ == old(scene)@.created(hidden_parts()),
        r.id == old(scene)@.next_id,
{
    let t = Transform {
        anchor: Anchor::Middle,
        pivot: Anchor::Middle,
        x: 0,
        y: 0,
        z: 0,
        width: 100,
        height: 100,
    };
    let v = Visual::SolidFill(Color { r: 1000, g: 0, b: 0, a: 1000 });
    scene.create_entity(Components { transform: Some(t), visual: Some(v), suppressed: true })
}

/// Creates the instruction text entity, loading its font through the cache.
pub fn init_text_ui(scene: &mut SceneStore, assets: &mut AssetCache) -> (r: Entity)
    requires
        old(scene).wf(),
        old(scene)@.next_id < u64::MAX,
        old(assets).wf(),
    ensures
        final(scene).wf(),
        final(assets).wf(),
        final(assets)@ == load_result(old(assets)@, FONT_PATH@).0,
        final(scene)@ == old(scene)@.created(final(scene)@.rows.last().parts),
        is_text_ui(final(scene)@.rows.last().parts, load_result(old(assets)@, FONT_PATH@).1),
        r.id == old(scene)@.next_id,
{
    let font = assets.load(FONT_PATH);
    let t = Transform {
        anchor: Anchor::TopMiddle,
        pivot: Anchor::TopMiddle,
        x: 0,
        y: -10,
        z: 0,
        width: 300,
        height: 100,
    };
    let text = TextRun {
        content: INSTRUCTION_TEXT.to_owned(),
        font,
        color: Color { r: 200, g: 200, b: 1000, a: 1000 },
        point_size: 20,
        line_mode: LineMode::Wrap,
        align: Anchor::Middle,
    };
    let r = scene.create_entity(
        Components { transform: Some(t), visual: Some(Visual::Text(text)), suppressed: false },
    );
    r
}

/// The application: its run state, its scene and its asset cache.
pub struct GameState {
    pub run: RunState,
    pub scene: SceneStore,
    pub assets: AssetCache,
}

impl GameState {
    pub open spec fn wf(&self) -> bool {
        self.scene.wf() && self.assets.wf()
    }

    /// A running application with an empty scene and an empty cache.
    pub fn new() -> (r: GameState)
        ensures
            r.wf(),
            r.run == RunState::Running,
            r.scene@.rows.len() == 0,
            r.scene@.next_id == 0,
            r.assets@.len() == 0,
    {
        GameState { run: RunState::Running, scene: SceneStore::new(), assets: AssetCache::new() }
    }

    /// Seeds the scene with the solid-fill entity and then the instruction
    /// text, both drawn, after whatever the scene already held.
    pub fn on_start(&mut self)
        requires
            old(self).wf(),
            old(self).scene@.next_id + 2 <= u64::MAX,
        ensures
            final(self).wf(),
            final(self).run == old(self).run,
            final(self).assets@ == load_result(old(self).assets@, FONT_PATH@).0,
            final(self).scene@ == old(self).scene@.created(shown_parts()).created(
                final(self).scene@.rows.last().parts,
            ),
            is_text_ui(
                final(self).scene@.rows.last().parts,
                load_result(old(self).assets@, FONT_PATH@).1,
            ),
            final(self).scene@.render_ids() == old(self).scene@.render_ids().push(
                old(self).scene@.next_id as u64,
            ).push((old(self).scene@.next_id + 1) as u64),
    {
        let ghost s0 = self.scene@;
        init_shown_ui_element(&mut self.scene);
        let ghost s1 = self.scene@;
        init_text_ui(&mut self.scene, &mut self.assets);
        proof {
            let s2 = self.scene@;
            assert(s1.rows.drop_last() =~= s0.rows);
            assert(s2.rows.drop_last() =~= s1.rows);
            assert(eligible(s2.rows.last().parts));
            assert(eligible(s1.rows.last().parts));
            assert(s1.render_ids() == s0.render_ids().push(s0.next_id as u64));
            assert(s2.render_ids() == s1.render_ids().push(s1.next_id as u64));
        }
    }

    /// Applies one action. In `Running`: `Quit` enters `Quit`, `NoOp` does
    /// nothing, and `SpawnMarkedEntity` creates a suppressed entity while
    /// identifiers remain. In `Quit` nothing changes.
    pub fn apply_action(&mut self, a: Action) -> (r: Trans)
        requires
            old(self).wf(),
        ensures
            final(self).wf(),
            final(self).run == (if old(self).run == RunState::Running {
                step_run(old(self).run, a)
            } else {
                RunState::Quit
            }),
            final(self).scene@ == step_scene(old(self).run, old(self).scene@, a),
            final(self).assets@ == old(self).assets@,
            r == (if final(self).run == RunState::Quit {
                Trans::Quit
            } else {
                Trans::Continue
            }),
    {
        if self.run == RunState::Quit {
            return Trans::Quit;
        }
        match a {
            Action::Quit => {
                self.run = RunState::Quit;
                Trans::Quit
            },
            Action::SpawnMarkedEntity => {
                if self.scene.id_available() {
                    init_hidden_ui_element(&mut self.scene);
                }
                Trans::Continue
            },
            Action::NoOp => Trans::Continue,
        }
    }

    /// Translates a raw event and applies the resulting action.
    pub fn handle_event(&mut self, event: &RawEvent) -> (r: Trans)
        requires
            old(self).wf(),
        ensures
            final(self).wf(),
            (final(self).run, final(self).scene@) == after_events(
                old(self).run,
                old(self).scene@,
                seq![*event],
            ),
            final(self).assets@ == old(self).assets@,
            r == (if final(self).run == RunState::Quit {
                Trans::Quit
            } else {
                Trans::Continue
            }),
    {
        let ghost run0 = self.run;
        let ghost scene0 = self.scene@;
        let a = dispatch(event);
        proof {
            let evs = seq![*event];
            assert(evs.drop_last() =~= Seq::<RawEvent>::empty());
            assert(after_events(run0, scene0, evs.drop_last()) == (run0, scene0));
            assert(evs.last() == *event);
        }
        self.apply_action(a)
    }

    /// Handles the events in order; once `Quit` is entered the rest change
    /// nothing.
    pub fn handle_events(&mut self, events: &Vec<RawEvent>) -> (r: Trans)
        requires
            old(self).wf(),
        ensures
            final(self).wf(),
            (final(self).run, final(self).scene@) == after_events(
                old(self).run,
                old(self).scene@,
                events@,
            ),
            final(self).assets@ == old(self).assets@,
            r == (if final(self).run == RunState::Quit {
                Trans::Quit
            } else {
                Trans::Continue
            }),
    {
        let ghost run0 = self.run;
        let ghost scene0 = self.scene@;
        let ghost assets0 = self.assets@;
        let mut i: usize = 0;
        let mut r = if self.run == RunState::Quit {
            Trans::Quit
        } else {
            Trans::Continue
        };
        while i < events.len()
            invariant
                self.wf(),
                0 <= i <= events@.len(),
                (self.run, self.scene@) == after_events(run0, scene0, events@.subrange(0, i as int)),
                self.assets@ == assets0,
                r == (if self.run == RunState::Quit {
                    Trans::Quit
                } else {
                    Trans::Continue
                }),
            decreases events@.len() - i,
        {
            proof {
                let sub = events@.subrange(0, i + 1);
                assert(sub.drop_last() =~= events@.subrange(0, i as int));
            }
            let a = dispatch(&events[i]);
            r = self.apply_action(a);
            i = i + 1;
        }
        assert(events@.subrange(0, events@.len() as int) =~= events@);
        r
    }
}

/// While running, a spawn request adds exactly one entity, which carries the
/// marker, is not drawn, and leaves the render set as it was.
pub proof fn lemma_spawn_adds_one_suppressed(scene: SceneView)
    requires
        scene.wf(),
        scene.next_id < u64::MAX,
    ensures
        ({
            let after = step_scene(RunState::Running, scene, Action::SpawnMarkedEntity);
            &&& after.wf()
            &&& after.rows.len() == scene.rows.len() + 1
            &&& !scene.contains(scene.next_id as u64)
            &&& after.contains(scene.next_id as u64)
            &&& after.marked(scene.next_id as u64)
            &&& !after.renderable(scene.next_id as u64)
            &&& after.render_ids() == scene.render_ids()
        }),
{
    lemma_create_keeps_existing(scene, hidden_parts());
}

/// Once the loop has quit, no event changes its run state or its scene.
pub proof fn lemma_quit_is_terminal(scene: SceneView, events: Seq<RawEvent>)
    ensures
        after_events(RunState::Quit, scene, events) == (RunState::Quit, scene),
    decreases events.len(),
{
    if events.len() > 0 {
        lemma_quit_is_terminal(scene, events.drop_last());
    }
}

} // verus!
