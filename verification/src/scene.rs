//! The root scene: an ordered container of scenes that see every event.
//!
//! Scene content (widget trees, rendering passes) belongs to the embedding
//! program; what lives here is the closed set of utility scenes whose
//! behaviour is part of the runtime's rules — for now the close handler,
//! which turns a close request on the application's own window into an
//! orderly exit — and the routing that offers each event to every scene in
//! order and collects what they raise.

use vstd::prelude::*;

verus! {

use crate::events::{GameEvent, GameUserEvent};
use crate::graphics::HandleContainer;

/// What a draw pass works with: the draw server's handle records.
pub struct DrawContext {
    pub handles: HandleContainer,
}

/// One utility scene.
#[derive(Clone, Copy, Debug, PartialEq, Eq, Structural)]
pub enum Scene {
    /// Raise an exit when the window with this id is asked to close.
    Close { window_id: u64 },
}

/// What one scene raises for one event.
pub open spec fn spec_scene_response(scene: Scene, event: GameEvent) -> Option<GameUserEvent> {
    match scene {
        Scene::Close { window_id } => match event {
            GameEvent::WindowCloseRequested { window_id: requested } => if requested == window_id {
                Some(GameUserEvent::Exit(0))
            } else {
                None
            },
            _ => None,
        },
    }
}

impl Scene {
    /// Offer one event to this scene; the event itself always propagates on,
    /// so the scene only raises follow-up events.
    pub fn handle_event(&self, event: &GameEvent) -> (r: Option<GameUserEvent>)
        ensures
            r == spec_scene_response(*self, *event),
    {
        match *self {
            Scene::Close { window_id } => match event {
                GameEvent::WindowCloseRequested { window_id: requested } => if *requested
                    == window_id {
                    Some(GameUserEvent::Exit(0))
                } else {
                    None
                },
                _ => None,
            },
        }
    }

    /// Draw this scene. The utility scenes draw nothing.
    pub fn draw(&self, ctx: &mut DrawContext)
        ensures
            *final(ctx) == *old(ctx),
    {
        let _ = ctx;
    }
}

/// What a container of scenes raises for one event, in scene order.
pub open spec fn spec_responses(scenes: Seq<Scene>, event: GameEvent) -> Seq<GameUserEvent>
    decreases scenes.len(),
{
    if scenes.len() == 0 {
        Seq::<GameUserEvent>::empty()
    } else {
        match spec_scene_response(scenes[0], event) {
            Some(raised) => seq![raised] + spec_responses(scenes.drop_first(), event),
            None => spec_responses(scenes.drop_first(), event),
        }
    }
}

/// An ordered collection of scenes.
#[derive(Clone, Debug, PartialEq, Eq)]
pub struct SceneContainer {
    pub scenes: Vec<Scene>,
}

impl SceneContainer {
    /// An empty container.
    pub fn new() -> (r: SceneContainer)
        ensures
            r.scenes@ == Seq::<Scene>::empty(),
    {
        SceneContainer { scenes: Vec::new() }
    }

    /// Append a scene; it sees events after all earlier scenes.
    pub fn push(&mut self, scene: Scene)
        ensures
            final(self).scenes@ == old(self).scenes@.push(scene),
    {
        self.scenes.push(scene);
    }

    /// Offer one event to every scene in order and collect what they raise.
    pub fn handle_event(&self, event: &GameEvent) -> (r: Vec<GameUserEvent>)
        ensures
            r@ == spec_responses(self.scenes@, *event),
    {
        let mut raised: Vec<GameUserEvent> = Vec::new();
        let mut i: usize = 0;
        proof {
            assert(self.scenes@.skip(0) =~= self.scenes@);
            assert(raised@ + spec_responses(self.scenes@, *event) =~= spec_responses(
                self.scenes@,
                *event,
            ));
        }
        while i < self.scenes.len()
            invariant
                i <= self.scenes.len(),
                raised@ + spec_responses(self.scenes@.skip(i as int), *event) == spec_responses(
                    self.scenes@,
                    *event,
                ),
            decreases self.scenes.len() - i,
        {
            proof {
                assert(self.scenes@.skip(i as int)[0] == self.scenes@[i as int]);
                assert(self.scenes@.skip(i as int).drop_first() =~= self.scenes@.skip(i + 1));
            }
            let ghost before = raised@;
            match self.scenes[i].handle_event(event) {
                Some(event_raised) => {
                    raised.push(event_raised);
                    proof {
                        let rest = spec_responses(self.scenes@.skip(i + 1), *event);
                        assert(before + (seq![raised@[raised@.len() - 1]] + rest) =~= raised@
                            + rest);
                    }
                },
                None => {
                },
            }
            i = i + 1;
        }
        raised
    }

    /// Draw every scene in order.
    pub fn draw(&self, ctx: &mut DrawContext)
        ensures
            *final(ctx) == *old(ctx),
    {
        let mut i: usize = 0;
        while i < self.scenes.len()
            invariant
                *ctx == *old(ctx),
            decreases self.scenes.len() - i,
        {
            self.scenes[i].draw(ctx);
            i = i + 1;
        }
    }
}

/// The scene at the root of the application: every event reaches it, and the
/// draw server draws it once per cycle.
#[derive(Clone, Debug, PartialEq, Eq)]
pub struct RootScene {
    pub container: SceneContainer,
}

impl RootScene {
    /// The root scene of an application whose window has the given id: the
    /// utility close handler is installed.
    pub fn new(window_id: u64) -> (r: RootScene)
        ensures
            r.container.scenes@ == seq![Scene::Close { window_id }],
    {
        let mut container = SceneContainer::new();
        container.push(Scene::Close { window_id });
        proof {
            assert(Seq::<Scene>::empty().push(Scene::Close { window_id }) =~= seq![
                Scene::Close { window_id },
            ]);
        }
        RootScene { container }
    }

    /// Offer one event to the whole scene tree and collect what it raises.
    pub fn handle_event(&self, event: &GameEvent) -> (r: Vec<GameUserEvent>)
        ensures
            r@ == spec_responses(self.container.scenes@, *event),
    {
        self.container.handle_event(event)
    }

    /// Draw the whole scene tree.
    pub fn draw(&self, ctx: &mut DrawContext)
        ensures
            *final(ctx) == *old(ctx),
    {
        self.container.draw(ctx);
    }
}

} // verus!
