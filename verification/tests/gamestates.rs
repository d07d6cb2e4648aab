use kerr::gamestates::{GameState, KeyPress, StateManager, StateTransition};

#[derive(Clone, Copy, Debug, PartialEq)]
enum Wish {
    Stay,
    Pop,
    PopN(u8),
    Push(&'static str),
}

#[derive(Clone, Debug, PartialEq)]
struct Scene {
    name: &'static str,
    update_below: bool,
    fail_update: bool,
    fail_draw: bool,
    transparent: bool,
    pass_keys: bool,
    leave_on_key: bool,
    wish: Wish,
}

impl Scene {
    fn new(name: &'static str) -> Self {
        Scene {
            name,
            update_below: false,
            fail_update: false,
            fail_draw: false,
            transparent: false,
            pass_keys: false,
            leave_on_key: false,
            wish: Wish::Stay,
        }
    }

    fn update_below(mut self) -> Self {
        self.update_below = true;
        self
    }

    fn fail_update(mut self) -> Self {
        self.fail_update = true;
        self
    }

    fn fail_draw(mut self) -> Self {
        self.fail_draw = true;
        self
    }

    fn transparent(mut self) -> Self {
        self.transparent = true;
        self
    }

    fn pass_keys(mut self) -> Self {
        self.pass_keys = true;
        self
    }

    fn leave_on_key(mut self) -> Self {
        self.leave_on_key = true;
        self
    }

    fn wish(mut self, wish: Wish) -> Self {
        self.wish = wish;
        self
    }
}

impl GameState for Scene {
    type Context = Vec<String>;
    type Error = String;

    fn transition(&self) -> StateTransition<Self> {
        match self.wish {
            Wish::Stay => StateTransition::Stay,
            Wish::Pop => StateTransition::Pop,
            Wish::PopN(n) => StateTransition::PopN(n),
            Wish::Push(name) => StateTransition::Push(Scene::new(name)),
        }
    }

    fn update(&mut self, ctx: &mut Vec<String>) -> Result<bool, String> {
        ctx.push(format!("update {}", self.name));
        if self.fail_update {
            Err(format!("{} failed", self.name))
        } else {
            Ok(self.update_below)
        }
    }

    fn draw(&mut self, ctx: &mut Vec<String>) -> Result<(), String> {
        ctx.push(format!("draw {}", self.name));
        if self.fail_draw {
            Err(format!("{} failed", self.name))
        } else {
            Ok(())
        }
    }

    fn draw_previous(&self) -> bool {
        self.transparent
    }

    fn key_down_event(&mut self, key: &KeyPress) -> bool {
        if self.leave_on_key && key.scancode == 82 {
            self.wish = Wish::Pop;
        }
        self.pass_keys
    }

    fn key_up_event(&mut self, key: &KeyPress) -> bool {
        if self.leave_on_key && key.scancode == 82 {
            self.wish = Wish::Pop;
        }
        self.pass_keys
    }
}

struct Quiet;

impl GameState for Quiet {
    type Context = u32;
    type Error = ();

    fn transition(&self) -> StateTransition<Self> {
        StateTransition::Stay
    }

    fn update(&mut self, ctx: &mut u32) -> Result<bool, ()> {
        *ctx += 1;
        Ok(true)
    }

    fn draw(&mut self, ctx: &mut u32) -> Result<(), ()> {
        *ctx += 100;
        Ok(())
    }

    fn draw_previous(&self) -> bool {
        true
    }

    fn key_down_event(&mut self, _key: &KeyPress) -> bool {
        false
    }

    fn key_up_event(&mut self, _key: &KeyPress) -> bool {
        false
    }
}

fn stack(scenes: Vec<Scene>) -> StateManager<Scene> {
    let mut scenes = scenes.into_iter();
    let mut manager = StateManager::new(scenes.next().unwrap());
    for scene in scenes {
        manager.apply_transition(StateTransition::Push(scene));
    }
    manager
}

fn key(scancode: i32) -> KeyPress {
    KeyPress { scancode, keycode: 0, keymod: 0, repeat: false }
}

fn drawn(manager: &mut StateManager<Scene>) -> Vec<String> {
    let mut log = Vec::new();
    manager.draw(&mut log).unwrap();
    log
}

fn text(lines: &[&str]) -> Vec<String> {
    lines.iter().map(|s| s.to_string()).collect()
}

#[test]
fn a_new_stack_holds_the_initial_state() {
    let mut manager = StateManager::new(Scene::new("game"));
    assert_eq!(manager.len(), 1);
    assert!(!manager.is_empty());
    assert_eq!(drawn(&mut manager), text(&["draw game"]));
}

#[test]
fn quit_event_never_keeps_running() {
    let mut manager = StateManager::new(Scene::new("game"));
    let mut log = Vec::new();
    assert!(!manager.quit_event(&mut log));
    assert_eq!(manager.len(), 1);
    assert_eq!(log, text(&[]));
}

#[test]
fn stay_keeps_the_stack() {
    let mut manager = stack(vec![Scene::new("a"), Scene::new("b")]);
    manager.apply_transition(StateTransition::Stay);
    assert_eq!(manager.len(), 2);
    assert_eq!(drawn(&mut manager), text(&["draw b"]));
}

#[test]
fn pop_removes_the_top() {
    let mut manager = stack(vec![Scene::new("a"), Scene::new("b")]);
    manager.apply_transition(StateTransition::Pop);
    assert_eq!(manager.len(), 1);
    assert_eq!(drawn(&mut manager), text(&["draw a"]));
}

#[test]
fn pop_on_an_empty_stack_is_nothing() {
    let mut manager = stack(vec![Scene::new("a")]);
    manager.apply_transition(StateTransition::Pop);
    manager.apply_transition(StateTransition::Pop);
    assert!(manager.is_empty());
}

#[test]
fn pop_n_removes_that_many() {
    let mut manager = stack(vec![Scene::new("a"), Scene::new("b"), Scene::new("c")]);
    manager.apply_transition(StateTransition::PopN(2));
    assert_eq!(manager.len(), 1);
    assert_eq!(drawn(&mut manager), text(&["draw a"]));
}

#[test]
fn pop_zero_removes_nothing() {
    let mut manager = stack(vec![Scene::new("a"), Scene::new("b")]);
    manager.apply_transition(StateTransition::PopN(0));
    assert_eq!(manager.len(), 2);
}

#[test]
fn pop_n_saturates_at_empty() {
    let mut manager = stack(vec![Scene::new("a"), Scene::new("b")]);
    manager.apply_transition(StateTransition::PopN(2));
    assert!(manager.is_empty());
    let mut manager = stack(vec![Scene::new("a"), Scene::new("b")]);
    manager.apply_transition(StateTransition::PopN(255));
    assert!(manager.is_empty());
}

#[test]
fn push_puts_a_state_on_top() {
    let mut manager = stack(vec![Scene::new("a")]);
    manager.apply_transition(StateTransition::Push(Scene::new("b")));
    assert_eq!(manager.len(), 2);
    assert_eq!(drawn(&mut manager), text(&["draw b"]));
}

#[test]
fn update_on_an_empty_stack_asks_to_quit() {
    let mut manager = stack(vec![Scene::new("a")]);
    manager.apply_transition(StateTransition::Pop);
    let mut log = Vec::new();
    assert_eq!(manager.update(&mut log), Ok(0));
    assert_eq!(log, text(&[]));
    assert!(manager.is_empty());
}

#[test]
fn update_stops_below_the_first_state_that_says_so() {
    let mut manager = stack(vec![
        Scene::new("a"),
        Scene::new("b"),
        Scene::new("c").update_below(),
        Scene::new("d").update_below(),
    ]);
    let mut log = Vec::new();
    assert_eq!(manager.update(&mut log), Ok(3));
    assert_eq!(log, text(&["update d", "update c", "update b"]));
}

#[test]
fn update_of_an_exclusive_top_updates_it_alone() {
    let mut manager = stack(vec![Scene::new("a").update_below(), Scene::new("b")]);
    let mut log = Vec::new();
    assert_eq!(manager.update(&mut log), Ok(1));
    assert_eq!(log, text(&["update b"]));
}

#[test]
fn update_reaches_the_bottom_when_every_state_passes_it_on() {
    let mut manager = stack(vec![Scene::new("a").update_below(), Scene::new("b").update_below()]);
    let mut log = Vec::new();
    assert_eq!(manager.update(&mut log), Ok(2));
    assert_eq!(log, text(&["update b", "update a"]));
}

#[test]
fn update_applies_the_transition_of_the_top() {
    let mut manager = stack(vec![Scene::new("a").wish(Wish::Push("x")), Scene::new("b").wish(Wish::Pop)]);
    let mut log = Vec::new();
    assert_eq!(manager.update(&mut log), Ok(1));
    assert_eq!(manager.len(), 1);
    assert_eq!(manager.update(&mut log), Ok(1));
    assert_eq!(manager.len(), 2);
    assert_eq!(log, text(&["update b", "update a"]));
    assert_eq!(drawn(&mut manager), text(&["draw x"]));
}

#[test]
fn update_with_pop_n_saturates() {
    let mut manager = stack(vec![Scene::new("a"), Scene::new("b").wish(Wish::PopN(7))]);
    let mut log = Vec::new();
    assert_eq!(manager.update(&mut log), Ok(1));
    assert!(manager.is_empty());
    assert_eq!(manager.update(&mut log), Ok(0));
}

#[test]
fn update_with_no_transition_keeps_the_stack() {
    let mut manager = stack(vec![Scene::new("a"), Scene::new("b")]);
    let mut log = Vec::new();
    assert_eq!(manager.update(&mut log), Ok(1));
    assert_eq!(manager.len(), 2);
}

#[test]
fn an_update_error_ends_the_call_before_the_transition() {
    let mut manager = stack(vec![
        Scene::new("a"),
        Scene::new("b").fail_update(),
        Scene::new("c").update_below().wish(Wish::Pop),
    ]);
    let mut log = Vec::new();
    assert_eq!(manager.update(&mut log), Err("b failed".to_string()));
    assert_eq!(log, text(&["update c", "update b"]));
    assert_eq!(manager.len(), 3);
}

#[test]
fn an_opaque_top_is_drawn_alone() {
    let mut manager = stack(vec![Scene::new("a").transparent(), Scene::new("b")]);
    assert_eq!(manager.visible_from(), 1);
    assert_eq!(drawn(&mut manager), text(&["draw b"]));
}

#[test]
fn transparent_states_are_drawn_over_the_states_beneath() {
    let mut manager = stack(vec![
        Scene::new("a"),
        Scene::new("b").transparent(),
        Scene::new("c").transparent(),
    ]);
    assert_eq!(manager.visible_from(), 0);
    assert_eq!(drawn(&mut manager), text(&["draw a", "draw b", "draw c"]));
}

#[test]
fn nothing_beneath_an_opaque_state_is_drawn() {
    let mut manager = stack(vec![
        Scene::new("a").transparent(),
        Scene::new("b"),
        Scene::new("c"),
        Scene::new("d").transparent(),
        Scene::new("e").transparent(),
    ]);
    assert_eq!(manager.visible_from(), 2);
    assert_eq!(drawn(&mut manager), text(&["draw c", "draw d", "draw e"]));
}

#[test]
fn a_stack_of_transparent_states_is_drawn_from_the_bottom() {
    let mut manager = stack(vec![Scene::new("a").transparent(), Scene::new("b").transparent()]);
    assert_eq!(manager.visible_from(), 0);
    let mut log = Vec::new();
    assert_eq!(manager.draw(&mut log), Ok(2));
    assert_eq!(log, text(&["draw a", "draw b"]));
}

#[test]
fn an_empty_stack_draws_nothing() {
    let mut manager = stack(vec![Scene::new("a")]);
    manager.apply_transition(StateTransition::Pop);
    assert_eq!(manager.visible_from(), 0);
    let mut log = Vec::new();
    assert_eq!(manager.draw(&mut log), Ok(0));
    assert_eq!(log, text(&[]));
}

#[test]
fn draw_returns_the_number_of_states_drawn() {
    let mut manager = stack(vec![Scene::new("a"), Scene::new("b"), Scene::new("c").transparent()]);
    let mut log = Vec::new();
    assert_eq!(manager.draw(&mut log), Ok(2));
}

#[test]
fn a_draw_error_ends_the_call() {
    let mut manager = stack(vec![
        Scene::new("a"),
        Scene::new("b").transparent().fail_draw(),
        Scene::new("c").transparent(),
    ]);
    let mut log = Vec::new();
    assert_eq!(manager.draw(&mut log), Err("b failed".to_string()));
    assert_eq!(log, text(&["draw a", "draw b"]));
}

#[test]
fn a_key_event_is_seen_by_the_states_it_reaches_and_by_no_other() {
    let mut manager = stack(vec![
        Scene::new("a").leave_on_key(),
        Scene::new("b").leave_on_key(),
        Scene::new("c").leave_on_key().pass_keys(),
    ]);
    let mut log = Vec::new();
    assert_eq!(manager.key_down_event(&mut log, &key(82)), 2);
    assert_eq!(manager.update(&mut log), Ok(1));
    assert_eq!(manager.len(), 2);
    assert_eq!(manager.update(&mut log), Ok(1));
    assert_eq!(manager.len(), 1);
    assert_eq!(manager.update(&mut log), Ok(1));
    assert_eq!(manager.len(), 1);
    assert_eq!(manager.key_up_event(&mut log, &key(82)), 1);
    assert_eq!(manager.update(&mut log), Ok(1));
    assert!(manager.is_empty());
}

#[test]
fn a_key_event_stops_at_the_first_state_that_keeps_it() {
    let mut manager = stack(vec![
        Scene::new("a").pass_keys(),
        Scene::new("b"),
        Scene::new("c").pass_keys(),
    ]);
    let mut log = Vec::new();
    assert_eq!(manager.key_down_event(&mut log, &key(44)), 2);
    assert_eq!(manager.key_up_event(&mut log, &key(44)), 2);
    assert_eq!(log, text(&[]));
}

#[test]
fn a_key_event_reaches_the_bottom_when_every_state_passes_it_on() {
    let mut manager = stack(vec![Scene::new("a").pass_keys(), Scene::new("b").pass_keys()]);
    let mut log = Vec::new();
    assert_eq!(manager.key_down_event(&mut log, &key(4)), 2);
    assert_eq!(manager.key_up_event(&mut log, &key(4)), 2);
}

#[test]
fn a_key_event_on_an_empty_stack_reaches_nothing() {
    let mut manager = stack(vec![Scene::new("a")]);
    manager.apply_transition(StateTransition::Pop);
    let mut log = Vec::new();
    assert_eq!(manager.key_down_event(&mut log, &key(4)), 0);
    assert_eq!(manager.key_up_event(&mut log, &key(4)), 0);
}

#[test]
fn a_stack_works_on_whatever_context_its_states_name() {
    let mut manager = StateManager::new(Quiet);
    manager.apply_transition(StateTransition::Push(Quiet));
    let mut ticks = 0;
    assert_eq!(manager.key_down_event(&mut ticks, &key(4)), 1);
    assert_eq!(manager.key_up_event(&mut ticks, &key(4)), 1);
    assert_eq!(ticks, 0);
    assert_eq!(manager.update(&mut ticks), Ok(2));
    assert_eq!(ticks, 2);
    assert_eq!(manager.draw(&mut ticks), Ok(2));
    assert_eq!(ticks, 202);
}
