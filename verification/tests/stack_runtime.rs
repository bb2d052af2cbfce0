use ggsweep::error::StateError;
use ggsweep::state::{EventResult, InputEvent, Key, MouseButton, State, UpdateResult};
use ggsweep::states::main_state::MainState;

/// What a probe state answers from its update hook.
#[derive(Clone, Copy, Debug, PartialEq, Eq)]
enum UpdatePlan {
    Let,
    Block,
    Swap(u32),
    Push(u32),
    Pop,
}

/// What a probe state answers from its input hooks.
#[derive(Clone, Copy, Debug, PartialEq, Eq)]
enum HookPlan {
    Let,
    Block,
    Fail(StateError),
}

/// A scripted state for exercising the stack runtime: it answers as
/// planned and counts how often each kind of hook ran.
#[derive(Clone, Debug)]
struct Probe {
    name: u32,
    update_plan: UpdatePlan,
    hook_plan: HookPlan,
    transparent: bool,
    update_calls: usize,
    draw_calls: usize,
    hook_calls: usize,
}

impl Probe {
    fn new(name: u32, update_plan: UpdatePlan, hook_plan: HookPlan, transparent: bool) -> Probe {
        Probe {
            name,
            update_plan,
            hook_plan,
            transparent,
            update_calls: 0,
            draw_calls: 0,
            hook_calls: 0,
        }
    }

    fn hook_answer(&mut self) -> Result<EventResult, StateError> {
        self.hook_calls += 1;
        match self.hook_plan {
            HookPlan::Let => Ok(EventResult::LetThrough),
            HookPlan::Block => Ok(EventResult::Block),
            HookPlan::Fail(e) => Err(e),
        }
    }
}

impl State for Probe {
    // the ghost relations are erased in compiled code; the probes promise
    // nothing about themselves
    fn lets_draw_through(&self) -> bool {
        self.transparent
    }
    fn update_rel(&self, _post: Self, _r: Result<UpdateResult<Self>, StateError>) -> bool {
        true
    }
    fn draw_rel(&self, _post: Self, _outcome: Option<StateError>) -> bool {
        true
    }
    fn event_rel(
        &self,
        _ev: InputEvent,
        _post: Self,
        _r: Result<EventResult, StateError>,
    ) -> bool {
        true
    }

    fn update(&mut self) -> Result<UpdateResult<Probe>, StateError> {
        self.update_calls += 1;
        match self.update_plan {
            UpdatePlan::Let => Ok(UpdateResult::LetThrough),
            UpdatePlan::Block => Ok(UpdateResult::Block),
            UpdatePlan::Swap(name) => Ok(UpdateResult::Swap(Probe::new(
                name,
                UpdatePlan::Block,
                HookPlan::Block,
                false,
            ))),
            UpdatePlan::Push(name) => Ok(UpdateResult::Push(Probe::new(
                name,
                UpdatePlan::Block,
                HookPlan::Block,
                false,
            ))),
            UpdatePlan::Pop => Ok(UpdateResult::Pop),
        }
    }

    fn draw(&mut self) -> Result<(), StateError> {
        self.draw_calls += 1;
        Ok(())
    }

    fn let_through_draw(&self) -> bool {
        self.transparent
    }

    fn mouse_motion_event(
        &mut self,
        _x: i32,
        _y: i32,
        _dx: i32,
        _dy: i32,
    ) -> Result<EventResult, StateError> {
        self.hook_answer()
    }

    fn mouse_button_down_event(
        &mut self,
        _button: MouseButton,
        _x: i32,
        _y: i32,
    ) -> Result<EventResult, StateError> {
        self.hook_answer()
    }

    fn mouse_button_up_event(
        &mut self,
        _button: MouseButton,
        _x: i32,
        _y: i32,
    ) -> Result<EventResult, StateError> {
        self.hook_answer()
    }

    fn key_up_event(&mut self, _key: Key) -> Result<EventResult, StateError> {
        self.hook_answer()
    }
}

/// Build a stack whose topmost state is the first element of `probes`.
fn stack_of(probes: Vec<Probe>) -> MainState<Probe> {
    let mut iter = probes.into_iter().rev();
    let bottom = iter.next().expect("at least one state");
    let mut stack = MainState::new(bottom);
    for p in iter {
        stack.apply_update_result(0, UpdateResult::Push(p));
    }
    stack
}

#[test]
fn update_walk_stops_on_first_block() {
    let a = Probe::new(0, UpdatePlan::Let, HookPlan::Let, false);
    let b = Probe::new(1, UpdatePlan::Block, HookPlan::Block, false);
    let c = Probe::new(2, UpdatePlan::Block, HookPlan::Block, false);
    let mut stack = stack_of(vec![a, b, c]);
    assert_eq!(stack.update(), Ok(()));
    assert_eq!(stack.len(), 3);
    assert_eq!(stack.get(0).update_calls, 1);
    assert_eq!(stack.get(1).update_calls, 1);
    assert_eq!(stack.get(2).update_calls, 0);
}

#[test]
fn swap_replaces_in_place() {
    let a = Probe::new(0, UpdatePlan::Swap(7), HookPlan::Block, false);
    let b = Probe::new(1, UpdatePlan::Block, HookPlan::Block, false);
    let mut stack = stack_of(vec![a, b]);
    assert_eq!(stack.update(), Ok(()));
    assert_eq!(stack.len(), 2);
    assert_eq!(stack.get(0).name, 7);
    assert_eq!(stack.get(1).name, 1);
    assert_eq!(stack.get(1).update_calls, 0);
}

#[test]
fn push_inserts_at_top() {
    let a = Probe::new(0, UpdatePlan::Push(7), HookPlan::Block, false);
    let b = Probe::new(1, UpdatePlan::Block, HookPlan::Block, false);
    let mut stack = stack_of(vec![a, b]);
    assert_eq!(stack.update(), Ok(()));
    assert_eq!(stack.len(), 3);
    assert_eq!(stack.get(0).name, 7);
    assert_eq!(stack.get(1).name, 0);
    assert_eq!(stack.get(1).update_calls, 1);
    assert_eq!(stack.get(2).name, 1);
    assert_eq!(stack.get(2).update_calls, 0);
}

#[test]
fn pop_removes_topmost() {
    let a = Probe::new(0, UpdatePlan::Pop, HookPlan::Block, false);
    let b = Probe::new(1, UpdatePlan::Block, HookPlan::Block, false);
    let mut stack = stack_of(vec![a, b]);
    assert_eq!(stack.update(), Ok(()));
    assert_eq!(stack.len(), 1);
    assert_eq!(stack.get(0).name, 1);
    assert_eq!(stack.get(0).update_calls, 0);
}

#[test]
fn draw_renders_visible_prefix_bottom_to_top() {
    let a = Probe::new(0, UpdatePlan::Block, HookPlan::Block, true);
    let b = Probe::new(1, UpdatePlan::Block, HookPlan::Block, false);
    let c = Probe::new(2, UpdatePlan::Block, HookPlan::Block, false);
    let mut stack = stack_of(vec![a, b, c]);
    assert_eq!(stack.visible_count(), 2);
    let order = stack.draw().expect("draw succeeds");
    assert_eq!(order, vec![1, 0]);
    assert_eq!(stack.get(0).draw_calls, 1);
    assert_eq!(stack.get(1).draw_calls, 1);
    assert_eq!(stack.get(2).draw_calls, 0);
}

#[test]
fn draw_on_empty_stack_is_a_logic_error() {
    let a = Probe::new(0, UpdatePlan::Block, HookPlan::Block, false);
    let mut stack = stack_of(vec![a]);
    stack.apply_update_result(0, UpdateResult::Pop);
    assert_eq!(stack.len(), 0);
    assert_eq!(stack.draw(), Err(StateError::Logic));
}

#[test]
fn sticky_error_latches_and_replays() {
    let a = Probe::new(0, UpdatePlan::Let, HookPlan::Fail(StateError::Resource), false);
    let b = Probe::new(1, UpdatePlan::Block, HookPlan::Block, false);
    let mut stack = stack_of(vec![a, b]);
    assert_eq!(stack.latched_error(), None);
    stack.mouse_button_down_event(MouseButton::Left, 3, 4);
    assert_eq!(stack.latched_error(), Some(StateError::Resource));
    assert_eq!(stack.update(), Err(StateError::Resource));
    assert_eq!(stack.get(0).update_calls, 0);
    assert_eq!(stack.get(1).update_calls, 0);
    assert_eq!(stack.update(), Err(StateError::Resource));
    assert_eq!(stack.latched_error(), Some(StateError::Resource));
}

#[test]
fn first_latched_error_wins() {
    let a = Probe::new(0, UpdatePlan::Let, HookPlan::Fail(StateError::Resource), false);
    let b = Probe::new(1, UpdatePlan::Block, HookPlan::Block, false);
    let mut stack = stack_of(vec![a, b]);
    stack.mouse_button_down_event(MouseButton::Left, 0, 0);
    assert_eq!(stack.latched_error(), Some(StateError::Resource));
    let a2 = Probe::new(2, UpdatePlan::Let, HookPlan::Fail(StateError::Config), false);
    stack.apply_update_result(0, UpdateResult::Swap(a2));
    stack.mouse_button_up_event(MouseButton::Left, 0, 0);
    assert_eq!(stack.latched_error(), Some(StateError::Resource));
}

#[test]
fn input_dispatch_short_circuits_on_block() {
    let a = Probe::new(0, UpdatePlan::Let, HookPlan::Block, false);
    let b = Probe::new(1, UpdatePlan::Block, HookPlan::Block, false);
    let mut stack = stack_of(vec![a, b]);
    stack.mouse_button_up_event(MouseButton::Left, 10, 10);
    assert_eq!(stack.get(0).hook_calls, 1);
    assert_eq!(stack.get(1).hook_calls, 0);
}

#[test]
fn input_dispatch_passes_through_let_through() {
    let a = Probe::new(0, UpdatePlan::Let, HookPlan::Let, false);
    let b = Probe::new(1, UpdatePlan::Block, HookPlan::Block, false);
    let mut stack = stack_of(vec![a, b]);
    stack.mouse_motion_event(1, 2, 3, 4);
    stack.key_up_event(Key::Return);
    assert_eq!(stack.get(0).hook_calls, 2);
    assert_eq!(stack.get(1).hook_calls, 2);
}

#[test]
fn update_error_propagates_without_latching() {
    #[derive(Clone, Debug)]
    struct Failing;
    impl State for Failing {
        fn lets_draw_through(&self) -> bool {
            false
        }
        fn update_rel(&self, _post: Self, _r: Result<UpdateResult<Self>, StateError>) -> bool {
            true
        }
        fn draw_rel(&self, _post: Self, _outcome: Option<StateError>) -> bool {
            true
        }
        fn event_rel(
            &self,
            _ev: InputEvent,
            _post: Self,
            _r: Result<EventResult, StateError>,
        ) -> bool {
            true
        }
        fn update(&mut self) -> Result<UpdateResult<Failing>, StateError> {
            Err(StateError::Rendering)
        }
        fn draw(&mut self) -> Result<(), StateError> {
            Ok(())
        }
        fn let_through_draw(&self) -> bool {
            false
        }
        fn mouse_motion_event(
            &mut self,
            _x: i32,
            _y: i32,
            _dx: i32,
            _dy: i32,
        ) -> Result<EventResult, StateError> {
            Ok(EventResult::Block)
        }
        fn mouse_button_down_event(
            &mut self,
            _button: MouseButton,
            _x: i32,
            _y: i32,
        ) -> Result<EventResult, StateError> {
            Ok(EventResult::Block)
        }
        fn mouse_button_up_event(
            &mut self,
            _button: MouseButton,
            _x: i32,
            _y: i32,
        ) -> Result<EventResult, StateError> {
            Ok(EventResult::Block)
        }
        fn key_up_event(&mut self, _key: Key) -> Result<EventResult, StateError> {
            Ok(EventResult::Block)
        }
    }
    let mut stack = MainState::new(Failing);
    assert_eq!(stack.update(), Err(StateError::Rendering));
    assert_eq!(stack.latched_error(), None);
    assert_eq!(stack.update(), Err(StateError::Rendering));
}
