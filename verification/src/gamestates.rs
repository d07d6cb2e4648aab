//! The game-state stack: overlapping scene states, where the state on top is updated, asked for
//! a transition, drawn over the states it lets show through, and offered key events first.

pub mod wormhole;

use vstd::prelude::*;

verus! {

/// A key event as the states see it: the device scan code, the key code, the modifier bits and
/// whether the event is a key repeat.
#[derive(Clone, Copy, Debug, PartialEq, Eq, Structural)]
pub struct KeyPress {
    pub scancode: i32,
    pub keycode: i32,
    pub keymod: u16,
    pub repeat: bool,
}

/// What a state asks the stack to do once the states have been updated.
pub enum StateTransition<S> {
    /// Leave the stack as it is.
    Stay,
    /// Remove the state on top.
    Pop,
    /// Remove this many states from the top, or all of them if there are fewer.
    PopN(u8),
    /// Put a new state on top.
    Push(S),
}

/// One scene state of the stack.
///
/// Each method comes with a spec function of the same name and `_spec`, which a state that is
/// itself verified defines to say what the method does. The stack's contracts are stated over
/// them. Left as they are, those of `update`, `draw` and the key events allow anything.
pub trait GameState: Sized {
    /// What `update` and `draw` work on: the window, the clock, the renderer.
    type Context;

    /// What `update` and `draw` fail with.
    type Error;

    /// What `transition` returns. A state that asks for a transition defines this with it.
    open spec fn transition_spec(&self) -> StateTransition<Self> {
        StateTransition::Stay
    }

    /// The transition this state asks for, evaluated once the states have been updated.
    fn transition(&self) -> (t: StateTransition<Self>)
        ensures
            t == self.transition_spec(),
    ;

    /// Whether `update` may turn the state `pre` into `post` and the context `ctx` into
    /// `ctx_after`, and return `r`.
    open spec fn update_spec(
        pre: Self,
        ctx: Self::Context,
        post: Self,
        ctx_after: Self::Context,
        r: Result<bool, Self::Error>,
    ) -> bool {
        true
    }

    /// Advances the state. `Ok(true)` asks for the state beneath to be updated too.
    fn update(&mut self, ctx: &mut Self::Context) -> (r: Result<bool, Self::Error>)
        ensures
            Self::update_spec(*old(self), *old(ctx), *final(self), *final(ctx), r),
    ;

    /// Whether `draw` may turn the state `pre` into `post` and the context `ctx` into
    /// `ctx_after`, and return `r`.
    open spec fn draw_spec(
        pre: Self,
        ctx: Self::Context,
        post: Self,
        ctx_after: Self::Context,
        r: Result<(), Self::Error>,
    ) -> bool {
        true
    }

    /// Renders the state.
    fn draw(&mut self, ctx: &mut Self::Context) -> (r: Result<(), Self::Error>)
        ensures
            Self::draw_spec(*old(self), *old(ctx), *final(self), *final(ctx), r),
    ;

    /// What `draw_previous` returns. A state that lets the state beneath show through defines
    /// this with it.
    open spec fn draw_previous_spec(&self) -> bool {
        false
    }

    /// Whether the state beneath is to be drawn before this one.
    fn draw_previous(&self) -> (b: bool)
        ensures
            b == self.draw_previous_spec(),
    ;

    /// Whether `key_down_event` may turn the state `pre` into `post` and return `pass_on`.
    open spec fn key_down_spec(pre: Self, key: KeyPress, post: Self, pass_on: bool) -> bool {
        true
    }

    /// Offers a key-down event. `true` passes the event on to the state beneath.
    fn key_down_event(&mut self, key: &KeyPress) -> (pass_on: bool)
        ensures
            Self::key_down_spec(*old(self), *key, *final(self), pass_on),
    ;

    /// Whether `key_up_event` may turn the state `pre` into `post` and return `pass_on`.
    open spec fn key_up_spec(pre: Self, key: KeyPress, post: Self, pass_on: bool) -> bool {
        true
    }

    /// Offers a key-up event. `true` passes the event on to the state beneath.
    fn key_up_event(&mut self, key: &KeyPress) -> (pass_on: bool)
        ensures
            Self::key_up_spec(*old(self), *key, *final(self), pass_on),
    ;
}

/// The stack that results from applying `t` to `states`, whose last element is the top.
pub open spec fn after_transition<S>(states: Seq<S>, t: StateTransition<S>) -> Seq<S> {
    match t {
        StateTransition::Stay => states,
        StateTransition::Pop => if states.len() == 0 {
            states
        } else {
            states.drop_last()
        },
        StateTransition::PopN(n) => if n >= states.len() {
            Seq::<S>::empty()
        } else {
            states.take(states.len() - n)
        },
        StateTransition::Push(s) => states.push(s),
    }
}

/// Index of the lowest state that is drawn: the topmost state that lets nothing show through,
/// or the bottom of the stack if every state does. For an empty stack it is 0.
pub open spec fn visible_from<S: GameState>(states: Seq<S>) -> int
    decreases states.len(),
{
    if states.len() <= 1 {
        0
    } else if states.last().draw_previous_spec() {
        visible_from(states.drop_last())
    } else {
        states.len() - 1
    }
}

/// `post` is `pre` with at most its `k` topmost states changed.
pub open spec fn same_below<S>(pre: Seq<S>, post: Seq<S>, k: int) -> bool {
    &&& post.len() == pre.len()
    &&& forall|i: int| 0 <= i < pre.len() - k ==> post[i] == pre[i]
}

/// An update pass over the stack `pre` that leaves it as `post`. The pass goes from the top
/// down: `results[j]` is what the `j`-th state from the top returned, `ctxs[j]` the context it
/// was handed and `ctxs[j + 1]` the context it left. Every state but the last one reached
/// returned `Ok(true)`, and the pass ends above the bottom only where a state returned
/// something else.
pub open spec fn update_pass<S: GameState>(
    pre: Seq<S>,
    post: Seq<S>,
    ctxs: Seq<S::Context>,
    results: Seq<Result<bool, S::Error>>,
) -> bool {
    let n = pre.len() as int;
    let k = results.len() as int;
    &&& 1 <= k <= n
    &&& ctxs.len() == k + 1
    &&& same_below(pre, post, k)
    &&& forall|j: int|
        0 <= j < k ==> S::update_spec(
            pre[n - 1 - j],
            ctxs[j],
            post[n - 1 - j],
            ctxs[j + 1],
            #[trigger] results[j],
        )
    &&& forall|j: int| 0 <= j < k - 1 ==> #[trigger] results[j] == Ok::<bool, S::Error>(true)
    &&& k < n ==> results[k - 1] != Ok::<bool, S::Error>(true)
}

/// What `StateManager::update` does to a stack that is not empty: an update pass, and then,
/// unless the last state reached failed, the transition that the state on top asks for. The
/// result is the error of the state that failed, or the number of states updated.
pub open spec fn updated<S: GameState>(
    pre: Seq<S>,
    ctx: S::Context,
    post: Seq<S>,
    ctx_after: S::Context,
    r: Result<usize, S::Error>,
) -> bool {
    exists|mid: Seq<S>, ctxs: Seq<S::Context>, results: Seq<Result<bool, S::Error>>|
        {
            &&& #[trigger] update_pass(pre, mid, ctxs, results)
            &&& ctxs[0] == ctx
            &&& ctxs.last() == ctx_after
            &&& match results.last() {
                Err(e) => r == Err::<usize, S::Error>(e) && post == mid,
                Ok(_) => r matches Ok(count) && count == results.len() && post
                    == after_transition(mid, mid.last().transition_spec()),
            }
        }
}

/// A draw pass over the stack `pre` that leaves it as `post`. The pass goes from the lowest
/// visible state up: `results[j]` is what the `j`-th state from there returned, `ctxs[j]` the
/// context it was handed and `ctxs[j + 1]` the context it left. Every state but the last one
/// reached returned `Ok`, and the pass ends below the top only where a state failed. No state
/// beneath the lowest visible one is changed.
pub open spec fn draw_pass<S: GameState>(
    pre: Seq<S>,
    post: Seq<S>,
    ctxs: Seq<S::Context>,
    results: Seq<Result<(), S::Error>>,
) -> bool {
    let lo = visible_from(pre);
    let k = results.len() as int;
    &&& 0 <= lo <= pre.len()
    &&& k <= pre.len() - lo
    &&& ctxs.len() == k + 1
    &&& post.len() == pre.len()
    &&& forall|i: int| 0 <= i < pre.len() && !(lo <= i < lo + k) ==> post[i] == pre[i]
    &&& forall|j: int|
        0 <= j < k ==> S::draw_spec(
            pre[lo + j],
            ctxs[j],
            post[lo + j],
            ctxs[j + 1],
            #[trigger] results[j],
        )
    &&& forall|j: int| 0 <= j < k - 1 ==> (#[trigger] results[j]) is Ok
    &&& k < pre.len() - lo ==> k >= 1 && results[k - 1] is Err
}

/// What `StateManager::draw` does: a draw pass. The result is the error of the state that
/// failed, or the number of states drawn.
pub open spec fn drawn<S: GameState>(
    pre: Seq<S>,
    ctx: S::Context,
    post: Seq<S>,
    ctx_after: S::Context,
    r: Result<usize, S::Error>,
) -> bool {
    exists|ctxs: Seq<S::Context>, results: Seq<Result<(), S::Error>>|
        {
            &&& #[trigger] draw_pass(pre, post, ctxs, results)
            &&& ctxs[0] == ctx
            &&& ctxs.last() == ctx_after
            &&& if results.len() > 0 && results.last() is Err {
                r == Err::<usize, S::Error>(results.last()->Err_0)
            } else {
                r matches Ok(count) && count == results.len()
            }
        }
}

/// The delivery of the key event `key` (`down`: a key-down event, else a key-up event) to the
/// stack `pre`, which leaves it as `post`. The event goes from the top down: `results[j]` is
/// what the `j`-th state from the top returned. Every state but the last one reached passed
/// the event on, and the delivery ends above the bottom only where a state did not. On an
/// empty stack no state is reached.
pub open spec fn key_pass<S: GameState>(
    pre: Seq<S>,
    key: KeyPress,
    down: bool,
    post: Seq<S>,
    results: Seq<bool>,
) -> bool {
    let n = pre.len() as int;
    let k = results.len() as int;
    &&& k <= n
    &&& n > 0 ==> k >= 1
    &&& same_below(pre, post, k)
    &&& forall|j: int|
        0 <= j < k ==> if down {
            S::key_down_spec(pre[n - 1 - j], key, post[n - 1 - j], #[trigger] results[j])
        } else {
            S::key_up_spec(pre[n - 1 - j], key, post[n - 1 - j], #[trigger] results[j])
        }
    &&& forall|j: int| 0 <= j < k - 1 ==> #[trigger] results[j]
    &&& 0 < k < n ==> !results[k - 1]
}

/// What the key events of `StateManager` do: a delivery that reaches `offered` states.
pub open spec fn key_offered<S: GameState>(
    pre: Seq<S>,
    key: KeyPress,
    down: bool,
    post: Seq<S>,
    offered: usize,
) -> bool {
    exists|results: Seq<bool>|
        {
            &&& #[trigger] key_pass(pre, key, down, post, results)
            &&& results.len() == offered
        }
}

/// A stack of game states. The last state pushed is on top.
pub struct StateManager<S: GameState> {
    states: Vec<S>,
}

impl<S: GameState> View for StateManager<S> {
    type V = Seq<S>;

    /// The states from the bottom of the stack to its top.
    closed spec fn view(&self) -> Seq<S> {
        self.states@
    }
}

impl<S: GameState> StateManager<S> {
    /// A stack that holds `initial_state` alone.
    pub fn new(initial_state: S) -> (m: Self)
        ensures
            m@ == seq![initial_state],
    {
        let mut states: Vec<S> = Vec::new();
        states.push(initial_state);
        StateManager { states }
    }

    /// Number of states on the stack.
    pub fn len(&self) -> (n: usize)
        ensures
            n == self@.len(),
    {
        self.states.len()
    }

    /// Whether the stack is empty, which ends the game.
    pub fn is_empty(&self) -> (b: bool)
        ensures
            b == (self@.len() == 0),
    {
        self.states.len() == 0
    }

    /// Answers a request to quit. The stack never keeps the game running against one, and is
    /// not changed by it.
    pub fn quit_event(&mut self, ctx: &mut S::Context) -> (keep_running: bool)
        ensures
            !keep_running,
            final(self)@ == old(self)@,
            *final(ctx) == *old(ctx),
    {
        false
    }

    /// Applies a transition to the stack.
    pub fn apply_transition(&mut self, t: StateTransition<S>)
        ensures
            final(self)@ == after_transition(old(self)@, t),
    {
        match t {
            StateTransition::Stay => {},
            StateTransition::Pop => {
                let _ = self.states.pop();
            },
            StateTransition::PopN(n) => {
                let len: usize = self.states.len();
                let count: usize = n as usize;
                let keep: usize = if count >= len {
                    0
                } else {
                    len - count
                };
                self.states.truncate(keep);
            },
            StateTransition::Push(s) => {
                self.states.push(s);
            },
        }
    }

    /// Index of the lowest state that `draw` renders.
    pub fn visible_from(&self) -> (lo: usize)
        ensures
            lo == visible_from(self@),
            lo <= self@.len(),
    {
        let mut i: usize = self.states.len();
        assert(self.states@.take(i as int) =~= self.states@);
        while i > 1 && self.states[i - 1].draw_previous()
            invariant
                i <= self.states@.len(),
                visible_from(self@) == visible_from(self.states@.take(i as int)),
            decreases i,
        {
            assert(self.states@.take(i as int).drop_last() =~= self.states@.take(i - 1));
            i -= 1;
        }
        if i == 0 {
            0
        } else {
            i - 1
        }
    }

    /// Updates the states from the top down, stopping below the first one that does not ask
    /// for the state beneath to be updated, then applies the transition that the state on top
    /// asks for. Returns how many states were updated. The first error of a state ends the
    /// call, before any transition. On an empty stack nothing happens and the result is 0: the
    /// caller is to quit.
    pub fn update(&mut self, ctx: &mut S::Context) -> (r: Result<usize, S::Error>)
        ensures
            old(self)@.len() == 0 ==> r == Ok::<usize, S::Error>(0) && final(self)@ == old(self)@
                && *final(ctx) == *old(ctx),
            old(self)@.len() > 0 ==> updated(
                old(self)@,
                *old(ctx),
                final(self)@,
                *final(ctx),
                r,
            ),
    {
        let n: usize = self.states.len();
        if n == 0 {
            return Ok(0);
        }
        let ghost mut ctxs: Seq<S::Context> = seq![*ctx];
        let ghost mut results: Seq<Result<bool, S::Error>> = Seq::empty();
        let mut i: usize = n;
        loop
            invariant_except_break
                0 < i <= n,
                results.len() == n - i,
                forall|j: int| 0 <= j < results.len() ==> #[trigger] results[j] == Ok::<
                    bool,
                    S::Error,
                >(true),
            invariant
                n > 0,
                n == old(self)@.len(),
                self.states@.len() == n,
                ctxs.len() == results.len() + 1,
                ctxs[0] == *old(ctx),
                ctxs.last() == *ctx,
                forall|j: int| 0 <= j < i ==> self.states@[j] == old(self)@[j],
                forall|j: int|
                    0 <= j < results.len() ==> S::update_spec(
                        old(self)@[n - 1 - j],
                        ctxs[j],
                        self.states@[n - 1 - j],
                        ctxs[j + 1],
                        #[trigger] results[j],
                    ),
            ensures
                i < n,
                update_pass(old(self)@, self.states@, ctxs, results),
                results.last() is Ok,
                results.len() == n - i,
            decreases i,
        {
            i -= 1;
            let result = self.states[i].update(ctx);
            proof {
                ctxs = ctxs.push(*ctx);
                results = results.push(result);
            }
            match result {
                Err(e) => {
                    assert(update_pass(old(self)@, self.states@, ctxs, results));
                    return Err(e);
                },
                Ok(more) => {
                    if !more || i == 0 {
                        break;
                    }
                },
            }
        }
        let t = self.states[n - 1].transition();
        self.apply_transition(t);
        Ok(n - i)
    }

    /// Draws the visible states from the lowest one up to the top and returns how many were
    /// drawn. The states beneath the lowest visible one are not drawn. The first error of a
    /// state ends the call.
    pub fn draw(&mut self, ctx: &mut S::Context) -> (r: Result<usize, S::Error>)
        ensures
            drawn(old(self)@, *old(ctx), final(self)@, *final(ctx), r),
    {
        let n: usize = self.states.len();
        let lo: usize = self.visible_from();
        let ghost mut ctxs: Seq<S::Context> = seq![*ctx];
        let ghost mut results: Seq<Result<(), S::Error>> = Seq::empty();
        let mut i: usize = lo;
        while i < n
            invariant
                lo <= i <= n,
                lo == visible_from(old(self)@),
                n == old(self)@.len(),
                self.states@.len() == n,
                results.len() == i - lo,
                ctxs.len() == results.len() + 1,
                ctxs[0] == *old(ctx),
                ctxs.last() == *ctx,
                forall|j: int| 0 <= j < n && !(lo <= j < i) ==> self.states@[j] == old(self)@[j],
                forall|j: int| 0 <= j < results.len() ==> (#[trigger] results[j]) is Ok,
                forall|j: int|
                    0 <= j < results.len() ==> S::draw_spec(
                        old(self)@[lo + j],
                        ctxs[j],
                        self.states@[lo + j],
                        ctxs[j + 1],
                        #[trigger] results[j],
                    ),
            decreases n - i,
        {
            let result = self.states[i].draw(ctx);
            proof {
                ctxs = ctxs.push(*ctx);
                results = results.push(result);
            }
            match result {
                Err(e) => {
                    assert(draw_pass(old(self)@, self.states@, ctxs, results));
                    return Err(e);
                },
                Ok(_) => {},
            }
            i += 1;
        }
        assert(draw_pass(old(self)@, self.states@, ctxs, results));
        Ok(n - lo)
    }

    /// Offers a key-down event to the states from the top down, stopping below the first one
    /// that does not pass it on. Returns how many states were offered the event.
    pub fn key_down_event(&mut self, ctx: &mut S::Context, key: &KeyPress) -> (offered: usize)
        ensures
            key_offered(old(self)@, *key, true, final(self)@, offered),
            *final(ctx) == *old(ctx),
    {
        let n: usize = self.states.len();
        let ghost mut results: Seq<bool> = Seq::empty();
        let mut i: usize = n;
        while i > 0
            invariant_except_break
                forall|j: int| 0 <= j < results.len() ==> #[trigger] results[j],
            invariant
                i <= n,
                n == old(self)@.len(),
                self.states@.len() == n,
                results.len() == n - i,
                forall|j: int| 0 <= j < i ==> self.states@[j] == old(self)@[j],
                forall|j: int|
                    0 <= j < results.len() ==> S::key_down_spec(
                        old(self)@[n - 1 - j],
                        *key,
                        self.states@[n - 1 - j],
                        #[trigger] results[j],
                    ),
            ensures
                key_pass(old(self)@, *key, true, self.states@, results),
                results.len() == n - i,
                i <= n,
            decreases i,
        {
            i -= 1;
            let pass_on = self.states[i].key_down_event(key);
            proof {
                results = results.push(pass_on);
            }
            if !pass_on {
                break;
            }
        }
        n - i
    }

    /// Offers a key-up event to the states from the top down, stopping below the first one
    /// that does not pass it on. Returns how many states were offered the event.
    pub fn key_up_event(&mut self, ctx: &mut S::Context, key: &KeyPress) -> (offered: usize)
        ensures
            key_offered(old(self)@, *key, false, final(self)@, offered),
            *final(ctx) == *old(ctx),
    {
        let n: usize = self.states.len();
        let ghost mut results: Seq<bool> = Seq::empty();
        let mut i: usize = n;
        while i > 0
            invariant_except_break
                forall|j: int| 0 <= j < results.len() ==> #[trigger] results[j],
            invariant
                i <= n,
                n == old(self)@.len(),
                self.states@.len() == n,
                results.len() == n - i,
                forall|j: int| 0 <= j < i ==> self.states@[j] == old(self)@[j],
                forall|j: int|
                    0 <= j < results.len() ==> S::key_up_spec(
                        old(self)@[n - 1 - j],
                        *key,
                        self.states@[n - 1 - j],
                        #[trigger] results[j],
                    ),
            ensures
                key_pass(old(self)@, *key, false, self.states@, results),
                results.len() == n - i,
                i <= n,
            decreases i,
        {
            i -= 1;
            let pass_on = self.states[i].key_up_event(key);
            proof {
                results = results.push(pass_on);
            }
            if !pass_on {
                break;
            }
        }
        n - i
    }
}

/// State-stack opacity: the lowest state drawn lies at or above every state that lets nothing
/// show through, so no state beneath such a state is drawn. Every state above the lowest one
/// drawn lets the state beneath it show through.
pub proof fn lemma_opaque_state_hides_lower<S: GameState>(states: Seq<S>, k: int)
    requires
        0 <= k < states.len(),
    ensures
        0 <= visible_from(states) < states.len(),
        !states[k].draw_previous_spec() ==> k <= visible_from(states),
        visible_from(states) < k ==> states[k].draw_previous_spec(),
        visible_from(states) > 0 ==> !states[visible_from(states)].draw_previous_spec(),
    decreases states.len(),
{
    if states.len() > 1 && states.last().draw_previous_spec() {
        if k < states.len() - 1 {
            lemma_opaque_state_hides_lower(states.drop_last(), k);
        } else {
            lemma_opaque_state_hides_lower(states.drop_last(), k - 1);
        }
    }
}

} // verus!
