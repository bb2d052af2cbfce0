use vstd::prelude::*;

use crate::error::StateError;
use crate::state::{EventResult, InputEvent, Key, MouseButton, State, UpdateResult};

verus! {

/// What one structural directive does to the stack: `Swap` replaces the
/// slot that produced it, `Push` inserts at the top (index 0), `Pop` removes
/// the topmost state, and the two non-structural results leave the stack as
/// it is.
pub open spec fn apply_spec<S>(stack: Seq<S>, index: int, result: UpdateResult<S>) -> Seq<S>
    recommends
        0 <= index < stack.len(),
{
    match result {
        UpdateResult::LetThrough => stack,
        UpdateResult::Block => stack,
        UpdateResult::Swap(s) => stack.update(index, s),
        UpdateResult::Push(s) => stack.insert(0, s),
        UpdateResult::Pop => stack.remove(0),
    }
}

/// The first `i` states each ran their update and let it through; the
/// states from `i` on have not been touched yet.
pub open spec fn walk_prefix<S: State>(pre: Seq<S>, mid: Seq<S>, i: int) -> bool {
    &&& mid.len() == pre.len()
    &&& forall|j: int|
        0 <= j < i ==> pre[j].update_rel(#[trigger] mid[j], Ok(UpdateResult::LetThrough))
    &&& forall|j: int| i <= j < pre.len() ==> #[trigger] mid[j] == pre[j]
}

/// State `i` stopped the walk: it produced `si` as its own new value and the
/// directive `d`, and the stack became `mid` with slot `i` updated and then
/// the directive applied.
pub open spec fn walk_stop<S: State>(
    pre: Seq<S>,
    mid: Seq<S>,
    i: int,
    post: Seq<S>,
    si: S,
    d: UpdateResult<S>,
) -> bool {
    &&& pre[i].update_rel(si, Ok(d))
    &&& !(d is LetThrough)
    &&& post == apply_spec(mid.update(i, si), i, d)
}

/// A complete successful update walk: some prefix let the update through,
/// and either the walk ran off the bottom of the stack or the next state
/// stopped it with a directive that was applied.
pub open spec fn walk_ends<S: State>(pre: Seq<S>, post: Seq<S>, mid: Seq<S>, i: int) -> bool {
    &&& 0 <= i <= pre.len()
    &&& walk_prefix(pre, mid, i)
    &&& if i == pre.len() {
        post == mid
    } else {
        exists|si: S, d: UpdateResult<S>| walk_stop(pre, mid, i, post, si, d)
    }
}

/// How a successful update call relates the old stack to the new one.
pub open spec fn update_walk_ok<S: State>(pre: Seq<S>, post: Seq<S>) -> bool {
    exists|mid: Seq<S>, i: int| walk_ends(pre, post, mid, i)
}

/// A failed update walk: some prefix let the update through and state `i`'s
/// update returned the error, which aborted the walk with no structural
/// change.
pub open spec fn walk_errs<S: State>(
    pre: Seq<S>,
    post: Seq<S>,
    mid: Seq<S>,
    i: int,
    e: StateError,
) -> bool {
    &&& 0 <= i < pre.len()
    &&& walk_prefix(pre, mid, i)
    &&& exists|si: S| pre[i].update_rel(si, Err(e)) && post == mid.update(i, si)
}

/// How a failed update call relates the old stack to the new one.
pub open spec fn update_walk_err<S: State>(pre: Seq<S>, post: Seq<S>, e: StateError) -> bool {
    exists|mid: Seq<S>, i: int| walk_errs(pre, post, mid, i, e)
}

/// The first `i` states each handled the event and let it through; the
/// states strictly below `i` have not been touched.
pub open spec fn dispatch_prefix<S: State>(pre: Seq<S>, post: Seq<S>, ev: InputEvent, i: int) -> bool {
    &&& forall|j: int|
        0 <= j < i ==> pre[j].event_rel(ev, #[trigger] post[j], Ok(EventResult::LetThrough))
    &&& forall|j: int| i < j < pre.len() ==> #[trigger] post[j] == pre[j]
}

/// A complete input dispatch: the event ran down the stack until a state
/// blocked it, a hook failed (latching the first error), or the bottom was
/// reached.
pub open spec fn dispatch_ends<S: State>(
    pre: Seq<S>,
    post: Seq<S>,
    ev: InputEvent,
    e_pre: Option<StateError>,
    e_post: Option<StateError>,
    i: int,
) -> bool {
    &&& 0 <= i <= pre.len()
    &&& post.len() == pre.len()
    &&& dispatch_prefix(pre, post, ev, i)
    &&& if i == pre.len() {
        e_post == e_pre
    } else {
        ||| (pre[i].event_rel(ev, post[i], Ok(EventResult::Block)) && e_post == e_pre)
        ||| (exists|err: StateError|
            pre[i].event_rel(ev, #[trigger] post[i], Err(err)) && e_post == (
            if e_pre is Some {
                e_pre
            } else {
                Some(err)
            }))
    }
}

/// How one input dispatch relates old stack and error slot to the new ones.
pub open spec fn dispatch_outcome<S: State>(
    pre: Seq<S>,
    post: Seq<S>,
    ev: InputEvent,
    e_pre: Option<StateError>,
    e_post: Option<StateError>,
) -> bool {
    exists|i: int| dispatch_ends(pre, post, ev, e_pre, e_post, i)
}

/// How many states a draw pass renders: the visible prefix runs from the
/// top of the stack (index 0) down to and including the first state that
/// does not let the draw through.
pub open spec fn visible_len<S: State>(stack: Seq<S>) -> int
    decreases stack.len(),
{
    if stack.len() == 0 {
        0
    } else if !stack[0].lets_draw_through() {
        1
    } else {
        1 + visible_len(stack.skip(1))
    }
}

/// A completed draw pass over the visible prefix of `pre`: every state of
/// the prefix drew successfully, and `order` lists the drawn indices in the
/// order they were rendered, deepest first, topmost last.
pub open spec fn draw_pass_ok<S: State>(pre: Seq<S>, post: Seq<S>, order: Seq<usize>) -> bool {
    &&& order.len() == visible_len(pre)
    &&& forall|k: int| 0 <= k < order.len() ==> #[trigger] order[k] as int == visible_len(pre) - 1 - k
    &&& forall|j: int| 0 <= j < visible_len(pre) ==> pre[j].draw_rel(#[trigger] post[j], None)
}

/// A draw pass that failed at position `k` of the visible prefix: the
/// states below it in the pass (deeper in the prefix) had already drawn,
/// the states above it were never reached.
pub open spec fn draw_stops_at<S: State>(pre: Seq<S>, post: Seq<S>, k: int, e: StateError) -> bool {
    &&& 0 <= k < visible_len(pre)
    &&& pre[k].draw_rel(post[k], Some(e))
    &&& forall|j: int| k < j < visible_len(pre) ==> pre[j].draw_rel(#[trigger] post[j], None)
    &&& forall|j: int| 0 <= j < k ==> #[trigger] post[j] == pre[j]
}

/// What one whole draw pass reports: on success the rendered order over
/// the visible prefix, on failure either the empty-stack logic error or the
/// position where a state's draw failed.
pub open spec fn draw_result<S: State>(
    pre: Seq<S>,
    post: Seq<S>,
    r: Result<Vec<usize>, StateError>,
) -> bool {
    match r {
        Ok(order) => pre.len() > 0 && draw_pass_ok(pre, post, order@),
        Err(e) => {
            ||| (pre.len() == 0 && e == StateError::Logic && post == pre)
            ||| (exists|k: int| draw_stops_at(pre, post, k, e))
        },
    }
}

/// Basic facts about the visible prefix: it is non-empty on a non-empty
/// stack, every state strictly above its last member is transparent, and
/// when it ends before the bottom of the stack its last member is opaque.
pub proof fn lemma_visible_len_bounds<S: State>(stack: Seq<S>)
    ensures
        stack.len() == 0 ==> visible_len(stack) == 0,
        stack.len() > 0 ==> 1 <= visible_len(stack) <= stack.len(),
        forall|j: int| 0 <= j < visible_len(stack) - 1 ==> (#[trigger] stack[j]).lets_draw_through(),
        visible_len(stack) < stack.len() ==> !stack[visible_len(stack) - 1].lets_draw_through(),
    decreases stack.len(),
{
    if stack.len() == 0 {
    } else if !stack[0].lets_draw_through() {
    } else {
        lemma_visible_len_bounds(stack.skip(1));
        assert forall|j: int| 0 <= j < visible_len(stack) - 1 implies (
        #[trigger] stack[j]).lets_draw_through() by {
            if j > 0 {
                assert(stack.skip(1)[j - 1] == stack[j]);
            }
        }
        if visible_len(stack) < stack.len() {
            assert(stack.skip(1)[visible_len(stack) - 2] == stack[visible_len(stack) - 1]);
        }
    }
}

/// The visible prefix length is the unique cut that is transparent above
/// and, unless it reaches the bottom, opaque at its last member.
pub proof fn lemma_visible_len_is<S: State>(stack: Seq<S>, c: int)
    requires
        1 <= c <= stack.len(),
        forall|j: int| 0 <= j < c - 1 ==> (#[trigger] stack[j]).lets_draw_through(),
        c < stack.len() ==> !stack[c - 1].lets_draw_through(),
    ensures
        visible_len(stack) == c,
    decreases stack.len(),
{
    if c == 1 {
        if stack.len() > 1 {
            assert(!stack[0].lets_draw_through());
        } else {
            assert(visible_len(stack.skip(1)) == 0);
        }
    } else {
        assert(stack[0].lets_draw_through());
        assert forall|j: int| 0 <= j < c - 2 implies (
        #[trigger] stack.skip(1)[j]).lets_draw_through() by {
            assert(stack.skip(1)[j] == stack[j + 1]);
        }
        if c - 1 < stack.len() - 1 {
            assert(stack.skip(1)[c - 2] == stack[c - 1]);
        }
        lemma_visible_len_is(stack.skip(1), c - 1);
    }
}

/// The state stack runtime: owns every state, fans update, draw and input
/// events out across the stack, applies the structural directives states
/// return, and latches the first error an input hook raises until the host
/// observes it through the next update call.
pub struct MainState<S> {
    state_stack: Vec<S>,
    event_result: Option<StateError>,
}

impl<S: State> MainState<S> {
    /// The stack, topmost state first.
    pub closed spec fn stack(&self) -> Seq<S> {
        self.state_stack@
    }

    /// The latched input-hook error, if any.  Once set it is never cleared:
    /// every subsequent update call returns it.
    pub closed spec fn pending_error(&self) -> Option<StateError> {
        self.event_result
    }

    /// Create the runtime with a single initial state and no latched error.
    pub fn new(initial_state: S) -> (r: MainState<S>)
        ensures
            r.stack() == seq![initial_state],
            r.pending_error() is None,
    {
        let mut state_stack: Vec<S> = Vec::new();
        state_stack.push(initial_state);
        proof {
            assert(state_stack@ =~= seq![initial_state]);
        }
        MainState { state_stack, event_result: None }
    }

    /// How many states the stack holds.
    pub fn len(&self) -> (r: usize)
        ensures
            r == self.stack().len(),
    {
        self.state_stack.len()
    }

    /// Read one state; index 0 is the topmost state.
    pub fn get(&self, index: usize) -> (r: &S)
        requires
            index < self.stack().len(),
        ensures
            *r == self.stack()[index as int],
    {
        &self.state_stack[index]
    }

    /// The latched input-hook error, if any.
    pub fn latched_error(&self) -> (r: Option<StateError>)
        ensures
            r == self.pending_error(),
    {
        self.event_result
    }

    /// Apply one structural directive to the stack, exactly as
    /// [`apply_spec`] says: this is the single place where the stack is
    /// restructured, and it runs only after the update walk has finished
    /// iterating.
    pub fn apply_update_result(&mut self, index: usize, result: UpdateResult<S>)
        requires
            index < old(self).stack().len(),
        ensures
            final(self).stack() == apply_spec(old(self).stack(), index as int, result),
            final(self).pending_error() == old(self).pending_error(),
    {
        match result {
            UpdateResult::LetThrough => {},
            UpdateResult::Block => {},
            UpdateResult::Swap(s) => {
                let slot = &mut self.state_stack[index];
                *slot = s;
            },
            UpdateResult::Push(s) => {
                self.state_stack.insert(0, s);
            },
            UpdateResult::Pop => {
                self.state_stack.remove(0);
            },
        }
    }

    /// Run one frame's update tick.
    ///
    /// If an input hook has latched an error, that error is returned at
    /// once, unchanged and without running any state, and it will be
    /// returned again by every later call.  Otherwise the stack is walked
    /// from the top; each state that answers `LetThrough` passes the tick
    /// on, and the first other answer stops the walk, applying at most one
    /// structural change.  An error from a state's own update aborts the
    /// walk and is returned directly, without being latched.
    pub fn update(&mut self) -> (r: Result<(), StateError>)
        ensures
            final(self).pending_error() == old(self).pending_error(),
            match old(self).pending_error() {
                Some(e) => r == Err::<(), StateError>(e)
                    && final(self).stack() == old(self).stack(),
                None => match r {
                    Ok(_) => update_walk_ok(old(self).stack(), final(self).stack()),
                    Err(e) => update_walk_err(old(self).stack(), final(self).stack(), e),
                },
            },
    {
        if let Some(e) = self.event_result {
            return Err(e);
        }
        let ghost pre: Seq<S> = self.state_stack@;
        let mut i: usize = 0;
        while i < self.state_stack.len()
            invariant
                i <= pre.len(),
                pre == old(self).stack(),
                self.event_result == old(self).pending_error(),
                self.event_result is None,
                walk_prefix(pre, self.state_stack@, i as int),
            decreases pre.len() - i,
        {
            let ghost before: Seq<S> = self.state_stack@;
            let step = self.state_stack[i].update();
            let ghost si: S = self.state_stack@[i as int];
            proof {
                assert(before[i as int] == pre[i as int]);
                assert(self.state_stack@ =~= before.update(i as int, si));
            }
            match step {
                Err(e) => {
                    proof {
                        let mid = before;
                        assert(self.state_stack@ =~= mid.update(i as int, si));
                        assert(walk_errs(pre, self.state_stack@, mid, i as int, e));
                    }
                    return Err(e);
                },
                Ok(UpdateResult::LetThrough) => {
                    i = i + 1;
                },
                Ok(d) => {
                    let ghost mid: Seq<S> = before;
                    let ghost dd: UpdateResult<S> = d;
                    self.apply_update_result(i, d);
                    proof {
                        assert(mid.update(i as int, si) =~= before.update(i as int, si));
                        assert(walk_stop(pre, mid, i as int, self.state_stack@, si, dd));
                        assert(walk_ends(pre, self.state_stack@, mid, i as int));
                    }
                    return Ok(());
                },
            }
        }
        proof {
            let mid = self.state_stack@;
            assert(walk_ends(pre, self.state_stack@, mid, pre.len() as int));
        }
        Ok(())
    }

    /// The number of states a draw pass will render, per [`visible_len`]:
    /// walking down from the top, transparent states extend the prefix and
    /// the first opaque state ends it.
    pub fn visible_count(&self) -> (r: usize)
        ensures
            r as int == visible_len(self.stack()),
    {
        let n: usize = self.state_stack.len();
        if n == 0 {
            return 0;
        }
        let mut count: usize = 1;
        while count < n
            invariant
                1 <= count <= n,
                n == self.stack().len(),
                forall|j: int|
                    0 <= j < count - 1 ==> (#[trigger] self.stack()[j]).lets_draw_through(),
            decreases n - count,
        {
            if !self.state_stack[count - 1].let_through_draw() {
                proof {
                    lemma_visible_len_is(self.stack(), count as int);
                }
                return count;
            }
            count = count + 1;
        }
        proof {
            lemma_visible_len_is(self.stack(), n as int);
        }
        n
    }

    /// Run one frame's draw pass.
    ///
    /// The visible prefix is drawn bottom-to-top, so the topmost state is
    /// rendered last and appears on top; the indices are returned in that
    /// order for the host, which clears the frame before this pass and
    /// presents it afterwards.  An empty stack has nothing to draw and is a
    /// logic error.  A state's draw error aborts the pass at once; it is
    /// returned, not latched.
    pub fn draw(&mut self) -> (r: Result<Vec<usize>, StateError>)
        ensures
            final(self).pending_error() == old(self).pending_error(),
            final(self).stack().len() == old(self).stack().len(),
            forall|j: int|
                visible_len(old(self).stack()) <= j < old(self).stack().len()
                    ==> #[trigger] final(self).stack()[j] == old(self).stack()[j],
            draw_result(old(self).stack(), final(self).stack(), r),
    {
        proof {
            lemma_visible_len_bounds(self.stack());
        }
        if self.state_stack.len() == 0 {
            proof {
                assert(draw_result(
                    self.stack(),
                    self.stack(),
                    Err::<Vec<usize>, StateError>(StateError::Logic),
                ));
            }
            return Err(StateError::Logic);
        }
        let count: usize = self.visible_count();
        let ghost pre: Seq<S> = self.state_stack@;
        let mut order: Vec<usize> = Vec::new();
        let mut k: usize = count;
        while k > 0
            invariant
                k <= count,
                count as int == visible_len(pre),
                count <= pre.len(),
                pre == old(self).stack(),
                self.state_stack@.len() == pre.len(),
                self.event_result == old(self).pending_error(),
                order@.len() == count - k,
                forall|m: int| 0 <= m < order@.len() ==> #[trigger] order@[m] as int == count - 1 - m,
                forall|j: int| 0 <= j < k ==> #[trigger] self.state_stack@[j] == pre[j],
                forall|j: int|
                    count <= j < pre.len() ==> #[trigger] self.state_stack@[j] == pre[j],
                forall|j: int|
                    k <= j < count ==> pre[j].draw_rel(#[trigger] self.state_stack@[j], None),
            decreases k,
        {
            k = k - 1;
            let ghost before: Seq<S> = self.state_stack@;
            let step = self.state_stack[k].draw();
            proof {
                assert(before[k as int] == pre[k as int]);
                assert(self.state_stack@ =~= before.update(
                    k as int,
                    self.state_stack@[k as int],
                ));
            }
            match step {
                Ok(_) => {
                    proof {
                        assert(pre[k as int].draw_rel(self.state_stack@[k as int], None));
                    }
                    order.push(k);
                },
                Err(e) => {
                    proof {
                        assert(pre[k as int].draw_rel(self.state_stack@[k as int], Some(e)));
                        assert(draw_stops_at(pre, self.state_stack@, k as int, e));
                        assert(draw_result(pre, self.state_stack@, Err::<Vec<usize>, StateError>(e)));
                    }
                    return Err(e);
                },
            }
        }
        proof {
            assert(draw_pass_ok(pre, self.state_stack@, order@));
            assert(draw_result(pre, self.state_stack@, Ok::<Vec<usize>, StateError>(order)));
        }
        Ok(order)
    }

    /// Dispatch a mouse motion event from the top of the stack downward,
    /// stopping at the first state that blocks it.  A hook error stops the
    /// walk and is latched unless an earlier error already is.
    pub fn mouse_motion_event(&mut self, x: i32, y: i32, dx: i32, dy: i32)
        ensures
            dispatch_outcome(
                old(self).stack(),
                final(self).stack(),
                (InputEvent::MouseMotion { x, y, dx, dy }),
                old(self).pending_error(),
                final(self).pending_error(),
            ),
    {
        let ghost ev = InputEvent::MouseMotion { x, y, dx, dy };
        let ghost pre: Seq<S> = self.state_stack@;
        let ghost e_pre: Option<StateError> = self.event_result;
        let mut i: usize = 0;
        while i < self.state_stack.len()
            invariant
                ev == (InputEvent::MouseMotion { x, y, dx, dy }),
                i <= pre.len(),
                pre == old(self).stack(),
                e_pre == old(self).pending_error(),
                self.event_result == e_pre,
                self.state_stack@.len() == pre.len(),
                dispatch_prefix(pre, self.state_stack@, ev, i as int),
                forall|j: int|
                    i <= j < pre.len() ==> #[trigger] self.state_stack@[j] == pre[j],
            decreases pre.len() - i,
        {
            let ghost before: Seq<S> = self.state_stack@;
            let step = self.state_stack[i].mouse_motion_event(x, y, dx, dy);
            proof {
                assert(before[i as int] == pre[i as int]);
                assert(self.state_stack@ =~= before.update(
                    i as int,
                    self.state_stack@[i as int],
                ));
            }
            match step {
                Ok(EventResult::LetThrough) => {
                    i = i + 1;
                },
                Ok(EventResult::Block) => {
                    proof {
                        assert(dispatch_ends(
                            pre,
                            self.state_stack@,
                            ev,
                            e_pre,
                            self.event_result,
                            i as int,
                        ));
                    }
                    return ;
                },
                Err(e) => {
                    if self.event_result.is_none() {
                        self.event_result = Some(e);
                    }
                    proof {
                        assert(pre[i as int].event_rel(ev, self.state_stack@[i as int], Err(e)));
                        assert(dispatch_ends(
                            pre,
                            self.state_stack@,
                            ev,
                            e_pre,
                            self.event_result,
                            i as int,
                        ));
                    }
                    return ;
                },
            }
        }
        proof {
            assert(dispatch_ends(
                pre,
                self.state_stack@,
                ev,
                e_pre,
                self.event_result,
                pre.len() as int,
            ));
        }
    }

    /// Dispatch a mouse button press, as [`Self::mouse_motion_event`] does.
    pub fn mouse_button_down_event(&mut self, button: MouseButton, x: i32, y: i32)
        ensures
            dispatch_outcome(
                old(self).stack(),
                final(self).stack(),
                (InputEvent::MouseButtonDown { button, x, y }),
                old(self).pending_error(),
                final(self).pending_error(),
            ),
    {
        let ghost ev = InputEvent::MouseButtonDown { button, x, y };
        let ghost pre: Seq<S> = self.state_stack@;
        let ghost e_pre: Option<StateError> = self.event_result;
        let mut i: usize = 0;
        while i < self.state_stack.len()
            invariant
                ev == (InputEvent::MouseButtonDown { button, x, y }),
                i <= pre.len(),
                pre == old(self).stack(),
                e_pre == old(self).pending_error(),
                self.event_result == e_pre,
                self.state_stack@.len() == pre.len(),
                dispatch_prefix(pre, self.state_stack@, ev, i as int),
                forall|j: int|
                    i <= j < pre.len() ==> #[trigger] self.state_stack@[j] == pre[j],
            decreases pre.len() - i,
        {
            let ghost before: Seq<S> = self.state_stack@;
            let step = self.state_stack[i].mouse_button_down_event(button, x, y);
            proof {
                assert(before[i as int] == pre[i as int]);
                assert(self.state_stack@ =~= before.update(
                    i as int,
                    self.state_stack@[i as int],
                ));
            }
            match step {
                Ok(EventResult::LetThrough) => {
                    i = i + 1;
                },
                Ok(EventResult::Block) => {
                    proof {
                        assert(dispatch_ends(
                            pre,
                            self.state_stack@,
                            ev,
                            e_pre,
                            self.event_result,
                            i as int,
                        ));
                    }
                    return ;
                },
                Err(e) => {
                    if self.event_result.is_none() {
                        self.event_result = Some(e);
                    }
                    proof {
                        assert(pre[i as int].event_rel(ev, self.state_stack@[i as int], Err(e)));
                        assert(dispatch_ends(
                            pre,
                            self.state_stack@,
                            ev,
                            e_pre,
                            self.event_result,
                            i as int,
                        ));
                    }
                    return ;
                },
            }
        }
        proof {
            assert(dispatch_ends(
                pre,
                self.state_stack@,
                ev,
                e_pre,
                self.event_result,
                pre.len() as int,
            ));
        }
    }

    /// Dispatch a mouse button release, as [`Self::mouse_motion_event`]
    /// does.
    pub fn mouse_button_up_event(&mut self, button: MouseButton, x: i32, y: i32)
        ensures
            dispatch_outcome(
                old(self).stack(),
                final(self).stack(),
                (InputEvent::MouseButtonUp { button, x, y }),
                old(self).pending_error(),
                final(self).pending_error(),
            ),
    {
        let ghost ev = InputEvent::MouseButtonUp { button, x, y };
        let ghost pre: Seq<S> = self.state_stack@;
        let ghost e_pre: Option<StateError> = self.event_result;
        let mut i: usize = 0;
        while i < self.state_stack.len()
            invariant
                ev == (InputEvent::MouseButtonUp { button, x, y }),
                i <= pre.len(),
                pre == old(self).stack(),
                e_pre == old(self).pending_error(),
                self.event_result == e_pre,
                self.state_stack@.len() == pre.len(),
                dispatch_prefix(pre, self.state_stack@, ev, i as int),
                forall|j: int|
                    i <= j < pre.len() ==> #[trigger] self.state_stack@[j] == pre[j],
            decreases pre.len() - i,
        {
            let ghost before: Seq<S> = self.state_stack@;
            let step = self.state_stack[i].mouse_button_up_event(button, x, y);
            proof {
                assert(before[i as int] == pre[i as int]);
                assert(self.state_stack@ =~= before.update(
                    i as int,
                    self.state_stack@[i as int],
                ));
            }
            match step {
                Ok(EventResult::LetThrough) => {
                    i = i + 1;
                },
                Ok(EventResult::Block) => {
                    proof {
                        assert(dispatch_ends(
                            pre,
                            self.state_stack@,
                            ev,
                            e_pre,
                            self.event_result,
                            i as int,
                        ));
                    }
                    return ;
                },
                Err(e) => {
                    if self.event_result.is_none() {
                        self.event_result = Some(e);
                    }
                    proof {
                        assert(pre[i as int].event_rel(ev, self.state_stack@[i as int], Err(e)));
                        assert(dispatch_ends(
                            pre,
                            self.state_stack@,
                            ev,
                            e_pre,
                            self.event_result,
                            i as int,
                        ));
                    }
                    return ;
                },
            }
        }
        proof {
            assert(dispatch_ends(
                pre,
                self.state_stack@,
                ev,
                e_pre,
                self.event_result,
                pre.len() as int,
            ));
        }
    }

    /// Dispatch a key release, as [`Self::mouse_motion_event`] does.
    pub fn key_up_event(&mut self, key: Key)
        ensures
            dispatch_outcome(
                old(self).stack(),
                final(self).stack(),
                (InputEvent::KeyUp { key }),
                old(self).pending_error(),
                final(self).pending_error(),
            ),
    {
        let ghost ev = InputEvent::KeyUp { key };
        let ghost pre: Seq<S> = self.state_stack@;
        let ghost e_pre: Option<StateError> = self.event_result;
        let mut i: usize = 0;
        while i < self.state_stack.len()
            invariant
                ev == (InputEvent::KeyUp { key }),
                i <= pre.len(),
                pre == old(self).stack(),
                e_pre == old(self).pending_error(),
                self.event_result == e_pre,
                self.state_stack@.len() == pre.len(),
                dispatch_prefix(pre, self.state_stack@, ev, i as int),
                forall|j: int|
                    i <= j < pre.len() ==> #[trigger] self.state_stack@[j] == pre[j],
            decreases pre.len() - i,
        {
            let ghost before: Seq<S> = self.state_stack@;
            let step = self.state_stack[i].key_up_event(key);
            proof {
                assert(before[i as int] == pre[i as int]);
                assert(self.state_stack@ =~= before.update(
                    i as int,
                    self.state_stack@[i as int],
                ));
            }
            match step {
                Ok(EventResult::LetThrough) => {
                    i = i + 1;
                },
                Ok(EventResult::Block) => {
                    proof {
                        assert(dispatch_ends(
                            pre,
                            self.state_stack@,
                            ev,
                            e_pre,
                            self.event_result,
                            i as int,
                        ));
                    }
                    return ;
                },
                Err(e) => {
                    if self.event_result.is_none() {
                        self.event_result = Some(e);
                    }
                    proof {
                        assert(pre[i as int].event_rel(ev, self.state_stack@[i as int], Err(e)));
                        assert(dispatch_ends(
                            pre,
                            self.state_stack@,
                            ev,
                            e_pre,
                            self.event_result,
                            i as int,
                        ));
                    }
                    return ;
                },
            }
        }
        proof {
            assert(dispatch_ends(
                pre,
                self.state_stack@,
                ev,
                e_pre,
                self.event_result,
                pre.len() as int,
            ));
        }
    }
}

/// On a three-state stack whose top state only ever lets the update through
/// and whose middle state only ever blocks it, an update walk leaves the
/// bottom state untouched: the walk stops at the first state that does not
/// answer `LetThrough`.
pub proof fn lemma_update_walk_stops_at_first_block<S: State>(pre: Seq<S>, post: Seq<S>)
    requires
        pre.len() == 3,
        update_walk_ok(pre, post),
        forall|m: S, r: Result<UpdateResult<S>, StateError>|
            pre[0].update_rel(m, r) ==> r == Ok::<UpdateResult<S>, StateError>(
                UpdateResult::LetThrough,
            ),
        forall|m: S, r: Result<UpdateResult<S>, StateError>|
            pre[1].update_rel(m, r) ==> r == Ok::<UpdateResult<S>, StateError>(UpdateResult::Block),
    ensures
        post.len() == 3,
        post[2] == pre[2],
        pre[0].update_rel(post[0], Ok(UpdateResult::LetThrough)),
        pre[1].update_rel(post[1], Ok(UpdateResult::Block)),
{
    let (mid, i) = choose|mid: Seq<S>, i: int| walk_ends(pre, post, mid, i);
    if i == 0 {
        let (si, d) = choose|si: S, d: UpdateResult<S>| walk_stop(pre, mid, 0, post, si, d);
        assert(false);
    } else if i == 1 {
        let (si, d) = choose|si: S, d: UpdateResult<S>| walk_stop(pre, mid, 1, post, si, d);
        assert(d is Block);
        assert(post =~= mid.update(1, si));
    } else {
        assert(pre[1].update_rel(mid[1], Ok(UpdateResult::LetThrough)));
        assert(false);
    }
}

/// On a two-state stack whose top state only ever answers `Swap`, an update
/// walk replaces the top slot in place: same length, same position, the
/// state below untouched.
pub proof fn lemma_update_swap_replaces_in_place<S: State>(
    pre: Seq<S>,
    post: Seq<S>,
    replacement: S,
)
    requires
        pre.len() == 2,
        update_walk_ok(pre, post),
        forall|m: S, r: Result<UpdateResult<S>, StateError>|
            pre[0].update_rel(m, r) ==> r == Ok::<UpdateResult<S>, StateError>(
                UpdateResult::Swap(replacement),
            ),
    ensures
        post.len() == 2,
        post[0] == replacement,
        post[1] == pre[1],
{
    let (mid, i) = choose|mid: Seq<S>, i: int| walk_ends(pre, post, mid, i);
    if i == 0 {
        let (si, d) = choose|si: S, d: UpdateResult<S>| walk_stop(pre, mid, 0, post, si, d);
        assert(d == UpdateResult::Swap(replacement));
        assert(post =~= mid.update(0, si).update(0, replacement));
    } else {
        assert(pre[0].update_rel(mid[0], Ok(UpdateResult::LetThrough)));
        assert(false);
    }
}

/// On a two-state stack whose top state only ever answers `Push(pushed)`,
/// an update walk inserts `pushed` at the top: the old states keep their
/// order right below it.
pub proof fn lemma_update_push_inserts_at_top<S: State>(pre: Seq<S>, post: Seq<S>, pushed: S)
    requires
        pre.len() == 2,
        update_walk_ok(pre, post),
        forall|m: S, r: Result<UpdateResult<S>, StateError>|
            pre[0].update_rel(m, r) ==> r == Ok::<UpdateResult<S>, StateError>(
                UpdateResult::Push(pushed),
            ),
    ensures
        post.len() == 3,
        post[0] == pushed,
        pre[0].update_rel(post[1], Ok(UpdateResult::Push(pushed))),
        post[2] == pre[1],
{
    let (mid, i) = choose|mid: Seq<S>, i: int| walk_ends(pre, post, mid, i);
    if i == 0 {
        let (si, d) = choose|si: S, d: UpdateResult<S>| walk_stop(pre, mid, 0, post, si, d);
        assert(d == UpdateResult::Push(pushed));
        assert(post =~= mid.update(0, si).insert(0, pushed));
        assert(post[1] == si);
    } else {
        assert(pre[0].update_rel(mid[0], Ok(UpdateResult::LetThrough)));
        assert(false);
    }
}

/// On a two-state stack whose top state only ever answers `Pop`, an update
/// walk removes the topmost state and only it.
pub proof fn lemma_update_pop_removes_top<S: State>(pre: Seq<S>, post: Seq<S>)
    requires
        pre.len() == 2,
        update_walk_ok(pre, post),
        forall|m: S, r: Result<UpdateResult<S>, StateError>|
            pre[0].update_rel(m, r) ==> r == Ok::<UpdateResult<S>, StateError>(UpdateResult::Pop),
    ensures
        post.len() == 1,
        post[0] == pre[1],
{
    let (mid, i) = choose|mid: Seq<S>, i: int| walk_ends(pre, post, mid, i);
    if i == 0 {
        let (si, d) = choose|si: S, d: UpdateResult<S>| walk_stop(pre, mid, 0, post, si, d);
        assert(d is Pop);
        assert(post =~= mid.update(0, si).remove(0));
    } else {
        assert(pre[0].update_rel(mid[0], Ok(UpdateResult::LetThrough)));
        assert(false);
    }
}

/// On a three-state stack whose top state is transparent to drawing and
/// whose middle state is not, the draw pass renders exactly the top two
/// states, the middle one first and the top one last; the bottom state is
/// outside the visible prefix, which the draw contract leaves untouched.
pub proof fn lemma_draw_visible_prefix<S: State>(stack: Seq<S>, post: Seq<S>, order: Seq<usize>)
    requires
        stack.len() == 3,
        stack[0].lets_draw_through(),
        !stack[1].lets_draw_through(),
        draw_pass_ok(stack, post, order),
    ensures
        visible_len(stack) == 2,
        order =~= seq![1usize, 0usize],
        stack[0].draw_rel(post[0], None),
        stack[1].draw_rel(post[1], None),
{
    lemma_visible_len_is(stack, 2);
    assert(order[0] as int == 1);
    assert(order[1] as int == 0);
}

/// On a two-state stack whose top state blocks an event, dispatching that
/// event leaves the state below untouched and the error slot unchanged.
pub proof fn lemma_dispatch_stops_at_block<S: State>(
    pre: Seq<S>,
    post: Seq<S>,
    ev: InputEvent,
    e_pre: Option<StateError>,
    e_post: Option<StateError>,
)
    requires
        pre.len() == 2,
        dispatch_outcome(pre, post, ev, e_pre, e_post),
        forall|m: S, r: Result<EventResult, StateError>|
            pre[0].event_rel(ev, m, r) ==> r == Ok::<EventResult, StateError>(EventResult::Block),
    ensures
        post.len() == 2,
        post[1] == pre[1],
        e_post == e_pre,
        pre[0].event_rel(ev, post[0], Ok(EventResult::Block)),
{
    let i = choose|i: int| dispatch_ends(pre, post, ev, e_pre, e_post, i);
    if i != 0 {
        assert(pre[0].event_rel(ev, post[0], Ok(EventResult::LetThrough)));
        assert(false);
    }
}

/// On a stack whose top state's hook can only fail with `err`, dispatching
/// that event latches exactly `err` when no error was latched before; the
/// update contract then replays it on every later update call.
pub proof fn lemma_dispatch_latches_first_error<S: State>(
    pre: Seq<S>,
    post: Seq<S>,
    ev: InputEvent,
    e_post: Option<StateError>,
    err: StateError,
)
    requires
        pre.len() >= 1,
        dispatch_outcome(pre, post, ev, None, e_post),
        forall|m: S, r: Result<EventResult, StateError>|
            pre[0].event_rel(ev, m, r) ==> r == Err::<EventResult, StateError>(err),
    ensures
        e_post == Some(err),
{
    let i = choose|i: int| dispatch_ends(pre, post, ev, None, e_post, i);
    if i != 0 {
        assert(pre[0].event_rel(ev, post[0], Ok(EventResult::LetThrough)));
        assert(false);
    }
}

} // verus!
