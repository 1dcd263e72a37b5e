use vstd::prelude::*;

use crate::geometry::{
    normalize_cursor, normalized_spec, screen_rect_for, screen_rect_spec, CursorPos, PixelPos,
    Ratio, Resolution, ScreenRect,
};
use crate::scene::{Scene, SceneOutcome, SceneSignal};

verus! {

/// Why resolving an outcome stopped short.
#[derive(Clone, Copy, Debug, PartialEq, Eq, Structural)]
pub enum StackError {
    /// A `Pop` came while a single scene was left: there is no parent to
    /// receive its signal, so the bottom scene stays.
    PopOfLastScene,
}

/// Resolution of `so` on `stack` along a given trace: each `Pop` removes the
/// top, the new top takes the `Pop`'s signal, becoming `parents[0]` and
/// returning `nexts[0]`, which is resolved in turn on the rest of the trace. It ends
/// in `result`; `ok` tells whether it ended without a `Pop` of the last scene.
pub open spec fn resolves_via<S: Scene>(
    stack: Seq<S>,
    so: SceneOutcome<S>,
    parents: Seq<S>,
    nexts: Seq<SceneOutcome<S>>,
    result: Seq<S>,
    ok: bool,
) -> bool
    decreases parents.len(),
{
    match so {
        SceneOutcome::Push(s) => parents.len() == 0 && ok && result == stack.push(*s),
        SceneOutcome::Stay => parents.len() == 0 && ok && result == stack,
        SceneOutcome::Pop(signal) => {
            if stack.len() < 2 {
                parents.len() == 0 && !ok && result == stack
            } else {
                &&& parents.len() >= 1
                &&& nexts.len() >= 1
                &&& stack[stack.len() - 2].takes_signal(signal, parents[0], nexts[0])
                &&& resolves_via(
                    stack.drop_last().update(stack.len() - 2, parents[0]),
                    nexts[0],
                    parents.drop_first(),
                    nexts.drop_first(),
                    result,
                    ok,
                )
            }
        },
    }
}

/// `result` is a stack that resolving `so` on `stack` can lead to, whatever
/// the scenes that take signals on the way become and return; `ok` tells whether
/// the resolution finished without a `Pop` of the last scene.
pub open spec fn resolves<S: Scene>(stack: Seq<S>, so: SceneOutcome<S>, result: Seq<S>, ok: bool) -> bool {
    exists|parents: Seq<S>, nexts: Seq<SceneOutcome<S>>| #[trigger]
        resolves_via(stack, so, parents, nexts, result, ok)
}

/// One step of a `Pop`: when the new top, given the signal, may become
/// `parent` and return `next`, resolving `next` is one way to resolve the `Pop`.
pub proof fn lemma_pop_step<S: Scene>(
    stack: Seq<S>,
    signal: SceneSignal,
    parent: S,
    next: SceneOutcome<S>,
    result: Seq<S>,
    ok: bool,
)
    requires
        stack.len() >= 2,
        stack[stack.len() - 2].takes_signal(signal, parent, next),
        resolves(stack.drop_last().update(stack.len() - 2, parent), next, result, ok),
    ensures
        resolves(stack, SceneOutcome::Pop(signal), result, ok),
{
    let (parents, nexts) = choose|parents: Seq<S>, nexts: Seq<SceneOutcome<S>>| #[trigger]
        resolves_via(stack.drop_last().update(stack.len() - 2, parent), next, parents, nexts, result, ok);
    let ps = seq![parent] + parents;
    let ns = seq![next] + nexts;
    assert(ps.drop_first() =~= parents);
    assert(ns.drop_first() =~= nexts);
    assert(ps[0] == parent);
    assert(ns[0] == next);
    assert(resolves_via(stack, SceneOutcome::Pop(signal), ps, ns, result, ok));
}

/// Signal delivery: every resolution of a `Pop` on two or more scenes
/// removes the top, has the scene then on top take exactly the `Pop`'s
/// signal, and goes on by resolving what that scene returned, on the stack
/// where it stands changed and everything below it is as it was.
pub proof fn lemma_pop_delivers_signal<S: Scene>(
    stack: Seq<S>,
    signal: SceneSignal,
    result: Seq<S>,
    ok: bool,
)
    requires
        stack.len() >= 2,
        resolves(stack, SceneOutcome::Pop(signal), result, ok),
    ensures
        exists|parent: S, next: SceneOutcome<S>| #[trigger]
            stack[stack.len() - 2].takes_signal(signal, parent, next) && resolves(
                stack.drop_last().update(stack.len() - 2, parent),
                next,
                result,
                ok,
            ),
{
    let (parents, nexts) = choose|parents: Seq<S>, nexts: Seq<SceneOutcome<S>>| #[trigger]
        resolves_via(stack, SceneOutcome::Pop(signal), parents, nexts, result, ok);
    let inner = stack.drop_last().update(stack.len() - 2, parents[0]);
    assert(resolves_via(inner, nexts[0], parents.drop_first(), nexts.drop_first(), result, ok));
    assert(resolves(inner, nexts[0], result, ok));
    assert(stack[stack.len() - 2].takes_signal(signal, parents[0], nexts[0]));
}

/// Shape of a resolution along a trace with `d` pops on a stack of `n`
/// scenes: the lowest scene reached is at `n - d - 1`, all below it stay as
/// they were, and at most one scene is pushed above it.
proof fn lemma_via_shape<S: Scene>(
    stack: Seq<S>,
    so: SceneOutcome<S>,
    parents: Seq<S>,
    nexts: Seq<SceneOutcome<S>>,
    result: Seq<S>,
    ok: bool,
)
    requires
        stack.len() >= 1,
        resolves_via(stack, so, parents, nexts, result, ok),
    ensures
        parents.len() < stack.len(),
        stack.len() - parents.len() <= result.len() <= stack.len() - parents.len() + 1,
        result.subrange(0, stack.len() - parents.len() - 1) == stack.subrange(
            0,
            stack.len() - parents.len() - 1,
        ),
        parents.len() == 0 ==> result.subrange(0, stack.len() as int) == stack,
        (stack.len() == 1 && so is Pop) ==> (!ok && result == stack),
    decreases parents.len(),
{
    match so {
        SceneOutcome::Push(s) => {
            assert(result.subrange(0, stack.len() as int) =~= stack);
            assert(result.subrange(0, stack.len() - 1) =~= stack.subrange(0, stack.len() - 1));
        },
        SceneOutcome::Stay => {
            assert(result.subrange(0, stack.len() as int) =~= stack);
        },
        SceneOutcome::Pop(_) => {
            if stack.len() < 2 {
                assert(result.subrange(0, stack.len() as int) =~= stack);
            } else {
                let inner = stack.drop_last().update(stack.len() - 2, parents[0]);
                lemma_via_shape(inner, nexts[0], parents.drop_first(), nexts.drop_first(), result, ok);
                let k = stack.len() - parents.len();
                assert(inner.subrange(0, k - 1) =~= stack.subrange(0, k - 1));
            }
        },
    }
}

/// The stack is never empty: resolving any outcome on a non-empty stack
/// leaves at least one scene, and a `Pop` that finds a single scene is
/// rejected with that scene left in place.
pub proof fn lemma_stack_never_empty<S: Scene>(stack: Seq<S>, so: SceneOutcome<S>, result: Seq<S>, ok: bool)
    requires
        stack.len() >= 1,
        resolves(stack, so, result, ok),
    ensures
        result.len() >= 1,
        (stack.len() == 1 && so is Pop) ==> (!ok && result == stack),
{
    let (parents, nexts) = choose|parents: Seq<S>, nexts: Seq<SceneOutcome<S>>| #[trigger]
        resolves_via(stack, so, parents, nexts, result, ok);
    lemma_via_shape(stack, so, parents, nexts, result, ok);
}

/// Dispatch reaches the top only: when the top scene has turned into `top`
/// and returned `so`, resolving `so` keeps every scene below the two topmost
/// of the result as it was, pushes at most one scene, and, unless `so` is a
/// `Pop`, keeps every scene below the top.
pub proof fn lemma_dispatch_reaches_only_top<S: Scene>(
    stack: Seq<S>,
    top: S,
    so: SceneOutcome<S>,
    result: Seq<S>,
    ok: bool,
)
    requires
        stack.len() >= 1,
        resolves(stack.update(stack.len() - 1, top), so, result, ok),
    ensures
        1 <= result.len() <= stack.len() + 1,
        forall|i: int| 0 <= i < result.len() - 2 ==> result[i] == stack[i],
        !(so is Pop) ==> (stack.len() <= result.len() && forall|i: int|
            0 <= i < stack.len() - 1 ==> result[i] == stack[i]),
{
    let entered = stack.update(stack.len() - 1, top);
    let (parents, nexts) = choose|parents: Seq<S>, nexts: Seq<SceneOutcome<S>>| #[trigger]
        resolves_via(entered, so, parents, nexts, result, ok);
    lemma_via_shape(entered, so, parents, nexts, result, ok);
    let k = stack.len() - parents.len();
    assert forall|i: int| 0 <= i < result.len() - 2 implies result[i] == stack[i] by {
        assert(result.subrange(0, k - 1)[i] == entered.subrange(0, k - 1)[i]);
    }
    if !(so is Pop) {
        assert forall|i: int| 0 <= i < stack.len() - 1 implies result[i] == stack[i] by {
            assert(result.subrange(0, stack.len() as int)[i] == entered[i]);
        }
    }
}

/// Drawing is pure: the frame depends on the scenes and the window size
/// alone, so two controllers that agree on those (as one controller does
/// across two draws with no event between) draw the same frame.
pub proof fn lemma_draw_is_pure<S: Scene>(a: Application<S>, b: Application<S>)
    requires
        a.scenes() == b.scenes(),
        a.resolution_spec() == b.resolution_spec(),
    ensures
        a.frame_spec() == b.frame_spec(),
{
}

/// The scene stack controller: it owns the scenes, the cursor and the window
/// size, routes every event and draw to the top scene, and applies outcomes.
pub struct Application<S: Scene> {
    cursor_pos: CursorPos,
    resolution: Resolution,
    scene_stack: Vec<S>,
}

impl<S: Scene> Application<S> {
    /// The scenes, bottom first; the last one is active.
    pub closed spec fn scenes(&self) -> Seq<S> {
        self.scene_stack@
    }

    /// The cursor position last seen, in scene space.
    pub closed spec fn cursor(&self) -> CursorPos {
        self.cursor_pos
    }

    /// The window size last recorded, in pixels.
    pub closed spec fn resolution_spec(&self) -> Resolution {
        self.resolution
    }

    /// What a draw yields: the active scene's frame for the current screen
    /// rectangle.
    pub open spec fn frame_spec(&self) -> (Option<S::Batch>, Option<S::UvBatch>) {
        self.scenes().last().frame(screen_rect_spec(self.resolution_spec()))
    }

    /// The stack is never empty.
    pub open spec fn wf(&self) -> bool {
        self.scenes().len() >= 1
    }

    /// A controller with `initial` as its only scene, for a window of
    /// `xres` by `yres` pixels, and the cursor at the origin.
    pub fn new(initial: S, xres: u32, yres: u32) -> (r: Application<S>)
        ensures
            r.wf(),
            r.scenes() == seq![initial],
            r.resolution_spec() == (Resolution { xres, yres }),
            r.cursor() == (CursorPos { x: Ratio { num: 0, den: 1 }, y: Ratio { num: 0, den: 1 } }),
    {
        let mut scene_stack: Vec<S> = Vec::new();
        scene_stack.push(initial);
        proof {
            assert(scene_stack@ =~= seq![initial]);
        }
        Application {
            cursor_pos: CursorPos { x: Ratio { num: 0, den: 1 }, y: Ratio { num: 0, den: 1 } },
            resolution: Resolution { xres, yres },
            scene_stack,
        }
    }

    /// Number of scenes on the stack.
    pub fn depth(&self) -> (r: usize)
        ensures
            r == self.scenes().len(),
    {
        self.scene_stack.len()
    }

    /// The cursor position last seen, in scene space.
    pub fn cursor_pos(&self) -> (r: CursorPos)
        ensures
            r == self.cursor(),
    {
        self.cursor_pos
    }

    /// The current window size.
    pub fn resolution(&self) -> (r: Resolution)
        ensures
            r == self.resolution_spec(),
    {
        self.resolution
    }

    /// The active scene.
    pub fn top(&self) -> (r: &S)
        requires
            self.wf(),
        ensures
            *r == self.scenes().last(),
    {
        let n = self.scene_stack.len();
        &self.scene_stack[n - 1]
    }

    /// The rectangle handed to scenes: width `xres / yres`, height one.
    pub fn screen_rect(&self) -> (r: ScreenRect)
        ensures
            r == screen_rect_spec(self.resolution_spec()),
    {
        screen_rect_for(self.resolution())
    }

    /// Applies an outcome to the stack. A `Push` puts the scene on top; a
    /// `Pop` removes the top and hands its signal to the new top, whose own
    /// outcome is applied in turn, until one is not a `Pop`. A `Pop` that a
    /// parent returns when it is the last scene leaves it there and returns
    /// the error. A `Pop` handed in directly needs a parent below the top.
    pub fn handle_scene_outcome(&mut self, so: SceneOutcome<S>) -> (r: Result<(), StackError>)
        requires
            old(self).wf(),
            so is Pop ==> old(self).scenes().len() >= 2,
        ensures
            final(self).wf(),
            resolves(old(self).scenes(), so, final(self).scenes(), r is Ok),
            so matches SceneOutcome::Push(s) ==> r is Ok && final(self).scenes() == old(self).scenes().push(*s),
            so is Stay ==> r is Ok && final(self).scenes() == old(self).scenes(),
            r is Err ==> r == Err::<(), StackError>(StackError::PopOfLastScene),
            final(self).cursor() == old(self).cursor(),
            final(self).resolution_spec() == old(self).resolution_spec(),
    {
        self.resolve(so)
    }

    /// The resolution loop behind `handle_scene_outcome` and `handle_event`.
    fn resolve(&mut self, so: SceneOutcome<S>) -> (r: Result<(), StackError>)
        requires
            old(self).wf(),
        ensures
            final(self).wf(),
            resolves(old(self).scenes(), so, final(self).scenes(), r is Ok),
            so matches SceneOutcome::Push(s) ==> r is Ok && final(self).scenes() == old(self).scenes().push(*s),
            so is Stay ==> r is Ok && final(self).scenes() == old(self).scenes(),
            r is Err ==> r == Err::<(), StackError>(StackError::PopOfLastScene),
            final(self).cursor() == old(self).cursor(),
            final(self).resolution_spec() == old(self).resolution_spec(),
    {
        let ghost start = self.scenes();
        let ghost first = so;
        let ghost cursor0 = self.cursor_pos;
        let ghost res0 = self.resolution_spec();
        let mut pending = so;
        loop
            invariant
                start == old(self).scenes(),
                first == so,
                cursor0 == old(self).cursor(),
                res0 == old(self).resolution_spec(),
                self.wf(),
                self.cursor_pos == cursor0,
                self.resolution_spec() == res0,
                forall|res: Seq<S>, ok: bool| #[trigger]
                    resolves(self.scenes(), pending, res, ok) ==> resolves(start, first, res, ok),
            decreases self.scenes().len(),
        {
            let ghost cur = self.scenes();
            let ghost cur_so = pending;
            match pending {
                SceneOutcome::Push(scene) => {
                    self.scene_stack.push(*scene);
                    proof {
                        assert(resolves_via(cur, cur_so, seq![], seq![], self.scenes(), true));
                        assert(resolves(cur, cur_so, self.scenes(), true));
                    }
                    return Ok(());
                },
                SceneOutcome::Stay => {
                    proof {
                        assert(resolves_via(cur, cur_so, seq![], seq![], self.scenes(), true));
                        assert(resolves(cur, cur_so, self.scenes(), true));
                    }
                    return Ok(());
                },
                SceneOutcome::Pop(signal) => {
                    if self.scene_stack.len() < 2 {
                        proof {
                            assert(resolves_via(cur, cur_so, seq![], seq![], self.scenes(), false));
                        assert(resolves(cur, cur_so, self.scenes(), false));
                        }
                        return Err(StackError::PopOfLastScene);
                    }
                    let _child = self.scene_stack.pop();
                    let mut parent = self.scene_stack.pop().unwrap();
                    let ghost parent0 = parent;
                    let ghost sig = signal;
                    proof {
                        assert(parent0 == cur[cur.len() - 2]);
                    }
                    pending = parent.handle_signal(signal);
                    self.scene_stack.push(parent);
                    proof {
                        let next = self.scenes();
                        assert(next =~= cur.drop_last().update(cur.len() - 2, parent));
                        assert forall|res: Seq<S>, ok: bool| #[trigger]
                            resolves(next, pending, res, ok) implies resolves(start, first, res, ok) by {
                            assert(resolves(cur.drop_last().update(cur.len() - 2, parent), pending, res, ok));
                            lemma_pop_step(cur, sig, parent, pending, res, ok);
                        }
                    }
                },
            }
        }
    }

    /// Hands one input event to the active scene and applies its outcome.
    /// A pointer move, given as `moved_to`, first updates the cursor to its
    /// height-normalized position; the scene sees the new cursor.
    pub fn handle_event(&mut self, event: &S::Event, moved_to: Option<PixelPos>) -> (r: Result<(), StackError>)
        requires
            old(self).wf(),
        ensures
            final(self).wf(),
            final(self).cursor() == match moved_to {
                Some(p) => normalized_spec(old(self).resolution_spec(), p),
                None => old(self).cursor(),
            },
            final(self).resolution_spec() == old(self).resolution_spec(),
            exists|top: S, so: SceneOutcome<S>|
                #![trigger old(self).scenes().last().takes_event(*event, screen_rect_spec(old(self).resolution_spec()), final(self).cursor(), top, so)]
                {
                    &&& old(self).scenes().last().takes_event(
                        *event,
                        screen_rect_spec(old(self).resolution_spec()),
                        final(self).cursor(),
                        top,
                        so,
                    )
                    &&& resolves(
                        old(self).scenes().update(old(self).scenes().len() - 1, top),
                        so,
                        final(self).scenes(),
                        r is Ok,
                    )
                },
            r is Err ==> r == Err::<(), StackError>(StackError::PopOfLastScene),
    {
        if let Some(p) = moved_to {
            self.cursor_pos = normalize_cursor(self.resolution(), p);
        }
        let rect = self.screen_rect();
        let ghost before = self.scenes();
        let mut top = self.scene_stack.pop().unwrap();
        let ghost top0 = top;
        let so = top.handle_event(event, rect, self.cursor_pos);
        self.scene_stack.push(top);
        proof {
            assert(self.scenes() =~= before.update(before.len() - 1, top));
        }
        let ghost mid = self.scenes();
        let ghost so0 = so;
        let r = self.resolve(so);
        proof {
            assert(top0 == before.last());
            assert(top0.takes_event(*event, rect, self.cursor(), top, so0));
            assert(resolves(mid, so0, self.scenes(), r is Ok));
        }
        r
    }

    /// Records a new window size; the scenes and the cursor are left alone.
    pub fn resize(&mut self, new_xres: u32, new_yres: u32)
        ensures
            final(self).resolution_spec() == (Resolution { xres: new_xres, yres: new_yres }),
            final(self).scenes() == old(self).scenes(),
            final(self).cursor() == old(self).cursor(),
    {
        self.resolution = Resolution { xres: new_xres, yres: new_yres };
    }

    /// Asks the active scene for the geometry of one frame, with the current
    /// screen rectangle. Nothing on the stack changes.
    pub fn draw(&self) -> (r: (Option<S::Batch>, Option<S::UvBatch>))
        requires
            self.wf(),
        ensures
            r == self.frame_spec(),
    {
        let rect = self.screen_rect();
        self.top().draw(rect)
    }
}


} // verus!
