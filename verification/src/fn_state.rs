//! The state the code generator keeps for each function it is generating:
//! a stack of functions, each with the innermost enclosing loops.
//!
//! `F` stands for a function handle, `I` for an instruction handle and `B`
//! for a basic-block handle of the backend.
use vstd::prelude::*;

verus! {

/// Where `break` and `continue` of a loop jump, and the first frame of the
/// loop's body (the deferred statements from the current frame up to it
/// run before the jump).
#[derive(Clone, Copy, Debug)]
pub struct JumpBlock<B> {
    pub first_frame_id: u32,
    pub break_block: B,
    pub continue_block: B,
}

/// The state of one function being generated.
#[derive(Clone, Debug)]
pub struct FnState<F, I, B> {
    pub fn_value: F,
    /// The last stack slot allocated in the function's entry block.
    pub last_alloca: Option<I>,
    /// The loops enclosing the current position, innermost last.
    pub jump_blocks: Vec<JumpBlock<B>>,
}

impl<F, I, B> FnState<F, I, B> {
    /// The state of a function whose generation starts: no slot allocated,
    /// no enclosing loop.
    pub fn new(fn_value: F) -> (r: Self)
        ensures
            r.fn_value == fn_value,
            r.last_alloca is None,
            r.jump_blocks@ == Seq::<JumpBlock<B>>::empty(),
    {
        FnState { fn_value, last_alloca: None, jump_blocks: Vec::new() }
    }
}

/// The functions being generated, innermost (the current one) last.
pub struct FnStack<F, I, B> {
    fn_stack: Vec<FnState<F, I, B>>,
}

impl<F, I, B> FnStack<F, I, B> {
    /// The number of functions being generated.
    pub closed spec fn depth(&self) -> nat {
        self.fn_stack@.len()
    }

    /// The function states, innermost last.
    pub closed spec fn states(&self) -> Seq<FnState<F, I, B>> {
        self.fn_stack@
    }

    /// The enclosing loops of the current function, innermost last.
    pub open spec fn current_jump_blocks(&self) -> Seq<JumpBlock<B>> {
        self.states().last().jump_blocks@
    }

    pub fn new() -> (r: Self)
        ensures
            r.depth() == 0,
    {
        FnStack { fn_stack: Vec::new() }
    }

    /// Starts generating a function, which becomes the current one.
    pub fn enter_fn(&mut self, fn_value: F)
        ensures
            final(self).depth() == old(self).depth() + 1,
            final(self).states().drop_last() == old(self).states(),
            final(self).states().last().fn_value == fn_value,
            final(self).states().last().last_alloca is None,
            final(self).current_jump_blocks() == Seq::<JumpBlock<B>>::empty(),
    {
        self.fn_stack.push(FnState::new(fn_value));
        proof {
            assert(self.fn_stack@.drop_last() =~= old(self).fn_stack@);
        }
    }

    /// Stops generating the current function.
    pub fn leave_fn(&mut self)
        requires
            old(self).depth() > 0,
        ensures
            final(self).states() == old(self).states().drop_last(),
            final(self).depth() == old(self).depth() - 1,
    {
        let _ = self.fn_stack.pop();
    }

    /// The state of the current function.
    pub fn fn_state(&self) -> (r: &FnState<F, I, B>)
        requires
            self.depth() > 0,
        ensures
            *r == self.states().last(),
    {
        let n = self.fn_stack.len();
        &self.fn_stack[n - 1]
    }

    /// The state of the current function, for changing it in place.
    pub fn fn_state_mut(&mut self) -> (r: &mut FnState<F, I, B>)
        requires
            old(self).depth() > 0,
        ensures
            *r == old(self).states().last(),
            final(self).states() == old(self).states().drop_last().push(*final(r)),
    {
        let n = self.fn_stack.len();
        proof {
            assert(old(self).fn_stack@.drop_last().push(old(self).fn_stack@[n - 1]) =~= old(self).fn_stack@);
        }
        let r = &mut self.fn_stack[n - 1];
        r
    }

    /// Enters a loop of the current function.
    pub fn push_jump_block(&mut self, jump_block: JumpBlock<B>)
        requires
            old(self).depth() > 0,
        ensures
            final(self).depth() == old(self).depth(),
            final(self).states().drop_last() == old(self).states().drop_last(),
            final(self).states().last().fn_value == old(self).states().last().fn_value,
            final(self).states().last().last_alloca == old(self).states().last().last_alloca,
            final(self).current_jump_blocks() == old(self).current_jump_blocks().push(jump_block),
            final(self).current_jump_blocks() == apply_jump_op(
                old(self).current_jump_blocks(),
                JumpOp::Push(jump_block),
            ),
    {
        let n = self.fn_stack.len();
        self.fn_stack[n - 1].jump_blocks.push(jump_block);
        proof {
            assert(self.fn_stack@.drop_last() =~= old(self).fn_stack@.drop_last());
        }
    }

    /// Leaves the innermost loop of the current function.
    pub fn pop_jump_block(&mut self)
        requires
            old(self).depth() > 0,
            old(self).current_jump_blocks().len() > 0,
        ensures
            final(self).depth() == old(self).depth(),
            final(self).states().drop_last() == old(self).states().drop_last(),
            final(self).states().last().fn_value == old(self).states().last().fn_value,
            final(self).states().last().last_alloca == old(self).states().last().last_alloca,
            final(self).current_jump_blocks() == old(self).current_jump_blocks().drop_last(),
            final(self).current_jump_blocks() == apply_jump_op(
                old(self).current_jump_blocks(),
                JumpOp::Pop,
            ),
    {
        let n = self.fn_stack.len();
        let _ = self.fn_stack[n - 1].jump_blocks.pop();
        proof {
            assert(self.fn_stack@.drop_last() =~= old(self).fn_stack@.drop_last());
            assert(self.current_jump_blocks() =~= old(self).current_jump_blocks().drop_last());
        }
    }

    /// The innermost loop of the current function.
    pub fn jump_block(&self) -> (r: &JumpBlock<B>)
        requires
            self.depth() > 0,
            self.current_jump_blocks().len() > 0,
        ensures
            *r == self.current_jump_blocks().last(),
    {
        let n = self.fn_stack.len();
        let m = self.fn_stack[n - 1].jump_blocks.len();
        &self.fn_stack[n - 1].jump_blocks[m - 1]
    }

    /// The last stack slot allocated in the current function.
    pub fn get_last_alloca(&self) -> (r: Option<&I>)
        requires
            self.depth() > 0,
        ensures
            match r {
                Some(i) => self.states().last().last_alloca == Some(*i),
                None => self.states().last().last_alloca is None,
            },
    {
        let n = self.fn_stack.len();
        match &self.fn_stack[n - 1].last_alloca {
            Some(i) => Some(i),
            None => None,
        }
    }

    /// Records the last stack slot allocated in the current function.
    pub fn update_last_alloca(&mut self, alloca: I)
        requires
            old(self).depth() > 0,
        ensures
            final(self).depth() == old(self).depth(),
            final(self).states().drop_last() == old(self).states().drop_last(),
            final(self).states().last().fn_value == old(self).states().last().fn_value,
            final(self).states().last().last_alloca == Some(alloca),
            final(self).current_jump_blocks() == old(self).current_jump_blocks(),
    {
        let n = self.fn_stack.len();
        self.fn_stack[n - 1].last_alloca = Some(alloca);
        proof {
            assert(self.fn_stack@.drop_last() =~= old(self).fn_stack@.drop_last());
        }
    }
}

/// A change to the enclosing loops of the current function: entering a
/// loop (`push_jump_block`) or leaving the innermost one (`pop_jump_block`).
pub enum JumpOp<B> {
    Push(JumpBlock<B>),
    Pop,
}

/// The enclosing loops after one change.
pub open spec fn apply_jump_op<B>(blocks: Seq<JumpBlock<B>>, op: JumpOp<B>) -> Seq<JumpBlock<B>> {
    match op {
        JumpOp::Push(jump_block) => blocks.push(jump_block),
        JumpOp::Pop => blocks.drop_last(),
    }
}

/// The enclosing loops after a sequence of changes, made in order.
pub open spec fn apply_jump_ops<B>(blocks: Seq<JumpBlock<B>>, ops: Seq<JumpOp<B>>) -> Seq<
    JumpBlock<B>,
>
    decreases ops.len(),
{
    if ops.len() == 0 {
        blocks
    } else {
        apply_jump_op(apply_jump_ops(blocks, ops.drop_last()), ops.last())
    }
}

/// The number of loops a sequence of changes enters, less the number it
/// leaves.
pub open spec fn jump_ops_depth<B>(ops: Seq<JumpOp<B>>) -> int
    decreases ops.len(),
{
    if ops.len() == 0 {
        0
    } else {
        jump_ops_depth(ops.drop_last()) + match ops.last() {
            JumpOp::Push(_) => 1int,
            JumpOp::Pop => -1int,
        }
    }
}

/// A sequence of changes that leaves every loop it enters and never
/// leaves one it did not enter.
pub open spec fn jump_ops_balanced<B>(ops: Seq<JumpOp<B>>) -> bool {
    &&& jump_ops_depth(ops) == 0
    &&& forall|k: int| 0 <= k <= ops.len() ==> jump_ops_depth(#[trigger] ops.take(k)) >= 0
}

/// Changes that never bring the number of enclosing loops below `floor`
/// leave the `floor` outermost loops as they were.
pub proof fn lemma_jump_ops_keep_outer<B>(blocks: Seq<JumpBlock<B>>, ops: Seq<JumpOp<B>>, floor: int)
    requires
        0 <= floor <= blocks.len(),
        forall|k: int| 0 <= k <= ops.len() ==> blocks.len() + jump_ops_depth(#[trigger] ops.take(k)) >= floor,
    ensures
        apply_jump_ops(blocks, ops).len() == blocks.len() + jump_ops_depth(ops),
        apply_jump_ops(blocks, ops).take(floor) == blocks.take(floor),
    decreases ops.len(),
{
    if ops.len() > 0 {
        let prefix = ops.drop_last();
        assert forall|k: int| 0 <= k <= prefix.len() implies blocks.len() + jump_ops_depth(
            #[trigger] prefix.take(k),
        ) >= floor by {
            assert(prefix.take(k) =~= ops.take(k));
        }
        lemma_jump_ops_keep_outer(blocks, prefix, floor);
        assert(ops.take(ops.len() as int) =~= ops);
        let before = apply_jump_ops(blocks, prefix);
        match ops.last() {
            JumpOp::Push(jump_block) => {
                assert(before.push(jump_block).take(floor) =~= before.take(floor));
            },
            JumpOp::Pop => {
                assert(before.drop_last().take(floor) =~= before.take(floor));
            },
        }
    } else {
        assert(blocks =~= apply_jump_ops(blocks, ops));
    }
}

/// Entering a loop and then making a balanced sequence of changes gives
/// back that loop as the innermost one, with the enclosing loops as they
/// were: `jump_block` then answers the loop pushed last before them.
pub proof fn lemma_balanced_jump_ops_restore<B>(
    blocks: Seq<JumpBlock<B>>,
    jump_block: JumpBlock<B>,
    ops: Seq<JumpOp<B>>,
)
    requires
        jump_ops_balanced(ops),
    ensures
        apply_jump_ops(blocks.push(jump_block), ops) == blocks.push(jump_block),
        apply_jump_ops(blocks.push(jump_block), ops).last() == jump_block,
{
    let start = blocks.push(jump_block);
    lemma_jump_ops_keep_outer(start, ops, start.len() as int);
    assert(start.take(start.len() as int) =~= start);
    assert(apply_jump_ops(start, ops) =~= apply_jump_ops(start, ops).take(start.len() as int));
}

/// Loops nest: the loop entered last is the one `break` and `continue`
/// jump to, and leaving it makes the enclosing loop innermost again.
pub proof fn lemma_jump_blocks_nest<B>(blocks: Seq<JumpBlock<B>>, inner: JumpBlock<B>)
    ensures
        blocks.push(inner).last() == inner,
        blocks.push(inner).drop_last() == blocks,
{
    assert(blocks.push(inner).drop_last() =~= blocks);
}

} // verus!
