//! Making and running closures: a closure reads the outer variables of its
//! block from the snapshot taken when it was made.

use vstd::prelude::*;
use crate::bindings::binds;
use crate::bindings::lookup;
use crate::bindings::lookup_value;
use crate::error::ShellError;
use crate::overlay::Overlay;
use crate::overlay::OverlayView;
use crate::seq_find::first_index;
use crate::seq_find::lemma_first_index;
use crate::span::Span;
use crate::stack::overlays_view;
use crate::stack::Stack;
use crate::stack::StackView;
use crate::stack::variable_not_found;
use crate::value::bindings_view;
pub use crate::value::CaptureBlock;
pub use crate::value::CaptureBlockView;
use crate::value::clone_strings;
use crate::value::strings_view;
use crate::value::Value;
use crate::value::ValueView;

verus! {

/// A block of code: the id under which the engine holds it, and the names
/// of the outer variables that its body reads.
#[derive(Debug)]
pub struct Block {
    pub block_id: usize,
    pub free_vars: Vec<String>,
}

/// The mathematical content of a [`Block`].
pub struct BlockView {
    pub block_id: usize,
    pub free_vars: Seq<Seq<char>>,
}

impl Clone for Block {
    fn clone(&self) -> (r: Self)
        ensures
            r@ == self@,
    {
        Block { block_id: self.block_id, free_vars: clone_strings(&self.free_vars) }
    }
}

impl View for Block {
    type V = BlockView;

    open spec fn view(&self) -> BlockView {
        BlockView { block_id: self.block_id, free_vars: strings_view(self.free_vars) }
    }
}

/// The values that the names have on the stack, for the names that have
/// one, in the order of the names.
pub open spec fn snapshot(
    stack: StackView,
    overlays: Seq<OverlayView>,
    names: Seq<Seq<char>>,
) -> Seq<(Seq<char>, ValueView)>
    decreases names.len(),
{
    if names.len() == 0 {
        Seq::empty()
    } else {
        let before = snapshot(stack, overlays, names.drop_last());
        match stack.resolve(overlays, names.last()) {
            Some(v) => before.push((names.last(), v)),
            None => before,
        }
    }
}

/// The closure that a block makes on a stack.
pub open spec fn capture(block: BlockView, stack: StackView, overlays: Seq<OverlayView>) -> CaptureBlockView {
    CaptureBlockView {
        block_id: block.block_id,
        captures: snapshot(stack, overlays, block.free_vars),
    }
}

/// The value that `name` has while the closure runs on `stack`: that of the
/// snapshot where the closure captured the name, and else that of the stack.
pub open spec fn resolve_in_closure(
    closure: CaptureBlockView,
    stack: StackView,
    overlays: Seq<OverlayView>,
    name: Seq<char>,
) -> Option<ValueView> {
    if lookup(closure.captures, name) is Some {
        lookup(closure.captures, name)
    } else {
        stack.resolve(overlays, name)
    }
}

/// A snapshot gives each of its names the value that the name had on the
/// stack, and knows no other name.
pub proof fn lemma_snapshot_lookup(
    stack: StackView,
    overlays: Seq<OverlayView>,
    names: Seq<Seq<char>>,
    name: Seq<char>,
)
    ensures
        lookup(snapshot(stack, overlays, names), name) == (if names.contains(name) {
            stack.resolve(overlays, name)
        } else {
            None
        }),
    decreases names.len(),
{
    if names.len() > 0 {
        let front = names.drop_last();
        let before = snapshot(stack, overlays, front);
        let all = snapshot(stack, overlays, names);
        lemma_snapshot_lookup(stack, overlays, front, name);
        assert(names.contains(name) <==> front.contains(name) || names.last() == name) by {
            if front.contains(name) {
                let i = choose|i: int| 0 <= i < front.len() && front[i] == name;
                assert(names[i] == name);
            }
            if names.last() == name {
                assert(names[names.len() - 1] == name);
            }
            if names.contains(name) {
                let i = choose|i: int| 0 <= i < names.len() && names[i] == name;
                if i < front.len() {
                    assert(front[i] == name);
                }
            }
        }
        match stack.resolve(overlays, names.last()) {
            Some(v) => {
                assert(all.drop_last() =~= before);
                if first_index(before, binds(name)) is Some {
                    lemma_first_index(before, binds(name));
                }
            },
            None => {},
        }
    } else {
        assert(!names.contains(name));
    }
}

/// A closure captures by value: a name that the block reads and that the
/// stack knew when the closure was made has, while the closure runs, the
/// value that it had then, whatever the stack holds by then.
pub proof fn lemma_capture_by_value(
    block: BlockView,
    made_on: StackView,
    run_on: StackView,
    overlays: Seq<OverlayView>,
    later_overlays: Seq<OverlayView>,
    name: Seq<char>,
)
    requires
        block.free_vars.contains(name),
        made_on.resolve(overlays, name) is Some,
    ensures
        resolve_in_closure(capture(block, made_on, overlays), run_on, later_overlays, name)
            == made_on.resolve(overlays, name),
{
    lemma_snapshot_lookup(made_on, overlays, block.free_vars, name);
}

/// What is not captured is looked up when the closure runs: a name that
/// the block does not read, or that the stack did not know when the closure
/// was made, has the value that it has on the stack on which the closure
/// runs.
pub proof fn lemma_not_captured_falls_back(
    block: BlockView,
    made_on: StackView,
    run_on: StackView,
    overlays: Seq<OverlayView>,
    later_overlays: Seq<OverlayView>,
    name: Seq<char>,
)
    requires
        !block.free_vars.contains(name) || made_on.resolve(overlays, name) is None,
    ensures
        resolve_in_closure(capture(block, made_on, overlays), run_on, later_overlays, name)
            == run_on.resolve(later_overlays, name),
{
    lemma_snapshot_lookup(made_on, overlays, block.free_vars, name);
}

impl CaptureBlock {
    /// Makes a closure of a block: every outer variable that the block
    /// reads and that the stack knows is copied into the closure.
    pub fn new(block: &Block, stack: &Stack, overlays: &Vec<Overlay>) -> (closure: CaptureBlock)
        ensures
            closure@ == capture(block@, stack@, overlays_view(*overlays)),
    {
        let ghost names = block@.free_vars;
        let mut captures: Vec<(String, Value)> = Vec::new();
        let mut i: usize = 0;
        assert(bindings_view(captures) =~= Seq::empty());
        while i < block.free_vars.len()
            invariant
                i <= block.free_vars.len(),
                names == strings_view(block.free_vars),
                bindings_view(captures) == snapshot(
                    stack@,
                    overlays_view(*overlays),
                    names.subrange(0, i as int),
                ),
            decreases block.free_vars.len() - i,
        {
            let ghost before = bindings_view(captures);
            let name = &block.free_vars[i];
            proof {
                assert(names.subrange(0, i + 1).drop_last() =~= names.subrange(0, i as int));
                assert(names.subrange(0, i + 1).last() == name@);
            }
            match stack.get_var(overlays, name.as_str(), Span::unknown()) {
                Ok(value) => {
                    captures.push((name.clone(), value));
                    assert(bindings_view(captures) =~= before.push((name@, value@)));
                },
                Err(_) => {},
            }
            i = i + 1;
        }
        proof {
            assert(names.subrange(0, i as int) =~= names);
        }
        CaptureBlock { block_id: block.block_id, captures }
    }

    /// The value that `name` has while the closure runs on `stack`: that of
    /// the snapshot where the closure captured the name, and else that of
    /// the stack.
    pub fn resolve(&self, stack: &Stack, overlays: &Vec<Overlay>, name: &str, span: Span) -> (r:
        Result<Value, ShellError>)
        ensures
            match resolve_in_closure(self@, stack@, overlays_view(*overlays), name@) {
                Some(v) => r matches Ok(found) && found@ == v,
                None => r matches Err(e) && e@ == variable_not_found(name@, span),
            },
    {
        match lookup_value(&self.captures, name) {
            Some(v) => Ok(v),
            None => stack.get_var(overlays, name, span),
        }
    }
}

} // verus!
