//! The variable environment of one execution: scope frames, innermost
//! last, and the overlays that are switched on.

use vstd::prelude::*;
use crate::bindings::bind_value;
use crate::bindings::binds;
use crate::bindings::find_binding;
use crate::bindings::lookup;
use crate::bindings::lookup_value;
use crate::bindings::with_binding;
use crate::error::ShellError;
use crate::error::ShellErrorView;
use crate::overlay::Overlay;
use crate::overlay::OverlayView;
use crate::seq_find::first_index;
use crate::seq_find::lemma_first_index;
use crate::seq_find::lemma_first_index_unique;
use crate::bindings::lemma_lookup_with_binding;
use crate::seq_find::lemma_first_index_end;
use crate::seq_find::lemma_first_index_step;
use crate::span::Span;
use crate::value::bindings_view;
use crate::value::clone_bindings;
use crate::value::Value;
use crate::value::ValueView;

verus! {

/// The scope frames of one execution and the overlays that it has switched on.
#[derive(Debug)]
pub struct Stack {
    frames: Vec<Vec<(String, Value)>>,
    active_overlays: Vec<usize>,
}

/// The mathematical content of a [`Stack`].
pub struct StackView {
    /// The frames, outermost first; each binds names to values.
    pub frames: Seq<Seq<(Seq<char>, ValueView)>>,
    /// The ids of the overlays that are switched on, innermost last.
    pub active_overlays: Seq<usize>,
}

/// The contents of a vector of frames.
pub open spec fn frames_view(frames: Vec<Vec<(String, Value)>>) -> Seq<
    Seq<(Seq<char>, ValueView)>,
> {
    Seq::new(frames.len() as nat, |i: int| bindings_view(frames[i]))
}

/// The contents of a vector of overlays.
pub open spec fn overlays_view(overlays: Vec<Overlay>) -> Seq<OverlayView> {
    Seq::new(overlays.len() as nat, |i: int| overlays[i]@)
}

/// The value that the frames give to `name`: that of the innermost frame
/// that binds it.
pub open spec fn resolve_in_frames(
    frames: Seq<Seq<(Seq<char>, ValueView)>>,
    name: Seq<char>,
) -> Option<ValueView>
    decreases frames.len(),
{
    if frames.len() == 0 {
        None
    } else if lookup(frames.last(), name) is Some {
        lookup(frames.last(), name)
    } else {
        resolve_in_frames(frames.drop_last(), name)
    }
}

/// The default value that the overlay with the id `id` declares for `name`;
/// an id that names no overlay declares nothing.
pub open spec fn overlay_var(overlays: Seq<OverlayView>, id: usize, name: Seq<char>) -> Option<
    ValueView,
> {
    if id < overlays.len() {
        overlays[id as int].get_var(name)
    } else {
        None
    }
}

/// The id of the command that the overlay with the id `id` declares under
/// `name`; an id that names no overlay declares nothing.
pub open spec fn overlay_decl(overlays: Seq<OverlayView>, id: usize, name: Seq<char>) -> Option<
    usize,
> {
    if id < overlays.len() {
        overlays[id as int].get_decl(name)
    } else {
        None
    }
}

/// The default value that the active overlays give to `name`: that of the
/// innermost active overlay that declares it.
pub open spec fn resolve_in_overlays(
    overlays: Seq<OverlayView>,
    active: Seq<usize>,
    name: Seq<char>,
) -> Option<ValueView>
    decreases active.len(),
{
    if active.len() == 0 {
        None
    } else if overlay_var(overlays, active.last(), name) is Some {
        overlay_var(overlays, active.last(), name)
    } else {
        resolve_in_overlays(overlays, active.drop_last(), name)
    }
}

/// The id of the command that the active overlays give to `name`: that of
/// the innermost active overlay that declares it.
pub open spec fn resolve_decl(
    overlays: Seq<OverlayView>,
    active: Seq<usize>,
    name: Seq<char>,
) -> Option<usize>
    decreases active.len(),
{
    if active.len() == 0 {
        None
    } else if overlay_decl(overlays, active.last(), name) is Some {
        overlay_decl(overlays, active.last(), name)
    } else {
        resolve_decl(overlays, active.drop_last(), name)
    }
}

/// The condition that an id is `id`.
pub open spec fn is_id(id: usize) -> spec_fn(usize) -> bool {
    |x: usize| x == id
}

/// The ids without the first occurrence of `id`.
pub open spec fn without(active: Seq<usize>, id: usize) -> Seq<usize> {
    match first_index(active, is_id(id)) {
        Some(k) => active.remove(k as int),
        None => active,
    }
}

impl StackView {
    /// A stack has its outermost frame at all times, and no overlay is
    /// switched on twice.
    pub open spec fn wf(self) -> bool {
        &&& self.frames.len() >= 1
        &&& self.active_overlays.no_duplicates()
    }

    /// The value of the variable `name`: the frames are asked first,
    /// innermost first, then the active overlays, innermost first.
    pub open spec fn resolve(self, overlays: Seq<OverlayView>, name: Seq<char>) -> Option<
        ValueView,
    > {
        if resolve_in_frames(self.frames, name) is Some {
            resolve_in_frames(self.frames, name)
        } else {
            resolve_in_overlays(overlays, self.active_overlays, name)
        }
    }

    /// The id of the command `name`, as the active overlays declare it.
    pub open spec fn find_decl(self, overlays: Seq<OverlayView>, name: Seq<char>) -> Option<usize> {
        resolve_decl(overlays, self.active_overlays, name)
    }

    /// The stack with a new, empty innermost frame.
    pub open spec fn push_frame(self) -> StackView {
        StackView { frames: self.frames.push(Seq::empty()), ..self }
    }

    /// The stack without its innermost frame; the outermost frame stays.
    pub open spec fn pop_frame(self) -> StackView {
        if self.frames.len() > 1 {
            StackView { frames: self.frames.drop_last(), ..self }
        } else {
            self
        }
    }

    /// The stack after `name` is bound to `value` in the innermost frame.
    pub open spec fn add_var(self, name: Seq<char>, value: ValueView) -> StackView {
        StackView {
            frames: self.frames.update(
                self.frames.len() - 1,
                with_binding(self.frames.last(), name, value),
            ),
            ..self
        }
    }

    /// Whether the innermost frame binds `name`.
    pub open spec fn binds_innermost(self, name: Seq<char>) -> bool {
        lookup(self.frames.last(), name) is Some
    }

    /// The stack after the overlay `id` is switched on: it is the innermost
    /// active overlay, whether it was active before or not.
    pub open spec fn activate_overlay(self, id: usize) -> StackView {
        StackView { active_overlays: without(self.active_overlays, id).push(id), ..self }
    }

    /// The stack after the overlay `id` is switched off.
    pub open spec fn deactivate_overlay(self, id: usize) -> StackView {
        StackView { active_overlays: without(self.active_overlays, id), ..self }
    }
}

impl View for Stack {
    type V = StackView;

    closed spec fn view(&self) -> StackView {
        StackView { frames: frames_view(self.frames), active_overlays: self.active_overlays@ }
    }
}

/// Taking an id out of ids that hold it at most once leaves ids that do
/// not hold it, holds every other id where it was, and keeps the last id
/// last where that is another id.
pub proof fn lemma_without(active: Seq<usize>, id: usize)
    requires
        active.no_duplicates(),
    ensures
        without(active, id).no_duplicates(),
        !without(active, id).contains(id),
        forall|x: usize| x != id ==> (without(active, id).contains(x) <==> active.contains(x)),
        active.len() > 0 && active.last() != id ==> without(active, id).len() > 0 && without(
            active,
            id,
        ).last() == active.last(),
        !active.contains(id) ==> without(active, id) == active,
{
    let after = without(active, id);
    lemma_first_index(active, is_id(id));
    match first_index(active, is_id(id)) {
        Some(k) => {
            assert forall|i: int, j: int| 0 <= i < j < after.len() implies after[i] != after[j] by {
                let from_i = if i < k {
                    i
                } else {
                    i + 1
                };
                let from_j = if j < k {
                    j
                } else {
                    j + 1
                };
                assert(after[i] == active[from_i] && after[j] == active[from_j]);
            }
            assert forall|i: int| 0 <= i < after.len() implies after[i] != id by {
                let from_i = if i < k {
                    i
                } else {
                    i + 1
                };
                assert(after[i] == active[from_i]);
                assert(active[k as int] == id);
            }
            assert forall|x: usize| x != id implies (after.contains(x) <==> active.contains(x)) by {
                if after.contains(x) {
                    let i = choose|i: int| 0 <= i < after.len() && after[i] == x;
                    let from_i = if i < k {
                        i
                    } else {
                        i + 1
                    };
                    assert(active[from_i] == x);
                }
                if active.contains(x) {
                    let i = choose|i: int| 0 <= i < active.len() && active[i] == x;
                    let to_i = if i < k {
                        i
                    } else {
                        i - 1
                    };
                    assert(after[to_i] == x);
                }
            }
            if active.last() != id {
                assert(after[after.len() - 1] == active[active.len() - 1]);
            }
        },
        None => {
            assert forall|i: int| 0 <= i < after.len() implies after[i] != id by {
                assert(!is_id(id)(active[i]));
            }
        },
    }
}

/// A name that has just been bound has the value it was bound to, and
/// every other name has the value it had.
pub proof fn lemma_add_var_resolves(
    stack: StackView,
    overlays: Seq<OverlayView>,
    name: Seq<char>,
    value: ValueView,
    other: Seq<char>,
)
    requires
        stack.wf(),
    ensures
        stack.add_var(name, value).resolve(overlays, name) == Some(value),
        other != name ==> stack.add_var(name, value).resolve(overlays, other) == stack.resolve(
            overlays,
            other,
        ),
{
    let after = stack.add_var(name, value);
    lemma_lookup_with_binding(stack.frames.last(), name, value, other);
    assert(after.frames.last() == with_binding(stack.frames.last(), name, value));
    assert(after.frames.drop_last() =~= stack.frames.drop_last());
}

/// A variable bound inside a frame is gone when the frame is closed: the
/// stack is as it was before the frame was opened, so every name has the
/// value that it had then, if it had one.
pub proof fn lemma_frame_scope(
    stack: StackView,
    overlays: Seq<OverlayView>,
    name: Seq<char>,
    value: ValueView,
    other: Seq<char>,
)
    requires
        stack.wf(),
    ensures
        stack.push_frame().add_var(name, value).pop_frame() == stack,
        stack.push_frame().add_var(name, value).pop_frame().resolve(overlays, other)
            == stack.resolve(overlays, other),
{
    let inner = stack.push_frame().add_var(name, value);
    assert(inner.frames.drop_last() =~= stack.frames);
}

/// A variable bound in an outer frame is visible inside an inner frame
/// that binds another name, and after that frame is closed.
pub proof fn lemma_outer_var_visible(
    stack: StackView,
    overlays: Seq<OverlayView>,
    outer: Seq<char>,
    outer_value: ValueView,
    inner: Seq<char>,
    inner_value: ValueView,
)
    requires
        stack.wf(),
        inner != outer,
    ensures
        stack.add_var(outer, outer_value).push_frame().add_var(inner, inner_value).resolve(
            overlays,
            outer,
        ) == Some(outer_value),
        stack.add_var(outer, outer_value).push_frame().add_var(inner, inner_value).pop_frame()
            .resolve(overlays, outer) == Some(outer_value),
{
    let bound = stack.add_var(outer, outer_value);
    lemma_add_var_resolves(stack, overlays, outer, outer_value, outer);
    let opened = bound.push_frame();
    assert(opened.frames.drop_last() =~= bound.frames);
    assert(lookup(opened.frames.last(), outer) is None);
    assert(opened.resolve(overlays, outer) == Some(outer_value));
    lemma_add_var_resolves(opened, overlays, inner, inner_value, outer);
    lemma_frame_scope(bound, overlays, inner, inner_value, outer);
}

/// The overlay that was switched on last decides what a command name
/// means, and once it is switched off the one before it decides again.
pub proof fn lemma_overlay_resolution(
    stack: StackView,
    overlays: Seq<OverlayView>,
    first: usize,
    second: usize,
    name: Seq<char>,
)
    requires
        stack.wf(),
        first != second,
        first < overlays.len(),
        second < overlays.len(),
        overlays[first as int].get_decl(name) is Some,
        overlays[second as int].get_decl(name) is Some,
    ensures
        stack.activate_overlay(first).activate_overlay(second).find_decl(overlays, name)
            == overlays[second as int].get_decl(name),
        stack.activate_overlay(first).activate_overlay(second).deactivate_overlay(second)
            .find_decl(overlays, name) == overlays[first as int].get_decl(name),
{
    let one = stack.activate_overlay(first);
    let two = one.activate_overlay(second);
    let back = two.deactivate_overlay(second);
    lemma_without(stack.active_overlays, first);
    lemma_without(one.active_overlays, second);
    let kept = without(one.active_overlays, second);
    assert(two.active_overlays == kept.push(second));
    assert(one.active_overlays.last() == first);
    assert(kept.last() == first);
    assert forall|j: int| 0 <= j < kept.len() implies !is_id(second)(kept.push(second)[j]) by {
        assert(kept.contains(kept[j]));
    }
    lemma_first_index_unique(kept.push(second), kept.len() as int, is_id(second));
    assert(back.active_overlays =~= kept);
}

/// The failure that says that no frame and no active overlay knows `name`.
pub open spec fn variable_not_found(name: Seq<char>, span: Span) -> ShellErrorView {
    ShellErrorView::VariableNotFound { name, span }
}

impl Clone for Stack {
    fn clone(&self) -> (r: Self)
        ensures
            r@ == self@,
    {
        let mut frames: Vec<Vec<(String, Value)>> = Vec::new();
        let mut i: usize = 0;
        while i < self.frames.len()
            invariant
                i <= self.frames.len(),
                frames.len() == i,
                forall|j: int|
                    0 <= j < i ==> bindings_view(#[trigger] frames[j]) == bindings_view(
                        self.frames[j],
                    ),
            decreases self.frames.len() - i,
        {
            frames.push(clone_bindings(&self.frames[i]));
            i = i + 1;
        }
        assert(frames_view(frames) =~= frames_view(self.frames));
        Stack { frames, active_overlays: self.active_overlays.clone() }
    }
}

impl Stack {
    /// A stack with one empty frame and no active overlay.
    pub fn new() -> (stack: Stack)
        ensures
            stack@ == (StackView { frames: seq![Seq::empty()], active_overlays: Seq::empty() }),
            stack@.wf(),
    {
        let mut frames: Vec<Vec<(String, Value)>> = Vec::new();
        let frame: Vec<(String, Value)> = Vec::new();
        assert(bindings_view(frame) =~= Seq::empty());
        frames.push(frame);
        let stack = Stack { frames, active_overlays: Vec::new() };
        assert(stack@.frames =~= seq![Seq::empty()]);
        stack
    }

    /// The number of frames.
    pub fn depth(&self) -> (n: usize)
        ensures
            n == self@.frames.len(),
    {
        self.frames.len()
    }

    /// Opens a new innermost frame.
    pub fn push_frame(&mut self)
        requires
            old(self)@.wf(),
        ensures
            final(self)@ == old(self)@.push_frame(),
            final(self)@.wf(),
    {
        let frame: Vec<(String, Value)> = Vec::new();
        assert(bindings_view(frame) =~= Seq::empty());
        self.frames.push(frame);
        assert(self@.frames =~= old(self)@.frames.push(Seq::empty()));
    }

    /// Closes the innermost frame, with every binding made in it. The
    /// outermost frame is never closed; the result says whether a frame was.
    pub fn pop_frame(&mut self) -> (popped: bool)
        requires
            old(self)@.wf(),
        ensures
            final(self)@ == old(self)@.pop_frame(),
            final(self)@.wf(),
            popped == (old(self)@.frames.len() > 1),
    {
        if self.frames.len() > 1 {
            self.frames.pop();
            assert(self@.frames =~= old(self)@.frames.drop_last());
            true
        } else {
            false
        }
    }

    /// Binds `name` to `value` in the innermost frame; outer frames stay as
    /// they are.
    pub fn add_var(&mut self, name: &str, value: Value)
        requires
            old(self)@.wf(),
        ensures
            final(self)@ == old(self)@.add_var(name@, value@),
            final(self)@.wf(),
    {
        let mut top = match self.frames.pop() {
            Some(top) => top,
            None => Vec::new(),
        };
        bind_value(&mut top, name, value);
        self.frames.push(top);
        assert(self@.frames =~= old(self)@.add_var(name@, value@).frames);
    }

    /// Gives a new value to a name that the innermost frame binds. A name
    /// that it does not bind is not found, and the stack stays as it is.
    pub fn set_var(&mut self, name: &str, value: Value, span: Span) -> (r: Result<(), ShellError>)
        requires
            old(self)@.wf(),
        ensures
            final(self)@.wf(),
            old(self)@.binds_innermost(name@) ==> r is Ok && final(self)@ == old(self)@.add_var(
                name@,
                value@,
            ),
            !old(self)@.binds_innermost(name@) ==> (r matches Err(e) && e@ == variable_not_found(
                name@,
                span,
            ) && final(self)@ == old(self)@),
    {
        let last = self.frames.len() - 1;
        if find_binding(&self.frames[last], name).is_some() {
            self.add_var(name, value);
            Ok(())
        } else {
            Err(ShellError::VariableNotFound { name: String::from_str(name), span })
        }
    }

    /// The value of the variable `name`: the frames are asked first,
    /// innermost first, then the active overlays, innermost first.
    pub fn get_var(&self, overlays: &Vec<Overlay>, name: &str, span: Span) -> (r: Result<
        Value,
        ShellError,
    >)
        ensures
            match self@.resolve(overlays_view(*overlays), name@) {
                Some(v) => r matches Ok(found) && found@ == v,
                None => r matches Err(e) && e@ == variable_not_found(name@, span),
            },
    {
        let ghost frames = self@.frames;
        let mut i: usize = self.frames.len();
        assert(frames.subrange(0, i as int) =~= frames);
        while i > 0
            invariant
                i <= self.frames.len(),
                frames == frames_view(self.frames),
                resolve_in_frames(frames, name@) == resolve_in_frames(
                    frames.subrange(0, i as int),
                    name@,
                ),
            decreases i,
        {
            let ghost upto = frames.subrange(0, i as int);
            assert(upto.drop_last() =~= frames.subrange(0, i - 1));
            assert(upto.last() == frames[i - 1]);
            i = i - 1;
            match lookup_value(&self.frames[i], name) {
                Some(v) => {
                    return Ok(v);
                },
                None => {},
            }
        }
        let ghost all = overlays_view(*overlays);
        let ghost active = self@.active_overlays;
        let mut j: usize = self.active_overlays.len();
        assert(active.subrange(0, j as int) =~= active);
        while j > 0
            invariant
                j <= self.active_overlays.len(),
                all == overlays_view(*overlays),
                active == self.active_overlays@,
                resolve_in_frames(self@.frames, name@) is None,
                resolve_in_overlays(all, active, name@) == resolve_in_overlays(
                    all,
                    active.subrange(0, j as int),
                    name@,
                ),
            decreases j,
        {
            let ghost upto = active.subrange(0, j as int);
            assert(upto.drop_last() =~= active.subrange(0, j - 1));
            assert(upto.last() == active[j - 1]);
            j = j - 1;
            let id = self.active_overlays[j];
            if id < overlays.len() {
                match overlays[id].get_var(name) {
                    Some(v) => {
                        return Ok(v);
                    },
                    None => {},
                }
            }
        }
        Err(ShellError::VariableNotFound { name: String::from_str(name), span })
    }

    /// The id of the command `name`, as the innermost active overlay that
    /// declares it gives it.
    pub fn find_decl(&self, overlays: &Vec<Overlay>, name: &str) -> (decl_id: Option<usize>)
        ensures
            decl_id == self@.find_decl(overlays_view(*overlays), name@),
    {
        let ghost all = overlays_view(*overlays);
        let ghost active = self@.active_overlays;
        let mut j: usize = self.active_overlays.len();
        assert(active.subrange(0, j as int) =~= active);
        while j > 0
            invariant
                j <= self.active_overlays.len(),
                all == overlays_view(*overlays),
                active == self.active_overlays@,
                resolve_decl(all, active, name@) == resolve_decl(
                    all,
                    active.subrange(0, j as int),
                    name@,
                ),
            decreases j,
        {
            let ghost upto = active.subrange(0, j as int);
            assert(upto.drop_last() =~= active.subrange(0, j - 1));
            assert(upto.last() == active[j - 1]);
            j = j - 1;
            let id = self.active_overlays[j];
            if id < overlays.len() {
                match overlays[id].get_decl(name) {
                    Some(d) => {
                        return Some(d);
                    },
                    None => {},
                }
            }
        }
        None
    }

    /// Takes the first occurrence of `id` out of the active overlays.
    fn remove_overlay(&mut self, id: usize)
        ensures
            final(self)@ == (StackView {
                active_overlays: without(old(self)@.active_overlays, id),
                ..old(self)@
            }),
            final(self).frames == old(self).frames,
    {
        let ghost active = self@.active_overlays;
        let ghost found = is_id(id);
        let mut i: usize = 0;
        while i < self.active_overlays.len()
            invariant
                i <= self.active_overlays.len(),
                *self == *old(self),
                active == self.active_overlays@,
                found == is_id(id),
                first_index(active.subrange(0, i as int), found) is None,
            decreases self.active_overlays.len() - i,
        {
            proof {
                lemma_first_index_step(active, i as int, found);
            }
            if self.active_overlays[i] == id {
                self.active_overlays.remove(i);
                return ;
            }
            i = i + 1;
        }
        proof {
            lemma_first_index_end(active, found);
        }
    }

    /// Switches the overlay `id` on, as the innermost active overlay. The
    /// contents of the overlay stay where they are: the stack holds the id.
    pub fn activate_overlay(&mut self, id: usize)
        ensures
            final(self)@ == old(self)@.activate_overlay(id),
            old(self)@.wf() ==> final(self)@.wf(),
    {
        self.remove_overlay(id);
        self.active_overlays.push(id);
        proof {
            if old(self)@.wf() {
                lemma_without(old(self)@.active_overlays, id);
            }
        }
    }

    /// Switches the overlay `id` off.
    pub fn deactivate_overlay(&mut self, id: usize)
        ensures
            final(self)@ == old(self)@.deactivate_overlay(id),
            old(self)@.wf() ==> final(self)@.wf(),
    {
        self.remove_overlay(id);
        proof {
            if old(self)@.wf() {
                lemma_without(old(self)@.active_overlays, id);
            }
        }
    }

    /// The ids of the active overlays, innermost last.
    pub fn active_overlays(&self) -> (ids: Vec<usize>)
        ensures
            ids@ == self@.active_overlays,
    {
        self.active_overlays.clone()
    }
}

} // verus!
