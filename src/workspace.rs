use vstd::prelude::*;
use crate::stack::{Window, Stack, StackView, delete_from, focus_after_removal, position};

verus! {

/// Integer geometry of a monitor or of a window placement.
#[derive(Clone, Copy, Debug, PartialEq, Eq, Structural)]
pub struct Rectangle {
    pub x: u32,
    pub y: u32,
    pub width: u32,
    pub height: u32,
}

/// A named container of windows with its layout identifier.
#[derive(Clone, Debug)]
pub struct Workspace {
    pub id: u32,
    pub tag: String,
    pub layout: String,
    pub stack: Option<Stack>,
}

pub ghost struct WorkspaceView {
    pub id: nat,
    pub tag: Seq<char>,
    pub layout: Seq<char>,
    pub stack: Option<StackView>,
}

impl View for Workspace {
    type V = WorkspaceView;

    open spec fn view(&self) -> WorkspaceView {
        WorkspaceView {
            id: self.id as nat,
            tag: self.tag@,
            layout: self.layout@,
            stack: match self.stack {
                Some(s) => Some(s@),
                None => None,
            },
        }
    }
}

/// The stack after `w` is inserted above the focus (a new stack when there was none).
pub open spec fn stack_insert(s: Option<StackView>, w: Window) -> Option<StackView> {
    match s {
        Some(t) => Some(StackView { windows: t.windows.insert(t.focus as int, w), focus: t.focus }),
        None => Some(StackView { windows: seq![w], focus: 0 }),
    }
}

/// The stack after `w` is removed; the focus passes to a neighbour.
pub open spec fn stack_delete(s: Option<StackView>, w: Window) -> Option<StackView> {
    match s {
        Some(t) => if !t.windows.contains(w) {
            s
        } else if t.windows.len() == 1 {
            None
        } else {
            let i = position(t.windows, w);
            Some(StackView {
                windows: t.windows.remove(i),
                focus: focus_after_removal(t.focus, i as nat, t.windows.len()),
            })
        },
        None => None,
    }
}

impl WorkspaceView {
    pub open spec fn wf(self) -> bool {
        self.stack matches Some(s) ==> s.wf()
    }

    /// The windows of the workspace, in stack order.
    pub open spec fn windows(self) -> Seq<Window> {
        match self.stack {
            Some(s) => s.windows,
            None => seq![],
        }
    }

    pub open spec fn peek(self) -> Option<Window> {
        match self.stack {
            Some(s) => Some(s.focused()),
            None => None,
        }
    }

    pub open spec fn with_stack(self, s: Option<StackView>) -> WorkspaceView {
        WorkspaceView { stack: s, ..self }
    }
}

/// Inserting a window the workspace does not hold gives a valid workspace that holds
/// exactly its old windows and the new one.
pub proof fn lemma_insert_contents(x: WorkspaceView, w: Window)
    requires
        x.wf(),
        !x.windows().contains(w),
    ensures
        x.with_stack(stack_insert(x.stack, w)).wf(),
        forall|v: Window| #[trigger] x.with_stack(stack_insert(x.stack, w)).windows().contains(v)
            <==> v == w || x.windows().contains(v),
{
    match x.stack {
        Some(s) => {
            crate::stack::lemma_insert_wf(s, w);
        },
        None => {
            let y = x.with_stack(stack_insert(x.stack, w));
            assert(y.windows() == seq![w]);
            assert forall|v: Window| #[trigger] y.windows().contains(v) <==> v == w by {
                if v == w { assert(y.windows()[0] == w); }
            }
        },
    }
}

/// Deleting `w` gives a valid workspace that holds its old windows but `w`.
pub proof fn lemma_delete_contents(x: WorkspaceView, w: Window)
    requires
        x.wf(),
    ensures
        x.with_stack(stack_delete(x.stack, w)).wf(),
        forall|v: Window| #[trigger] x.with_stack(stack_delete(x.stack, w)).windows().contains(v)
            <==> v != w && x.windows().contains(v),
{
    let y = x.with_stack(stack_delete(x.stack, w));
    match x.stack {
        Some(s) => {
            if s.windows.contains(w) {
                let i = position(s.windows, w);
                assert(0 <= i < s.windows.len() && s.windows[i] == w);
                if s.windows.len() > 1 {
                    crate::stack::lemma_remove_wf(s.windows, i);
                    let f = focus_after_removal(s.focus, i as nat, s.windows.len());
                    assert(f < s.windows.len() - 1);
                } else {
                    assert forall|v: Window| x.windows().contains(v) implies v == w by {
                        let j = choose|j: int| 0 <= j < s.windows.len() && s.windows[j] == v;
                    }
                }
            }
        },
        None => {},
    }
}

impl Workspace {
    pub fn new(id: u32, tag: String, layout: String) -> (r: Workspace)
        ensures
            r@ == (WorkspaceView { id: id as nat, tag: tag@, layout: layout@, stack: None }),
    {
        Workspace { id, tag, layout, stack: None }
    }

    pub fn copy(&self) -> (r: Workspace)
        ensures
            r@ == self@,
    {
        let stack = match &self.stack {
            Some(s) => Some(s.copy()),
            None => None,
        };
        Workspace { id: self.id, tag: self.tag.clone(), layout: self.layout.clone(), stack }
    }

    pub fn contains(&self, w: Window) -> (r: bool)
        ensures
            r == self@.windows().contains(w),
    {
        match &self.stack {
            Some(s) => s.contains(w),
            None => false,
        }
    }

    pub fn peek(&self) -> (r: Option<Window>)
        requires
            self@.wf(),
        ensures
            r == self@.peek(),
    {
        match &self.stack {
            Some(s) => Some(s.peek()),
            None => None,
        }
    }

    /// The windows in stack order.
    pub fn windows(&self) -> (r: Vec<Window>)
        ensures
            r@ == self@.windows(),
    {
        match &self.stack {
            Some(s) => s.integrate(),
            None => Vec::new(),
        }
    }

    pub fn insert_window(&self, w: Window) -> (r: Workspace)
        requires
            self@.wf(),
            !self@.windows().contains(w),
        ensures
            r@ == self@.with_stack(stack_insert(self@.stack, w)),
            r@.wf(),
            r@.windows().contains(w),
            forall|v: Window| #[trigger] r@.windows().contains(v)
                ==> v == w || self@.windows().contains(v),
    {
        let mut r = self.copy();
        r.stack = match &self.stack {
            Some(s) => Some(s.insert_up(w)),
            None => Some(Stack::singleton(w)),
        };
        proof { lemma_insert_contents(self@, w); }
        r
    }

    pub fn delete_window(&self, w: Window) -> (r: Workspace)
        requires
            self@.wf(),
        ensures
            r@ == self@.with_stack(stack_delete(self@.stack, w)),
            r@.wf(),
            !r@.windows().contains(w),
            forall|v: Window| #[trigger] r@.windows().contains(v) ==> self@.windows().contains(v),
    {
        let mut r = self.copy();
        r.stack = match &self.stack {
            Some(s) => delete_from(s, w),
            None => None,
        };
        proof { lemma_delete_contents(self@, w); }
        r
    }

    pub fn focus_window(&self, w: Window) -> (r: Workspace)
        requires
            self@.wf(),
        ensures
            r@.wf(),
            r@.windows() == self@.windows(),
            r@.id == self@.id && r@.tag == self@.tag && r@.layout == self@.layout,
            self@.windows().contains(w) ==> r@.peek() == Some(w) && r@ == self@.with_stack(
                Some(StackView { windows: self@.windows(), focus: position(self@.windows(), w) as nat })),
            !self@.windows().contains(w) ==> r@ == self@,
    {
        let mut r = self.copy();
        r.stack = match &self.stack {
            Some(s) => Some(s.focus_window(w)),
            None => None,
        };
        r
    }

    pub fn focus_down(&self) -> (r: Workspace)
        requires
            self@.wf(),
        ensures
            r@.wf(),
            r@ == self@.with_stack(match self@.stack {
                Some(s) => Some(StackView {
                    windows: s.windows,
                    focus: ((s.focus + 1) as int % (s.windows.len() as int)) as nat,
                }),
                None => None,
            }),
    {
        let mut r = self.copy();
        r.stack = match &self.stack {
            Some(s) => Some(s.focus_down()),
            None => None,
        };
        r
    }

    pub fn focus_up(&self) -> (r: Workspace)
        requires
            self@.wf(),
        ensures
            r@.wf(),
            r@ == self@.with_stack(match self@.stack {
                Some(s) => Some(StackView {
                    windows: s.windows,
                    focus: ((s.focus + s.windows.len() - 1) as int % (s.windows.len() as int)) as nat,
                }),
                None => None,
            }),
    {
        let mut r = self.copy();
        r.stack = match &self.stack {
            Some(s) => Some(s.focus_up()),
            None => None,
        };
        r
    }
}

} // verus!
