use vstd::prelude::*;

verus! {

/// Opaque handle of a window, issued by the display backend.
pub type Window = u64;

/// A non-empty, focus-ordered sequence of distinct windows with one focused element.
#[derive(Clone, Debug)]
pub struct Stack {
    pub windows: Vec<Window>,
    pub focus: usize,
}

/// Mathematical model of a stack: the full order and the position of the focused window.
pub ghost struct StackView {
    pub windows: Seq<Window>,
    pub focus: nat,
}

impl View for Stack {
    type V = StackView;

    open spec fn view(&self) -> StackView {
        StackView { windows: self.windows@, focus: self.focus as nat }
    }
}

impl StackView {
    pub open spec fn wf(self) -> bool {
        &&& self.windows.len() > 0
        &&& self.focus < self.windows.len()
        &&& self.windows.no_duplicates()
    }

    pub open spec fn focused(self) -> Window {
        self.windows[self.focus as int]
    }
}

impl Stack {
    /// A stack holding one window, which is focused.
    pub fn singleton(w: Window) -> (r: Stack)
        ensures
            r@.windows == seq![w],
            r@.focus == 0,
            r@.wf(),
    {
        let mut v: Vec<Window> = Vec::new();
        v.push(w);
        Stack { windows: v, focus: 0 }
    }

    pub fn copy(&self) -> (r: Stack)
        ensures
            r@ == self@,
    {
        let mut v: Vec<Window> = Vec::new();
        let mut i: usize = 0;
        while i < self.windows.len()
            invariant
                i <= self.windows.len(),
                v@ == self.windows@.subrange(0, i as int),
            decreases self.windows.len() - i,
        {
            v.push(self.windows[i]);
            i = i + 1;
        }
        assert(v@ == self.windows@);
        Stack { windows: v, focus: self.focus }
    }

    /// The focused window.
    pub fn peek(&self) -> (r: Window)
        requires
            self@.wf(),
        ensures
            r == self@.focused(),
    {
        self.windows[self.focus]
    }

    /// The windows in stack order.
    pub fn integrate(&self) -> (r: Vec<Window>)
        ensures
            r@ == self@.windows,
    {
        self.copy().windows
    }

    /// Position of `w` in the stack, if present.
    pub fn index_of(&self, w: Window) -> (r: Option<usize>)
        ensures
            r matches Some(i) ==> i < self@.windows.len() && self@.windows[i as int] == w,
            r is None ==> !self@.windows.contains(w),
    {
        let mut i: usize = 0;
        while i < self.windows.len()
            invariant
                i <= self.windows.len(),
                forall|j: int| 0 <= j < i ==> self.windows@[j] != w,
            decreases self.windows.len() - i,
        {
            if self.windows[i] == w {
                return Some(i);
            }
            i = i + 1;
        }
        None
    }

    pub fn contains(&self, w: Window) -> (r: bool)
        ensures
            r == self@.windows.contains(w),
    {
        self.index_of(w).is_some()
    }

    /// Inserts `w` just above the focused window and focuses it.
    pub fn insert_up(&self, w: Window) -> (r: Stack)
        requires
            self@.wf(),
            !self@.windows.contains(w),
        ensures
            r@.windows == self@.windows.insert(self@.focus as int, w),
            r@.focus == self@.focus,
            r@.focused() == w,
            r@.wf(),
    {
        let mut s = self.copy();
        s.windows.insert(self.focus, w);
        proof { lemma_insert_wf(self@, w); }
        s
    }

    /// Moves focus to `w` when it is in the stack; the order is kept.
    pub fn focus_window(&self, w: Window) -> (r: Stack)
        requires
            self@.wf(),
        ensures
            r@.windows == self@.windows,
            r@.wf(),
            self@.windows.contains(w) ==> r@.focused() == w
                && r@.focus == position(self@.windows, w),
            !self@.windows.contains(w) ==> r@ == self@,
    {
        let mut s = self.copy();
        match self.index_of(w) {
            Some(i) => {
                proof { lemma_position(self@.windows, w, i as int); }
                s.focus = i;
            },
            None => {},
        }
        s
    }

    /// Moves focus to the next window, wrapping around.
    pub fn focus_down(&self) -> (r: Stack)
        requires
            self@.wf(),
        ensures
            r@.windows == self@.windows,
            r@.focus as int == (self@.focus + 1) as int % (self@.windows.len() as int),
            r@.wf(),
    {
        let mut s = self.copy();
        if self.focus < self.windows.len() - 1 {
            s.focus = self.focus + 1;
        } else {
            s.focus = 0;
        }
        proof {
            let n = self@.windows.len() as int;
            if self.focus + 1 < n {
                assert((self.focus + 1) % n == self.focus + 1) by (nonlinear_arith)
                    requires 0 <= self.focus + 1 < n;
            } else {
                assert(n % n == 0) by (nonlinear_arith) requires n > 0;
            }
        }
        s
    }

    /// Moves focus to the previous window, wrapping around.
    pub fn focus_up(&self) -> (r: Stack)
        requires
            self@.wf(),
        ensures
            r@.windows == self@.windows,
            r@.focus as int == (self@.focus + self@.windows.len() - 1) as int % (self@.windows.len() as int),
            r@.wf(),
    {
        let mut s = self.copy();
        if self.focus > 0 {
            s.focus = self.focus - 1;
        } else {
            s.focus = self.windows.len() - 1;
        }
        proof {
            let n = self@.windows.len() as int;
            if self.focus > 0 {
                assert((self.focus + n - 1) % n == self.focus - 1) by (nonlinear_arith)
                    requires 0 < self.focus < n;
            } else {
                assert((n - 1) % n == n - 1) by (nonlinear_arith) requires n > 0;
            }
        }
        s
    }
}

/// Position that the focus moves to when the window at `i` leaves a stack focused at `f`:
/// the windows after the removed one shift up, and a focused window that leaves hands the
/// focus to the one below it, or to the one above when it was last.
pub open spec fn focus_after_removal(f: nat, i: nat, len: nat) -> nat {
    if i < f {
        (f - 1) as nat
    } else if i == f && f + 1 == len {
        (f - 1) as nat
    } else {
        f
    }
}

/// Where `w` stands in `ws`, for a `w` that stands there.
pub open spec fn position(ws: Seq<Window>, w: Window) -> int {
    choose|i: int| 0 <= i < ws.len() && ws[i] == w
}

proof fn lemma_position(ws: Seq<Window>, w: Window, i: int)
    requires
        ws.no_duplicates(),
        0 <= i < ws.len(),
        ws[i] == w,
    ensures
        position(ws, w) == i,
{
    let j = position(ws, w);
    assert(0 <= j < ws.len() && ws[j] == w);
}

/// Inserting a new window above the focus keeps the windows distinct, and the result
/// holds exactly the old windows and the new one.
pub proof fn lemma_insert_wf(s: StackView, w: Window)
    requires
        s.wf(),
        !s.windows.contains(w),
    ensures
        s.windows.insert(s.focus as int, w).no_duplicates(),
        forall|v: Window| #[trigger] s.windows.insert(s.focus as int, w).contains(v)
            <==> v == w || s.windows.contains(v),
{
    let a = s.windows;
    let b = a.insert(s.focus as int, w);
    let f = s.focus as int;
    assert forall|i: int, j: int| 0 <= i < b.len() && 0 <= j < b.len() && i != j
        implies b[i] != b[j] by {
        if i < f && j < f {
        } else if i == f {
            if j < i { assert(a.contains(b[j])); } else { assert(a.contains(b[j])); }
        } else if j == f {
            if i < j { assert(a.contains(b[i])); } else { assert(a.contains(b[i])); }
        }
    }
    assert forall|v: Window| #[trigger] b.contains(v) <==> v == w || a.contains(v) by {
        if b.contains(v) {
            let j = choose|j: int| 0 <= j < b.len() && b[j] == v;
            if j < f {
                assert(a[j] == v);
            } else if j > f {
                assert(a[j - 1] == v);
            }
        }
        if v == w {
            assert(b[f] == w);
        } else if a.contains(v) {
            let j = choose|j: int| 0 <= j < a.len() && a[j] == v;
            if j < f {
                assert(b[j] == v);
            } else {
                assert(b[j + 1] == v);
            }
        }
    }
}

/// Removing the window at `i` keeps the windows distinct and drops exactly that one.
pub proof fn lemma_remove_wf(a: Seq<Window>, i: int)
    requires
        a.no_duplicates(),
        0 <= i < a.len(),
    ensures
        a.remove(i).no_duplicates(),
        forall|v: Window| #[trigger] a.remove(i).contains(v) <==> v != a[i] && a.contains(v),
{
    let b = a.remove(i);
    assert forall|x: int, y: int| 0 <= x < b.len() && 0 <= y < b.len() && x != y
        implies b[x] != b[y] by {
        let px = if x < i { x } else { x + 1 };
        let py = if y < i { y } else { y + 1 };
        assert(b[x] == a[px]);
        assert(b[y] == a[py]);
    }
    assert forall|v: Window| #[trigger] b.contains(v) <==> v != a[i] && a.contains(v) by {
        if b.contains(v) {
            let j = choose|j: int| 0 <= j < b.len() && b[j] == v;
            if j < i {
                assert(a[j] == v);
            } else {
                assert(a[j + 1] == v);
            }
        }
        if v != a[i] && a.contains(v) {
            let j = choose|j: int| 0 <= j < a.len() && a[j] == v;
            if j < i {
                assert(b[j] == v);
            } else {
                assert(b[j - 1] == v);
            }
        }
    }
}

/// The stack without `w`; `None` when `w` was its only window.
pub fn delete_from(s: &Stack, w: Window) -> (r: Option<Stack>)
    requires
        s@.wf(),
    ensures
        !s@.windows.contains(w) ==> (r matches Some(t) && t@ == s@),
        s@.windows.contains(w) && s@.windows.len() == 1 ==> r is None,
        s@.windows.contains(w) && s@.windows.len() > 1 ==> (r matches Some(t) && ({
            let i = position(s@.windows, w);
            &&& t@.windows == s@.windows.remove(i)
            &&& t@.focus == focus_after_removal(s@.focus, i as nat, s@.windows.len())
        })),
        r matches Some(t) ==> t@.wf(),
{
    match s.index_of(w) {
        None => Some(s.copy()),
        Some(i) => {
            if s.windows.len() == 1 {
                None
            } else {
                let mut t = s.copy();
                t.windows.remove(i);
                if i < s.focus || (i == s.focus && s.focus + 1 == s.windows.len()) {
                    t.focus = s.focus - 1;
                }
                proof {
                    lemma_position(s@.windows, w, i as int);
                    lemma_remove_wf(s@.windows, i as int);
                }
                Some(t)
            }
        },
    }
}

} // verus!
