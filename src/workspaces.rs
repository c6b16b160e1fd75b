use vstd::prelude::*;
use crate::stack::Window;
use crate::workspace::{Rectangle, Workspace, WorkspaceView, stack_insert, stack_delete};

verus! {

/// A monitor's geometry bound to the workspace it displays.
#[derive(Clone, Debug)]
pub struct Screen {
    pub workspace: Workspace,
    pub screen_id: u32,
    pub screen_detail: Rectangle,
}

/// All workspaces in one indexed list. Position 0 is the current workspace, shown on
/// `screens[0]`; positions `1..screens.len()` are the visible ones, position `k` shown on
/// `screens[k]`; the remaining positions are hidden, in order.
#[derive(Clone, Debug)]
pub struct Workspaces {
    pub workspaces: Vec<Workspace>,
    pub screens: Vec<Rectangle>,
}

pub ghost struct WorkspacesView {
    pub workspaces: Seq<WorkspaceView>,
    pub screens: Seq<Rectangle>,
}

impl View for Workspaces {
    type V = WorkspacesView;

    open spec fn view(&self) -> WorkspacesView {
        WorkspacesView {
            workspaces: self.workspaces@.map_values(|w: Workspace| w@),
            screens: self.screens@,
        }
    }
}

impl WorkspacesView {
    pub open spec fn len(self) -> nat {
        self.workspaces.len()
    }

    /// Well-formedness: a current screen, no more screens than workspaces, workspace ids
    /// that are a permutation of `0..len`, valid stacks, and stacks that share no window.
    pub open spec fn wf(self) -> bool {
        &&& 1 <= self.screens.len() <= self.workspaces.len()
        &&& self.workspaces.len() <= u32::MAX
        &&& forall|k: int| 0 <= k < self.len() ==> #[trigger] self.workspaces[k].wf()
        &&& forall|k: int| 0 <= k < self.len() ==> #[trigger] self.workspaces[k].id < self.len()
        &&& forall|i: nat| i < self.len() ==> #[trigger] self.has_id(i)
        &&& forall|a: int, b: int|
            0 <= a < self.len() && 0 <= b < self.len() && a != b
                ==> #[trigger] self.workspaces[a].id != #[trigger] self.workspaces[b].id
        &&& self.disjoint()
    }

    pub open spec fn has_id(self, id: nat) -> bool {
        exists|k: int| 0 <= k < self.len() && #[trigger] self.workspaces[k].id == id
    }

    /// No window stands in two workspaces' stacks.
    pub open spec fn disjoint(self) -> bool {
        forall|a: int, b: int, w: Window|
            0 <= a < self.len() && 0 <= b < self.len() && a != b
                && #[trigger] self.workspaces[a].windows().contains(w)
                ==> !#[trigger] self.workspaces[b].windows().contains(w)
    }

    pub open spec fn holds(self, k: int, w: Window) -> bool {
        0 <= k < self.len() && self.workspaces[k].windows().contains(w)
    }

    pub open spec fn contains(self, w: Window) -> bool {
        exists|k: int| #[trigger] self.holds(k, w)
    }

    /// The position whose stack holds `w`, for a `w` that some stack holds.
    pub open spec fn holder(self, w: Window) -> int {
        choose|k: int| self.holds(k, w)
    }

    /// The model without `w`: the workspace holding it loses it, the rest stays.
    pub open spec fn deleted(self, w: Window) -> WorkspacesView {
        if self.contains(w) {
            let k = self.holder(w);
            self.with_workspace(k, self.workspaces[k].with_stack(stack_delete(self.workspaces[k].stack, w)))
        } else {
            self
        }
    }

    /// The model after `w` is taken under management: inserted above the focus of the
    /// current workspace, unless some stack already holds it.
    pub open spec fn managed(self, w: Window) -> WorkspacesView {
        if self.contains(w) {
            self
        } else {
            self.with_workspace(0, self.current().with_stack(stack_insert(self.current().stack, w)))
        }
    }

    /// The model with the focus of the current workspace on `w`, when that workspace holds it.
    pub open spec fn focused_on(self, w: Window) -> WorkspacesView {
        if self.holds(0, w) {
            self.with_workspace(0, self.current().with_stack(Some(crate::stack::StackView {
                windows: self.current().windows(),
                focus: crate::stack::position(self.current().windows(), w) as nat,
            })))
        } else {
            self
        }
    }

    /// The screen showing the workspace that holds `w`; the current one when no displayed
    /// workspace holds it.
    pub open spec fn screen_of(self, w: Window) -> int {
        if exists|k: int| 0 <= k < self.screens.len() && #[trigger] self.holds(k, w) {
            choose|k: int| 0 <= k < self.screens.len() && #[trigger] self.holds(k, w)
        } else {
            0
        }
    }

    pub open spec fn current(self) -> WorkspaceView {
        self.workspaces[0]
    }

    /// The focused window of the current workspace.
    pub open spec fn peek(self) -> Option<Window> {
        self.current().peek()
    }

    /// Whether position `k` is shown on a screen other than the current one.
    pub open spec fn is_visible(self, k: int) -> bool {
        1 <= k < self.screens.len()
    }

    pub open spec fn is_hidden(self, k: int) -> bool {
        self.screens.len() <= k < self.len()
    }

    /// The position of the workspace with id `id`.
    pub open spec fn position_of(self, id: nat) -> int {
        choose|k: int| 0 <= k < self.len() && self.workspaces[k].id == id
    }

    pub open spec fn with_workspace(self, k: int, w: WorkspaceView) -> WorkspacesView {
        WorkspacesView { workspaces: self.workspaces.update(k, w), ..self }
    }

    /// The model after the workspaces at positions 0 and `k` trade places.
    pub open spec fn swapped(self, k: int) -> WorkspacesView {
        WorkspacesView {
            workspaces: self.workspaces.update(0, self.workspaces[k]).update(k, self.workspaces[0]),
            ..self
        }
    }
}

pub proof fn lemma_position_of(m: WorkspacesView, k: int)
    requires
        m.wf(),
        0 <= k < m.len(),
    ensures
        m.position_of(m.workspaces[k].id) == k,
{
    let j = m.position_of(m.workspaces[k].id);
    assert(0 <= j < m.len() && m.workspaces[j].id == m.workspaces[k].id);
}

proof fn lemma_swap_wf(m: WorkspacesView, k: int)
    requires
        m.wf(),
        0 <= k < m.len(),
    ensures
        m.swapped(k).wf(),
{
    let n = m.swapped(k);
    let perm = |i: int| if i == 0 { k } else if i == k { 0 } else { i };
    assert forall|i: int| 0 <= i < n.len() implies n.workspaces[i] == m.workspaces[perm(i)] by {}
    assert forall|i: int| 0 <= i < n.len() implies #[trigger] n.workspaces[i].wf() by {
        assert(m.workspaces[perm(i)].wf());
    }
    assert forall|i: int| 0 <= i < n.len() implies #[trigger] n.workspaces[i].id < n.len() by {
        assert(m.workspaces[perm(i)].id < m.len());
    }
    assert forall|i: nat| i < n.len() implies #[trigger] n.has_id(i) by {
        assert(m.has_id(i));
        let j = choose|j: int| 0 <= j < m.len() && #[trigger] m.workspaces[j].id == i;
        assert(n.workspaces[perm(j)].id == i);
    }
    assert forall|a: int, b: int|
        0 <= a < n.len() && 0 <= b < n.len() && a != b
            implies #[trigger] n.workspaces[a].id != #[trigger] n.workspaces[b].id by {
        assert(m.workspaces[perm(a)].id != m.workspaces[perm(b)].id);
    }
    assert forall|a: int, b: int, w: Window|
        0 <= a < n.len() && 0 <= b < n.len() && a != b
            && #[trigger] n.workspaces[a].windows().contains(w)
            implies !#[trigger] n.workspaces[b].windows().contains(w) by {
        assert(m.workspaces[perm(a)].windows().contains(w));
        if m.workspaces[perm(b)].windows().contains(w) {
            assert(false);
        }
    }
}

/// Replacing the workspace at `k` by one with the same id, a valid stack, and no window
/// that another workspace holds keeps the model well formed.
pub proof fn lemma_update_wf(m: WorkspacesView, k: int, x: WorkspaceView)
    requires
        m.wf(),
        0 <= k < m.len(),
        x.wf(),
        x.id == m.workspaces[k].id,
        forall|w: Window| #[trigger] x.windows().contains(w)
            ==> m.workspaces[k].windows().contains(w) || !m.contains(w),
    ensures
        m.with_workspace(k, x).wf(),
{
    let n = m.with_workspace(k, x);
    assert forall|i: int| 0 <= i < n.len() implies #[trigger] n.workspaces[i].id
        == m.workspaces[i].id by {}
    assert forall|i: int| 0 <= i < n.len() implies #[trigger] n.workspaces[i].wf() by {
        assert(m.workspaces[i].wf());
    }
    assert forall|i: nat| i < n.len() implies #[trigger] n.has_id(i) by {
        assert(m.has_id(i));
        let j = choose|j: int| 0 <= j < m.len() && #[trigger] m.workspaces[j].id == i;
        assert(n.workspaces[j].id == i);
    }
    assert forall|a: int, b: int|
        0 <= a < n.len() && 0 <= b < n.len() && a != b
            implies #[trigger] n.workspaces[a].id != #[trigger] n.workspaces[b].id by {
        assert(m.workspaces[a].id != m.workspaces[b].id);
    }
    assert forall|a: int, b: int, w: Window|
        0 <= a < n.len() && 0 <= b < n.len() && a != b
            && #[trigger] n.workspaces[a].windows().contains(w)
            implies !#[trigger] n.workspaces[b].windows().contains(w) by {
        if n.workspaces[b].windows().contains(w) {
            if a == k {
                assert(m.holds(b, w));
                assert(m.workspaces[b].windows().contains(w));
            } else if b == k {
                assert(m.holds(a, w));
                assert(m.workspaces[a].windows().contains(w));
            } else {
                assert(m.workspaces[a].windows().contains(w));
            }
        }
    }
}

/// The parts joined end to end, in order.
pub open spec fn concat<A>(parts: Seq<Seq<A>>) -> Seq<A>
    decreases parts.len(),
{
    if parts.len() == 0 {
        Seq::empty()
    } else {
        concat(parts.drop_last()) + parts.last()
    }
}

pub proof fn lemma_concat_push<A>(parts: Seq<Seq<A>>, i: int)
    requires
        0 <= i < parts.len(),
    ensures
        concat(parts.take(i + 1)) == concat(parts.take(i)) + parts[i],
{
    assert(parts.take(i + 1).drop_last() =~= parts.take(i));
}

pub proof fn lemma_concat_contains<A>(parts: Seq<Seq<A>>, x: A)
    ensures
        concat(parts).contains(x) <==> exists|i: int| 0 <= i < parts.len() && #[trigger] parts[i].contains(x),
    decreases parts.len(),
{
    if parts.len() > 0 {
        let d = parts.drop_last();
        lemma_concat_contains(d, x);
        let c = concat(d);
        let l = parts.last();
        if concat(parts).contains(x) {
            let j = choose|j: int| 0 <= j < (c + l).len() && (c + l)[j] == x;
            if j < c.len() {
                assert(c[j] == x);
                let i = choose|i: int| 0 <= i < d.len() && #[trigger] d[i].contains(x);
                assert(parts[i] == d[i]);
            } else {
                assert(l[j - c.len()] == x);
                assert(parts[parts.len() - 1].contains(x));
            }
        }
        if exists|i: int| 0 <= i < parts.len() && #[trigger] parts[i].contains(x) {
            let i = choose|i: int| 0 <= i < parts.len() && #[trigger] parts[i].contains(x);
            if i < parts.len() - 1 {
                assert(d[i] == parts[i]);
                let j = choose|j: int| 0 <= j < c.len() && c[j] == x;
                assert((c + l)[j] == x);
            } else {
                let j = choose|j: int| 0 <= j < l.len() && l[j] == x;
                assert((c + l)[c.len() + j] == x);
            }
        }
    }
}

/// The stacks of the workspaces at positions `0..k`, one part each.
pub open spec fn stacks_upto(m: WorkspacesView, k: nat) -> Seq<Seq<Window>> {
    Seq::new(k, |i: int| m.workspaces[i].windows())
}

/// The windows of the displayed workspaces: current first, then the visible ones in order.
pub open spec fn displayed_windows(m: WorkspacesView) -> Seq<Window> {
    concat(stacks_upto(m, m.screens.len()))
}

/// The windows of every workspace, in position order.
pub open spec fn all_windows(m: WorkspacesView) -> Seq<Window> {
    concat(stacks_upto(m, m.len()))
}

fn copy_rectangles(v: &Vec<Rectangle>) -> (r: Vec<Rectangle>)
    ensures
        r@ == v@,
{
    let mut r: Vec<Rectangle> = Vec::new();
    let mut i: usize = 0;
    while i < v.len()
        invariant
            i <= v.len(),
            r@ == v@.subrange(0, i as int),
        decreases v.len() - i,
    {
        r.push(v[i]);
        i = i + 1;
    }
    assert(r@ == v@);
    r
}

impl Workspaces {
    /// One empty workspace per tag, with ids `0..tags.len()` in order; the first tags go to
    /// the screens in order (as many screens as there are tags at most), the rest are hidden.
    pub fn new(layout: String, tags: &Vec<String>, screens: &Vec<Rectangle>) -> (r: Workspaces)
        requires
            1 <= tags.len() <= u32::MAX,
            1 <= screens.len(),
        ensures
            r@.wf(),
            r@.len() == tags.len(),
            forall|k: int| 0 <= k < tags.len() ==> #[trigger] r@.workspaces[k] == (WorkspaceView {
                id: k as nat,
                tag: tags@[k]@,
                layout: layout@,
                stack: None,
            }),
            r@.screens == screens@.take(
                if screens.len() <= tags.len() { screens.len() as int } else { tags.len() as int },
            ),
    {
        let mut ws: Vec<Workspace> = Vec::new();
        let mut i: usize = 0;
        while i < tags.len()
            invariant
                i <= tags.len() <= u32::MAX,
                ws@.len() == i,
                forall|k: int| 0 <= k < i ==> #[trigger] ws@[k]@ == (WorkspaceView {
                    id: k as nat,
                    tag: tags@[k]@,
                    layout: layout@,
                    stack: None,
                }),
            decreases tags.len() - i,
        {
            ws.push(Workspace::new(i as u32, tags[i].clone(), layout.clone()));
            i = i + 1;
        }
        let mut sc: Vec<Rectangle> = Vec::new();
        let mut j: usize = 0;
        while j < screens.len() && j < tags.len()
            invariant
                j <= screens.len(),
                j <= tags.len(),
                sc@ == screens@.take(j as int),
            decreases screens.len() - j,
        {
            sc.push(screens[j]);
            j = j + 1;
            assert(sc@ == screens@.take(j as int));
        }
        let r = Workspaces { workspaces: ws, screens: sc };
        proof {
            let m = r@;
            assert forall|k: int| 0 <= k < m.len() implies #[trigger] m.workspaces[k].id == k by {}
            assert forall|id: nat| id < m.len() implies #[trigger] m.has_id(id) by {
                assert(m.workspaces[id as int].id == id);
            }
        }
        r
    }

    pub fn copy(&self) -> (r: Workspaces)
        ensures
            r@ == self@,
    {
        let mut ws: Vec<Workspace> = Vec::new();
        let mut i: usize = 0;
        while i < self.workspaces.len()
            invariant
                i <= self.workspaces.len(),
                ws@.len() == i,
                forall|k: int| 0 <= k < i ==> #[trigger] ws@[k]@ == self.workspaces@[k]@,
            decreases self.workspaces.len() - i,
        {
            ws.push(self.workspaces[i].copy());
            i = i + 1;
        }
        let r = Workspaces { workspaces: ws, screens: copy_rectangles(&self.screens) };
        assert(r@.workspaces =~= self@.workspaces);
        r
    }

    /// The workspaces with the one at `k` replaced by `x`.
    fn with_workspace(&self, k: usize, x: Workspace) -> (r: Workspaces)
        requires
            k < self.workspaces.len(),
        ensures
            r@ == self@.with_workspace(k as int, x@),
    {
        let mut r = self.copy();
        r.workspaces.set(k, x);
        assert(r@.workspaces =~= self@.workspaces.update(k as int, x@));
        r
    }

    pub fn number_workspaces(&self) -> (r: u32)
        requires
            self@.wf(),
        ensures
            r == self@.len(),
    {
        self.workspaces.len() as u32
    }

    /// The screen showing the workspace that holds `w`, or the current one.
    pub fn find_screen(&self, w: Window) -> (r: usize)
        requires
            self@.wf(),
        ensures
            r == self@.screen_of(w),
            r < self@.screens.len(),
    {
        match self.find_window(w) {
            Some(k) => {
                if k < self.screens.len() {
                    proof {
                        let j = choose|j: int| 0 <= j < self@.screens.len() && #[trigger] self@.holds(j, w);
                        if j != k {
                            assert(self@.workspaces[k as int].windows().contains(w));
                        }
                    }
                    k
                } else {
                    proof {
                        assert forall|j: int| 0 <= j < self@.screens.len() implies
                            !#[trigger] self@.holds(j, w) by {
                            assert(self@.workspaces[k as int].windows().contains(w));
                        }
                    }
                    0
                }
            },
            None => 0,
        }
    }

    /// The position of the workspace whose stack holds `w`.
    pub fn find_window(&self, w: Window) -> (r: Option<usize>)
        ensures
            r matches Some(k) ==> self@.holds(k as int, w),
            r is None ==> !self@.contains(w),
    {
        let mut k: usize = 0;
        while k < self.workspaces.len()
            invariant
                k <= self.workspaces.len(),
                forall|j: int| 0 <= j < k ==> !#[trigger] self@.holds(j, w),
            decreases self.workspaces.len() - k,
        {
            if self.workspaces[k].contains(w) {
                return Some(k);
            }
            k = k + 1;
        }
        None
    }

    /// The position of the workspace with id `id`.
    pub fn find_workspace(&self, id: u32) -> (r: Option<usize>)
        requires
            self@.wf(),
        ensures
            r matches Some(k) ==> id < self@.len() && k == self@.position_of(id as nat)
                && k < self@.len() && self@.workspaces[k as int].id == id,
            r is None ==> id >= self@.len(),
    {
        let mut k: usize = 0;
        while k < self.workspaces.len()
            invariant
                self@.wf(),
                k <= self.workspaces.len(),
                forall|j: int| 0 <= j < k ==> #[trigger] self@.workspaces[j].id != id,
            decreases self.workspaces.len() - k,
        {
            if self.workspaces[k].id == id {
                proof { lemma_position_of(self@, k as int); }
                return Some(k);
            }
            k = k + 1;
        }
        proof {
            if id < self@.len() {
                assert(self@.has_id(id as nat));
            }
        }
        None
    }

    pub fn contains(&self, w: Window) -> (r: bool)
        ensures
            r == self@.contains(w),
    {
        self.find_window(w).is_some()
    }

    /// The focused window of the current workspace.
    pub fn peek(&self) -> (r: Option<Window>)
        requires
            self@.wf(),
        ensures
            r == self@.peek(),
    {
        self.workspaces[0].peek()
    }

    /// Shows the workspace with id `index` on the current screen. It trades places with the
    /// workspace shown there: a visible one moves to that workspace's screen, a hidden one
    /// leaves the shown one hidden in its place. An unknown id changes nothing.
    pub fn view_workspace(&self, index: u32) -> (r: Workspaces)
        requires
            self@.wf(),
        ensures
            r@.wf(),
            index < self@.len() ==> r@ == self@.swapped(self@.position_of(index as nat)),
            index >= self@.len() ==> r@ == self@,
            index < self@.len() ==> r@.current().id == index,
    {
        match self.find_workspace(index) {
            None => self.copy(),
            Some(k) => {
                let a = self.workspaces[0].copy();
                let b = self.workspaces[k].copy();
                let mut r = self.copy();
                r.workspaces.set(0, b);
                r.workspaces.set(k, a);
                proof {
                    assert(self@.workspaces[k as int].id == index);
                    assert(r@.workspaces =~= self@.swapped(k as int).workspaces);
                    lemma_swap_wf(self@, k as int);
                }
                r
            },
        }
    }

    /// Inserts `w` above the focus of the current workspace, unless it is already managed.
    pub fn insert_up(&self, w: Window) -> (r: Workspaces)
        requires
            self@.wf(),
        ensures
            r@.wf(),
            r@.contains(w),
            r@ == self@.managed(w),
    {
        if self.contains(w) {
            self.copy()
        } else {
            assert(!self@.holds(0, w));
            assert(self@.workspaces[0].wf());
            let x = self.workspaces[0].insert_window(w);
            proof { lemma_update_wf(self@, 0, x@); }
            let r = self.with_workspace(0, x);
            assert(r@.holds(0, w));
            r
        }
    }

    /// Removes `w` from the workspace that holds it.
    pub fn delete(&self, w: Window) -> (r: Workspaces)
        requires
            self@.wf(),
        ensures
            r@.wf(),
            !r@.contains(w),
            r@ == self@.deleted(w),
    {
        match self.find_window(w) {
            None => self.copy(),
            Some(k) => {
                assert(self@.workspaces[k as int].wf());
                let x = self.workspaces[k].delete_window(w);
                proof {
                    lemma_update_wf(self@, k as int, x@);
                    assert forall|j: int| #[trigger] self@.holds(j, w) implies j == k by {
                        if j != k {
                            assert(self@.workspaces[k as int].windows().contains(w));
                        }
                    }
                    assert(self@.holds(k as int, w));
                    assert(self@.holder(w) == k);
                }
                let r = self.with_workspace(k, x);
                proof {
                    assert forall|j: int| !#[trigger] r@.holds(j, w) by {
                        if r@.holds(j, w) && j != k {
                            assert(self@.holds(j, w));
                        }
                    }
                }
                r
            },
        }
    }

    /// Moves the focused window of the current workspace to the workspace with id `index`,
    /// where it is inserted above the focus. Nothing changes when there is no focused window,
    /// when `index` is out of range or when it names the current workspace.
    pub fn shift(&self, index: u32) -> (r: Workspaces)
        requires
            self@.wf(),
        ensures
            r@.wf(),
            r@.len() == self@.len(),
            (self@.peek() is None || index >= self@.len() || self@.current().id == index)
                ==> r@ == self@,
            (self@.peek() is Some && index < self@.len() && self@.current().id != index)
                ==> ({
                let w = self@.peek()->Some_0;
                let k = self@.position_of(index as nat);
                let cur = self@.current();
                let dst = self@.workspaces[k];
                r@ == self@.with_workspace(0, cur.with_stack(stack_delete(cur.stack, w)))
                    .with_workspace(k, dst.with_stack(stack_insert(dst.stack, w)))
            }),
    {
        match self.peek() {
            None => self.copy(),
            Some(w) => {
                match self.find_workspace(index) {
                    None => self.copy(),
                    Some(k) => {
                        if k == 0 {
                            return self.copy();
                        }
                        proof { lemma_position_of(self@, 0); }
                        assert(self@.workspaces[0].wf());
                        let x = self.workspaces[0].delete_window(w);
                        proof {
                            lemma_update_wf(self@, 0, x@);
                            assert forall|j: int| 0 <= j < self@.len() && j != 0
                                implies !#[trigger] self@.workspaces[j].windows().contains(w) by {
                                assert(self@.workspaces[0].windows().contains(w));
                            }
                        }
                        let mid = self.with_workspace(0, x);
                        proof {
                            assert forall|j: int| 0 <= j < mid@.len() implies
                                !#[trigger] mid@.workspaces[j].windows().contains(w) by {}
                            assert(!mid@.contains(w));
                            assert(!mid@.workspaces[k as int].windows().contains(w));
                        }
                        assert(mid@.workspaces[k as int].wf());
                        let y = mid.workspaces[k].insert_window(w);
                        proof { lemma_update_wf(mid@, k as int, y@); }
                        mid.with_workspace(k, y)
                    },
                }
            },
        }
    }

    /// Focuses `w` when it is in the current workspace; otherwise nothing changes.
    pub fn focus_window(&self, w: Window) -> (r: Workspaces)
        requires
            self@.wf(),
        ensures
            r@.wf(),
            r@ == self@.focused_on(w),
            self@.holds(0, w) ==> r@.peek() == Some(w),
    {
        assert(self@.workspaces[0].wf());
        let x = self.workspaces[0].focus_window(w);
        proof { lemma_update_wf(self@, 0, x@); }
        let r = self.with_workspace(0, x);
        proof {
            if !self@.holds(0, w) {
                assert(r@.workspaces =~= self@.workspaces);
            }
        }
        r
    }

    fn windows_upto(&self, k: usize) -> (r: Vec<Window>)
        requires
            k <= self.workspaces.len(),
        ensures
            r@ == concat(stacks_upto(self@, k as nat)),
    {
        let mut r: Vec<Window> = Vec::new();
        let mut i: usize = 0;
        while i < k
            invariant
                k <= self.workspaces.len(),
                i <= k,
                r@ == concat(stacks_upto(self@, k as nat).take(i as int)),
            decreases k - i,
        {
            let mut ws = self.workspaces[i].windows();
            proof { lemma_concat_push(stacks_upto(self@, k as nat), i as int); }
            r.append(&mut ws);
            i = i + 1;
        }
        assert(stacks_upto(self@, k as nat).take(k as int) =~= stacks_upto(self@, k as nat));
        r
    }

    /// The windows on the screens: current workspace first, then the visible ones.
    pub fn visible_windows(&self) -> (r: Vec<Window>)
        requires
            self@.wf(),
        ensures
            r@ == displayed_windows(self@),
    {
        self.windows_upto(self.screens.len())
    }

    /// The windows of all workspaces, in position order.
    pub fn all_windows(&self) -> (r: Vec<Window>)
        ensures
            r@ == all_windows(self@),
    {
        self.windows_upto(self.workspaces.len())
    }

    /// The screens in order, each with the workspace it shows; the first is the current one.
    pub fn screens(&self) -> (r: Vec<Screen>)
        requires
            self@.wf(),
        ensures
            r@.len() == self@.screens.len(),
            forall|s: int| 0 <= s < r@.len() ==> (#[trigger] r@[s]).screen_id == s
                && r@[s].screen_detail == self@.screens[s]
                && r@[s].workspace@ == self@.workspaces[s],
    {
        let mut r: Vec<Screen> = Vec::new();
        let mut s: usize = 0;
        while s < self.screens.len()
            invariant
                self@.wf(),
                s <= self.screens.len(),
                r@.len() == s,
                forall|j: int| 0 <= j < s ==> (#[trigger] r@[j]).screen_id == j
                    && r@[j].screen_detail == self@.screens[j]
                    && r@[j].workspace@ == self@.workspaces[j],
            decreases self.screens.len() - s,
        {
            r.push(Screen {
                workspace: self.workspaces[s].copy(),
                screen_id: s as u32,
                screen_detail: self.screens[s],
            });
            s = s + 1;
        }
        r
    }

    /// Moves the focus of the current workspace to the next window.
    pub fn focus_down(&self) -> (r: Workspaces)
        requires
            self@.wf(),
        ensures
            r@.wf(),
            r@ == self@.with_workspace(0, self@.current().with_stack(match self@.current().stack {
                Some(s) => Some(crate::stack::StackView {
                    windows: s.windows,
                    focus: ((s.focus + 1) as int % (s.windows.len() as int)) as nat,
                }),
                None => None,
            })),
    {
        assert(self@.workspaces[0].wf());
        let x = self.workspaces[0].focus_down();
        proof { lemma_update_wf(self@, 0, x@); }
        self.with_workspace(0, x)
    }

    /// Moves the focus of the current workspace to the previous window.
    pub fn focus_up(&self) -> (r: Workspaces)
        requires
            self@.wf(),
        ensures
            r@.wf(),
            r@ == self@.with_workspace(0, self@.current().with_stack(match self@.current().stack {
                Some(s) => Some(crate::stack::StackView {
                    windows: s.windows,
                    focus: ((s.focus + s.windows.len() - 1) as int % (s.windows.len() as int)) as nat,
                }),
                None => None,
            })),
    {
        assert(self@.workspaces[0].wf());
        let x = self.workspaces[0].focus_up();
        proof { lemma_update_wf(self@, 0, x@); }
        self.with_workspace(0, x)
    }
}

} // verus!
