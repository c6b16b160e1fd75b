use vstd::prelude::*;
use crate::stack::Window;
use crate::workspace::Rectangle;
use crate::workspaces::{
    Workspaces, WorkspacesView, concat, lemma_concat_push, displayed_windows,
};
use crate::layout::{apply_layout, tall_rect, clamp_u32};

verus! {

/// The geometry of a monitor.
pub type ScreenDetail = Rectangle;

/// Height reserved at the top of every screen for a status bar.
pub const STATUS_BAR_HEIGHT: u32 = 20;

/// A command for the display backend. Commands are handed out in the order in which the
/// backend must run them.
#[derive(Clone, Copy, Debug, PartialEq, Eq, Structural)]
pub enum Command {
    Show(Window),
    Hide(Window),
    Resize(Window, u32, u32),
    Move(Window, u32, u32),
    SetBorderWidth(Window, u32),
    SetBorderColor(Window, u32),
    Focus(Window),
    Flush,
}

/// The settings the engine reads.
#[derive(Clone, Debug)]
pub struct Config {
    pub tags: Vec<String>,
    pub border_width: u32,
    pub border_color: u32,
    pub focus_border_color: u32,
}

/// The engine state: one workspace model.
#[derive(Clone, Debug)]
pub struct WindowManager {
    pub workspaces: Workspaces,
}

/// `len` less both borders, or 0 when the borders take it all.
pub open spec fn shrink(len: u32, border: u32) -> u32 {
    if len >= 2 * border { (len - 2 * border) as u32 } else { 0 }
}

/// A screen's area less the status bar at its top.
pub open spec fn inset(r: Rectangle) -> Rectangle {
    Rectangle {
        x: r.x,
        y: clamp_u32(r.y + STATUS_BAR_HEIGHT),
        width: r.width,
        height: if r.height >= STATUS_BAR_HEIGHT { (r.height - STATUS_BAR_HEIGHT) as u32 } else { 0 },
    }
}

/// The border color of `w` in model `m`: the focus color for its focused window.
pub open spec fn highlight(m: WorkspacesView, c: Config, w: Window) -> u32 {
    if m.peek() == Some(w) { c.focus_border_color } else { c.border_color }
}

/// Show, size, move and frame `w` at placement `p`.
pub open spec fn place_commands(w: Window, p: Rectangle, c: Config, color: u32) -> Seq<Command> {
    seq![
        Command::Show(w),
        Command::Resize(w, shrink(p.width, c.border_width), shrink(p.height, c.border_width)),
        Command::Move(w, p.x, p.y),
        Command::SetBorderWidth(w, c.border_width),
        Command::SetBorderColor(w, color),
    ]
}

/// The placement commands of the windows of the workspace on screen `s`, one part each.
pub open spec fn screen_parts(m: WorkspacesView, c: Config, s: int) -> Seq<Seq<Command>> {
    let ws = m.workspaces[s].windows();
    Seq::new(ws.len(), |i: int| place_commands(
        ws[i], tall_rect(inset(m.screens[s]), ws.len(), i as nat), c, highlight(m, c, ws[i])))
}

/// One part per screen, in screen order.
pub open spec fn layout_parts(m: WorkspacesView, c: Config) -> Seq<Seq<Command>> {
    Seq::new(m.screens.len(), |s: int| concat(screen_parts(m, c, s)))
}

/// One part per hidden workspace, in order: hide each of its windows.
pub open spec fn hide_parts(m: WorkspacesView) -> Seq<Seq<Command>> {
    Seq::new((m.len() - m.screens.len()) as nat, |j: int|
        m.workspaces[m.screens.len() + j].windows().map_values(|w: Window| Command::Hide(w)))
}

/// What reprojecting model `m` sends: hide the hidden workspaces' windows, place the
/// displayed ones screen by screen, and flush.
pub open spec fn layout_commands(m: WorkspacesView, c: Config) -> Seq<Command> {
    concat(hide_parts(m)) + concat(layout_parts(m, c)) + seq![Command::Flush]
}

/// Give every window in `ws` the normal border color.
pub open spec fn unfocus_commands(ws: Seq<Window>, c: Config) -> Seq<Command> {
    ws.map_values(|w: Window| Command::SetBorderColor(w, c.border_color))
}

/// What moving from model `a` to model `b` sends: clear the old focus's highlight,
/// reproject `b`, clear the highlight of every window `a` displayed, then highlight and
/// focus the focused window of `b`.
pub open spec fn sync_commands(a: WorkspacesView, b: WorkspacesView, c: Config) -> Seq<Command> {
    (match a.peek() {
        Some(o) => seq![Command::SetBorderColor(o, c.border_color)],
        None => Seq::empty(),
    }) + layout_commands(b, c) + unfocus_commands(displayed_windows(a), c) + (match b.peek() {
        Some(f) => seq![Command::SetBorderColor(f, c.focus_border_color), Command::Focus(f)],
        None => Seq::empty(),
    })
}

fn shrink_by(len: u32, border: u32) -> (r: u32)
    ensures
        r == shrink(len, border),
{
    let d: u64 = 2 * (border as u64);
    if (len as u64) >= d {
        (len as u64 - d) as u32
    } else {
        0
    }
}

fn inset_of(r: Rectangle) -> (p: Rectangle)
    ensures
        p == inset(r),
{
    let y: u64 = r.y as u64 + STATUS_BAR_HEIGHT as u64;
    Rectangle {
        x: r.x,
        y: if y > u32::MAX as u64 { u32::MAX } else { y as u32 },
        width: r.width,
        height: if r.height >= STATUS_BAR_HEIGHT { r.height - STATUS_BAR_HEIGHT } else { 0 },
    }
}

impl WindowManager {
    /// The workspace model of this state.
    pub open spec fn model(&self) -> WorkspacesView {
        self.workspaces@
    }

    pub open spec fn wf(&self) -> bool {
        self.model().wf()
    }

    /// One empty workspace per configured tag, with layout "Tall"; the first tags are
    /// shown on `screens` in order, the rest are hidden.
    pub fn new(screens: &Vec<ScreenDetail>, config: &Config) -> (r: WindowManager)
        requires
            1 <= config.tags.len() <= u32::MAX,
            1 <= screens.len(),
        ensures
            r.wf(),
            r.model().len() == config.tags.len(),
            forall|k: int| 0 <= k < config.tags.len() ==> {
                let w = #[trigger] r.model().workspaces[k];
                &&& w.id == k
                &&& w.tag == config.tags@[k]@
                &&& w.layout == "Tall"@
                &&& w.stack is None
            },
            r.model().screens == screens@.take(
                if screens.len() <= config.tags.len() { screens.len() as int }
                else { config.tags.len() as int },
            ),
    {
        proof { reveal_strlit("Tall"); }
        WindowManager { workspaces: Workspaces::new("Tall".to_owned(), &config.tags, screens) }
    }

    /// Whether `window` is in some workspace's stack.
    pub fn is_window_managed(&self, window: Window) -> (r: bool)
        ensures
            r == self.model().contains(window),
    {
        self.workspaces.contains(window)
    }

    /// Reprojects the model onto the backend; the model stays as it is.
    pub fn reapply_layout(&self, config: &Config, out: &mut Vec<Command>) -> (r: WindowManager)
        requires
            self.wf(),
        ensures
            r.model() == self.model(),
            final(out)@ == old(out)@ + layout_commands(self.model(), *config),
    {
        let ghost m = self.model();
        let ghost c = *config;
        let ghost base = old(out)@;
        let focused = self.workspaces.peek();
        let ns = self.workspaces.screens.len();
        let nw = self.workspaces.workspaces.len();
        let mut k: usize = ns;
        while k < nw
            invariant
                m == self.model(),
                m.wf(),
                ns == m.screens.len(),
                nw == m.len(),
                ns <= k <= nw,
                out@ == base + concat(hide_parts(m).take(k - ns)),
            decreases nw - k,
        {
            let ws = self.workspaces.workspaces[k].windows();
            let ghost before = out@;
            let mut j: usize = 0;
            while j < ws.len()
                invariant
                    out@ == before + ws@.take(j as int).map_values(|w: Window| Command::Hide(w)),
                    j <= ws.len(),
                decreases ws.len() - j,
            {
                out.push(Command::Hide(ws[j]));
                j = j + 1;
                assert(ws@.take(j as int).map_values(|w: Window| Command::Hide(w))
                    =~= ws@.take(j - 1).map_values(|w: Window| Command::Hide(w))
                        .push(Command::Hide(ws@[j - 1])));
            }
            proof {
                assert(ws@.take(j as int) =~= ws@);
                lemma_concat_push(hide_parts(m), (k - ns) as int);
                assert(hide_parts(m)[(k - ns) as int] == ws@.map_values(|w: Window| Command::Hide(w)));
                assert(base + concat(hide_parts(m).take(k - ns)) + hide_parts(m)[(k - ns) as int]
                    =~= base + concat(hide_parts(m).take(k - ns + 1)));
            }
            k = k + 1;
        }
        assert(hide_parts(m).take(nw - ns) =~= hide_parts(m));
        let ghost after_hide = out@;
        let mut s: usize = 0;
        while s < ns
            invariant
                m == self.model(),
                m.wf(),
                c == *config,
                focused == m.peek(),
                ns == m.screens.len(),
                s <= ns,
                out@ == after_hide + concat(layout_parts(m, c).take(s as int)),
            decreases ns - s,
        {
            let rect = inset_of(self.workspaces.screens[s]);
            let placements = apply_layout(rect, &self.workspaces.workspaces[s].stack);
            let ghost before = out@;
            let ghost parts = screen_parts(m, c, s as int);
            let ghost wins = m.workspaces[s as int].windows();
            let mut i: usize = 0;
            while i < placements.len()
                invariant
                    m == self.model(),
                    c == *config,
                    focused == m.peek(),
                    s < ns == m.screens.len(),
                    rect == inset(m.screens[s as int]),
                    wins == m.workspaces[s as int].windows(),
                    parts == screen_parts(m, c, s as int),
                    placements@.len() == wins.len(),
                    forall|q: int| 0 <= q < wins.len() ==> #[trigger] placements@[q]
                        == (wins[q], tall_rect(rect, wins.len(), q as nat)),
                    i <= placements.len(),
                    out@ == before + concat(parts.take(i as int)),
                decreases placements.len() - i,
            {
                let (w, p) = placements[i];
                let color = if focused == Some(w) {
                    config.focus_border_color
                } else {
                    config.border_color
                };
                out.push(Command::Show(w));
                out.push(Command::Resize(w, shrink_by(p.width, config.border_width),
                    shrink_by(p.height, config.border_width)));
                out.push(Command::Move(w, p.x, p.y));
                out.push(Command::SetBorderWidth(w, config.border_width));
                out.push(Command::SetBorderColor(w, color));
                proof {
                    lemma_concat_push(parts, i as int);
                    assert(parts[i as int] == place_commands(w, p, c, color));
                    assert(out@ =~= before + concat(parts.take(i as int)) + parts[i as int]);
                }
                i = i + 1;
            }
            proof {
                assert(parts.take(i as int) =~= parts);
                lemma_concat_push(layout_parts(m, c), s as int);
                assert(out@ =~= after_hide + concat(layout_parts(m, c).take(s as int))
                    + layout_parts(m, c)[s as int]);
            }
            s = s + 1;
        }
        out.push(Command::Flush);
        assert(layout_parts(m, c).take(ns as int) =~= layout_parts(m, c));
        assert(out@ =~= base + layout_commands(m, c));
        WindowManager { workspaces: self.workspaces.copy() }
    }

    /// A state whose model is `f` applied to this one's; nothing is sent to the backend.
    pub fn modify_workspaces<F: Fn(&Workspaces) -> Workspaces>(&self, f: F) -> (r: WindowManager)
        requires
            f.requires((&self.workspaces,)),
        ensures
            f.ensures((&self.workspaces,), r.workspaces),
    {
        WindowManager { workspaces: f(&self.workspaces) }
    }

    /// Applies `f` to the model and brings the backend in line with the result: the old
    /// focus loses its highlight, the new model is reprojected, every window the old model
    /// displayed loses its highlight, and the new focused window is highlighted and focused.
    pub fn windows<F: Fn(&Workspaces) -> Workspaces>(
        &self,
        config: &Config,
        f: F,
        out: &mut Vec<Command>,
    ) -> (r: WindowManager)
        requires
            self.wf(),
            f.requires((&self.workspaces,)),
            forall|t: Workspaces| f.ensures((&self.workspaces,), t) ==> t@.wf(),
        ensures
            f.ensures((&self.workspaces,), r.workspaces),
            r.wf(),
            final(out)@ == old(out)@ + sync_commands(self.model(), r.model(), *config),
    {
        let ghost base = old(out)@;
        let result = self.modify_workspaces(f);
        let old_visible = self.workspaces.visible_windows();
        match self.workspaces.peek() {
            Some(o) => out.push(Command::SetBorderColor(o, config.border_color)),
            None => {},
        }
        let ghost first = out@;
        let _ = result.reapply_layout(config, out);
        let ghost laid = out@;
        let mut i: usize = 0;
        while i < old_visible.len()
            invariant
                i <= old_visible.len(),
                out@ == laid + unfocus_commands(old_visible@.take(i as int), *config),
            decreases old_visible.len() - i,
        {
            out.push(Command::SetBorderColor(old_visible[i], config.border_color));
            i = i + 1;
            assert(unfocus_commands(old_visible@.take(i as int), *config)
                =~= unfocus_commands(old_visible@.take(i - 1), *config)
                    .push(Command::SetBorderColor(old_visible@[i - 1], config.border_color)));
        }
        assert(old_visible@.take(i as int) =~= old_visible@);
        match result.workspaces.peek() {
            Some(w) => {
                out.push(Command::SetBorderColor(w, config.focus_border_color));
                out.push(Command::Focus(w));
            },
            None => {},
        }
        assert(out@ =~= base + sync_commands(self.model(), result.model(), *config));
        result
    }

    /// Shows the workspace with id `index` on the current screen (see
    /// `Workspaces::view_workspace`). An index out of range changes nothing and sends nothing.
    pub fn view(&self, index: u32, config: &Config, out: &mut Vec<Command>) -> (r: WindowManager)
        requires
            self.wf(),
        ensures
            r.wf(),
            index >= self.model().len() ==> r.model() == self.model() && final(out)@ == old(out)@,
            index < self.model().len() ==> {
                &&& r.model() == self.model().swapped(self.model().position_of(index as nat))
                &&& r.model().current().id == index
                &&& final(out)@ == old(out)@ + sync_commands(self.model(), r.model(), *config)
            },
    {
        if index < self.workspaces.number_workspaces() {
            let f = |w: &Workspaces| -> (t: Workspaces)
                requires
                    w@.wf(),
                    index < w@.len(),
                ensures
                    t@.wf(),
                    t@ == w@.swapped(w@.position_of(index as nat)),
                    t@.current().id == index,
                { w.view_workspace(index) };
            self.windows(config, f, out)
        } else {
            WindowManager { workspaces: self.workspaces.copy() }
        }
    }

    /// Moves the focused window of the current workspace to the workspace with id `index`
    /// (see `Workspaces::shift`). An index out of range changes nothing and sends nothing.
    pub fn move_window_to_workspace(&self, config: &Config, index: u32, out: &mut Vec<Command>)
        -> (r: WindowManager)
        requires
            self.wf(),
        ensures
            r.wf(),
            r.model().len() == self.model().len(),
            index >= self.model().len() ==> r.model() == self.model() && final(out)@ == old(out)@,
            index < self.model().len() ==> {
                &&& final(out)@ == old(out)@ + sync_commands(self.model(), r.model(), *config)
                &&& (self.model().peek() is None || self.model().current().id == index)
                    ==> r.model() == self.model()
                &&& (self.model().peek() is Some && self.model().current().id != index) ==> {
                    let w = self.model().peek()->Some_0;
                    let k = self.model().position_of(index as nat);
                    let cur = self.model().current();
                    let dst = self.model().workspaces[k];
                    r.model() == self.model()
                        .with_workspace(0, cur.with_stack(crate::workspace::stack_delete(cur.stack, w)))
                        .with_workspace(k, dst.with_stack(crate::workspace::stack_insert(dst.stack, w)))
                }
            },
    {
        if index < self.workspaces.number_workspaces() {
            let f = |w: &Workspaces| -> (t: Workspaces)
                requires
                    w@.wf(),
                ensures
                    t@.wf(),
                    t@.len() == w@.len(),
                    (w@.peek() is None || index >= w@.len() || w@.current().id == index)
                        ==> t@ == w@,
                    (w@.peek() is Some && index < w@.len() && w@.current().id != index) ==> ({
                        let x = w@.peek()->Some_0;
                        let k = w@.position_of(index as nat);
                        let cur = w@.current();
                        let dst = w@.workspaces[k];
                        t@ == w@.with_workspace(0, cur.with_stack(crate::workspace::stack_delete(cur.stack, x)))
                            .with_workspace(k, dst.with_stack(crate::workspace::stack_insert(dst.stack, x)))
                    }),
                { w.shift(index) };
            self.windows(config, f, out)
        } else {
            WindowManager { workspaces: self.workspaces.copy() }
        }
    }

    /// Assigns the workspaces to a new set of monitors. The workspace order stays as it is:
    /// current, then visible, then hidden; the first workspaces in that order go to the
    /// monitors in order (as many as there are workspaces at most), the first of them as
    /// the current one, and the rest are hidden.
    pub fn rescreen(&self, screens: &Vec<ScreenDetail>) -> (r: WindowManager)
        requires
            self.wf(),
            1 <= screens.len(),
        ensures
            r.wf(),
            r.model().workspaces == self.model().workspaces,
            r.model().screens == screens@.take(
                if screens.len() <= self.model().len() { screens.len() as int }
                else { self.model().len() as int },
            ),
    {
        let mut sc: Vec<Rectangle> = Vec::new();
        let mut j: usize = 0;
        while j < screens.len() && j < self.workspaces.workspaces.len()
            invariant
                j <= screens.len(),
                j <= self.workspaces.workspaces.len(),
                sc@ == screens@.take(j as int),
            decreases screens.len() - j,
        {
            sc.push(screens[j]);
            j = j + 1;
            assert(sc@ == screens@.take(j as int));
        }
        let mut ws = self.workspaces.copy();
        ws.screens = sc;
        let r = WindowManager { workspaces: ws };
        proof {
            let a = self.model();
            let b = r.model();
            assert(b.workspaces == a.workspaces);
            assert forall|i: nat| i < b.len() implies #[trigger] b.has_id(i) by {
                assert(a.has_id(i));
            }
        }
        r
    }

    /// Gives every displayed window the normal border color.
    pub fn unfocus_windows(&self, config: &Config, out: &mut Vec<Command>)
        requires
            self.wf(),
        ensures
            final(out)@ == old(out)@ + unfocus_commands(displayed_windows(self.model()), *config),
    {
        let ws = self.workspaces.visible_windows();
        let ghost base = old(out)@;
        let mut i: usize = 0;
        while i < ws.len()
            invariant
                i <= ws.len(),
                out@ == base + unfocus_commands(ws@.take(i as int), *config),
            decreases ws.len() - i,
        {
            out.push(Command::SetBorderColor(ws[i], config.border_color));
            i = i + 1;
            assert(unfocus_commands(ws@.take(i as int), *config)
                =~= unfocus_commands(ws@.take(i - 1), *config)
                    .push(Command::SetBorderColor(ws@[i - 1], config.border_color)));
        }
        assert(ws@.take(i as int) =~= ws@);
    }

    /// Sends a command that shows `window` at once.
    pub fn reveal_window(&self, window: Window, out: &mut Vec<Command>) -> (r: WindowManager)
        ensures
            r.model() == self.model(),
            final(out)@ == old(out)@.push(Command::Show(window)),
    {
        out.push(Command::Show(window));
        WindowManager { workspaces: self.workspaces.copy() }
    }

    /// Takes `window` under management: it is inserted above the focus of the current
    /// workspace, shown at once, and the backend is brought in line. A window that is
    /// already managed changes nothing and sends nothing.
    pub fn manage(&self, window: Window, config: &Config, out: &mut Vec<Command>)
        -> (r: WindowManager)
        requires
            self.wf(),
        ensures
            r.wf(),
            r.model().contains(window),
            self.model().contains(window) ==> r.model() == self.model() && final(out)@ == old(out)@,
            r.model() == self.model().managed(window),
            !self.model().contains(window) ==> final(out)@ == old(out)@.push(Command::Show(window))
                + sync_commands(self.model(), r.model(), *config),
    {
        if self.workspaces.contains(window) {
            WindowManager { workspaces: self.workspaces.copy() }
        } else {
            let _ = self.reveal_window(window, out);
            let f = |w: &Workspaces| -> (t: Workspaces)
                requires
                    w@.wf(),
                ensures
                    t@.wf(),
                    t@.contains(window),
                    t@ == w@.managed(window),
                { w.insert_up(window) };
            self.windows(config, f, out)
        }
    }

    /// As `manage`, with a hook that sees the model right after the insertion and returns
    /// the model to use instead (to send the window to another workspace, say). The window
    /// is shown at once whatever the hook does with it.
    pub fn manage_with_hook<H: Fn(Workspaces, Window) -> Workspaces>(
        &self,
        window: Window,
        config: &Config,
        hook: H,
        out: &mut Vec<Command>,
    ) -> (r: WindowManager)
        requires
            self.wf(),
            forall|t: Workspaces| t@.wf() ==> #[trigger] hook.requires((t, window)),
            forall|t: Workspaces, u: Workspaces|
                t@.wf() && #[trigger] hook.ensures((t, window), u) ==> u@.wf(),
        ensures
            r.wf(),
            self.model().contains(window) ==> r.model() == self.model() && final(out)@ == old(out)@,
            !self.model().contains(window) ==> {
                &&& exists|t: Workspaces| t@ == self.model().managed(window)
                    && #[trigger] hook.ensures((t, window), r.workspaces)
                &&& final(out)@ == old(out)@.push(Command::Show(window))
                    + sync_commands(self.model(), r.model(), *config)
            },
    {
        if self.workspaces.contains(window) {
            WindowManager { workspaces: self.workspaces.copy() }
        } else {
            let _ = self.reveal_window(window, out);
            let h = &hook;
            let f = |w: &Workspaces| -> (u: Workspaces)
                requires
                    w@.wf(),
                    forall|t: Workspaces| t@.wf() ==> #[trigger] h.requires((t, window)),
                    forall|t: Workspaces, u: Workspaces|
                        t@.wf() && #[trigger] h.ensures((t, window), u) ==> u@.wf(),
                ensures
                    u@.wf(),
                    exists|t: Workspaces| t@ == w@.managed(window)
                        && #[trigger] h.ensures((t, window), u),
                {
                    let t = w.insert_up(window);
                    h(t, window)
                };
            self.windows(config, f, out)
        }
    }

    /// Releases `window`: it leaves the workspace that holds it, the backend is brought in
    /// line, and the layout is applied once more. A window that is not managed changes
    /// nothing and sends nothing.
    pub fn unmanage(&self, window: Window, config: &Config, out: &mut Vec<Command>)
        -> (r: WindowManager)
        requires
            self.wf(),
        ensures
            r.wf(),
            !r.model().contains(window),
            !self.model().contains(window) ==> r.model() == self.model() && final(out)@ == old(out)@,
            r.model() == self.model().deleted(window),
            self.model().contains(window) ==> final(out)@ == old(out)@
                + sync_commands(self.model(), r.model(), *config) + layout_commands(r.model(), *config),
    {
        if self.workspaces.contains(window) {
            let f = |w: &Workspaces| -> (t: Workspaces)
                requires
                    w@.wf(),
                ensures
                    t@.wf(),
                    !t@.contains(window),
                    t@ == w@.deleted(window),
                { w.delete(window) };
            let t = self.windows(config, f, out);
            t.reapply_layout(config, out)
        } else {
            WindowManager { workspaces: self.workspaces.copy() }
        }
    }

    /// Handles `window` receiving the pointer; `root` is the backend's background window.
    /// When the current workspace holds `window` and it is not focused yet, it gets the
    /// focus; otherwise, when `window` is the background, the workspace of the screen found
    /// for it (the current one when no displayed workspace holds it) becomes current;
    /// otherwise (a focused window, one on another screen or in a hidden workspace, or one
    /// that is not managed) nothing changes and nothing is sent.
    pub fn focus(&self, window: Window, root: Window, config: &Config, out: &mut Vec<Command>)
        -> (r: WindowManager)
        requires
            self.wf(),
        ensures
            r.wf(),
            ({
                let m = self.model();
                let s = m.screen_of(window);
                if m.holds(0, window) && m.peek() != Some(window) {
                    &&& r.model() == m.focused_on(window)
                    &&& final(out)@ == old(out)@ + sync_commands(m, r.model(), *config)
                } else if window == root {
                    &&& r.model() == m.swapped(s)
                    &&& final(out)@ == old(out)@ + sync_commands(m, r.model(), *config)
                } else {
                    &&& r.model() == m
                    &&& final(out)@ == old(out)@
                }
            }),
    {
        let s = self.workspaces.find_screen(window);
        if self.workspaces.workspaces[0].contains(window) && self.workspaces.peek() != Some(window) {
            let f = |w: &Workspaces| -> (t: Workspaces)
                requires
                    w@.wf(),
                ensures
                    t@.wf(),
                    t@ == w@.focused_on(window),
                { w.focus_window(window) };
            self.windows(config, f, out)
        } else if window == root {
            let id = self.workspaces.workspaces[s].id;
            proof { crate::workspaces::lemma_position_of(self.model(), s as int); }
            let f = |w: &Workspaces| -> (t: Workspaces)
                requires
                    w@.wf(),
                    id < w@.len(),
                ensures
                    t@.wf(),
                    t@ == w@.swapped(w@.position_of(id as nat)),
                { w.view_workspace(id) };
            self.windows(config, f, out)
        } else {
            WindowManager { workspaces: self.workspaces.copy() }
        }
    }

    /// Moves the focus of the current workspace to the next window, wrapping around, and
    /// brings the backend in line.
    pub fn focus_down(&self, config: &Config, out: &mut Vec<Command>) -> (r: WindowManager)
        requires
            self.wf(),
        ensures
            r.wf(),
            r.model() == self.model().with_workspace(0, self.model().current().with_stack(
                match self.model().current().stack {
                    Some(s) => Some(crate::stack::StackView {
                        windows: s.windows,
                        focus: ((s.focus + 1) as int % (s.windows.len() as int)) as nat,
                    }),
                    None => None,
                })),
            final(out)@ == old(out)@ + sync_commands(self.model(), r.model(), *config),
    {
        let f = |w: &Workspaces| -> (t: Workspaces)
            requires
                w@.wf(),
            ensures
                t@.wf(),
                t@ == w@.with_workspace(0, w@.current().with_stack(match w@.current().stack {
                    Some(s) => Some(crate::stack::StackView {
                        windows: s.windows,
                        focus: ((s.focus + 1) as int % (s.windows.len() as int)) as nat,
                    }),
                    None => None,
                })),
            { w.focus_down() };
        self.windows(config, f, out)
    }

    /// Moves the focus of the current workspace to the previous window, wrapping around, and
    /// brings the backend in line.
    pub fn focus_up(&self, config: &Config, out: &mut Vec<Command>) -> (r: WindowManager)
        requires
            self.wf(),
        ensures
            r.wf(),
            r.model() == self.model().with_workspace(0, self.model().current().with_stack(
                match self.model().current().stack {
                    Some(s) => Some(crate::stack::StackView {
                        windows: s.windows,
                        focus: ((s.focus + s.windows.len() - 1) as int % (s.windows.len() as int)) as nat,
                    }),
                    None => None,
                })),
            final(out)@ == old(out)@ + sync_commands(self.model(), r.model(), *config),
    {
        let f = |w: &Workspaces| -> (t: Workspaces)
            requires
                w@.wf(),
            ensures
                t@.wf(),
                t@ == w@.with_workspace(0, w@.current().with_stack(match w@.current().stack {
                    Some(s) => Some(crate::stack::StackView {
                        windows: s.windows,
                        focus: ((s.focus + s.windows.len() - 1) as int % (s.windows.len() as int)) as nat,
                    }),
                    None => None,
                })),
            { w.focus_up() };
        self.windows(config, f, out)
    }
}

} // verus!
