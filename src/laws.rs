use vstd::prelude::*;
use crate::stack::Window;
use crate::workspace::{lemma_insert_contents, lemma_delete_contents, stack_insert};
use crate::workspaces::{WorkspacesView, concat, lemma_concat_contains, lemma_update_wf};
use crate::window_manager::{
    Command, Config, highlight, hide_parts, layout_commands, layout_parts, screen_parts,
    sync_commands, unfocus_commands,
};

verus! {

/// Taking a window under management keeps the model valid and makes the window managed.
pub proof fn lemma_managed(m: WorkspacesView, w: Window)
    requires
        m.wf(),
    ensures
        m.managed(w).wf(),
        m.managed(w).contains(w),
{
    if m.contains(w) {
        let k = choose|k: int| #[trigger] m.holds(k, w);
        assert(m.managed(w).holds(k, w));
    } else {
        assert(!m.holds(0, w));
        let x = m.current().with_stack(stack_insert(m.current().stack, w));
        assert(m.workspaces[0].wf());
        lemma_insert_contents(m.current(), w);
        lemma_update_wf(m, 0, x);
        assert(x.windows().contains(w));
        assert(m.managed(w).holds(0, w));
    }
}

/// Releasing a window keeps the model valid and leaves the window unmanaged.
pub proof fn lemma_deleted(m: WorkspacesView, w: Window)
    requires
        m.wf(),
    ensures
        m.deleted(w).wf(),
        !m.deleted(w).contains(w),
{
    if m.contains(w) {
        let k = m.holder(w);
        assert(m.holds(k, w));
        let x = m.workspaces[k].with_stack(crate::workspace::stack_delete(m.workspaces[k].stack, w));
        assert(m.workspaces[k].wf());
        lemma_delete_contents(m.workspaces[k], w);
        lemma_update_wf(m, k, x);
        assert forall|j: int| !#[trigger] m.deleted(w).holds(j, w) by {
            if j != k && m.deleted(w).holds(j, w) {
                assert(m.holds(j, w));
                assert(m.workspaces[k].windows().contains(w));
            }
        }
    }
}

/// A window taken under management is managed; once released again it is not.
pub proof fn lemma_manage_then_unmanage(m: WorkspacesView, w: Window)
    requires
        m.wf(),
    ensures
        m.managed(w).contains(w),
        !m.managed(w).deleted(w).contains(w),
{
    lemma_managed(m, w);
    lemma_deleted(m.managed(w), w);
}

/// In a valid model every managed window stands in exactly one workspace's stack, and that
/// workspace is exactly one of current, visible or hidden.
pub proof fn lemma_one_place_per_window(m: WorkspacesView, w: Window)
    requires
        m.wf(),
        m.contains(w),
    ensures
        m.holds(m.holder(w), w),
        forall|k: int| #[trigger] m.holds(k, w) ==> k == m.holder(w),
        (m.holder(w) == 0) as int + m.is_visible(m.holder(w)) as int
            + m.is_hidden(m.holder(w)) as int == 1,
{
    let h = m.holder(w);
    assert(m.holds(h, w));
    assert forall|k: int| #[trigger] m.holds(k, w) implies k == h by {
        if k != h {
            assert(m.workspaces[h].windows().contains(w));
        }
    }
}

/// The border color that the last color command for `w` in `cmds` sets, if any.
pub open spec fn last_color(cmds: Seq<Command>, w: Window) -> Option<u32>
    decreases cmds.len(),
{
    if cmds.len() == 0 {
        None
    } else {
        match cmds.last() {
            Command::SetBorderColor(v, c) => if v == w {
                Some(c)
            } else {
                last_color(cmds.drop_last(), w)
            },
            _ => last_color(cmds.drop_last(), w),
        }
    }
}

proof fn lemma_last_color_append(a: Seq<Command>, b: Seq<Command>, w: Window)
    ensures
        last_color(a + b, w) == if last_color(b, w) is Some { last_color(b, w) } else { last_color(a, w) },
    decreases b.len(),
{
    if b.len() == 0 {
        assert(a + b =~= a);
    } else {
        assert((a + b).drop_last() =~= a + b.drop_last());
        assert((a + b).last() == b.last());
        lemma_last_color_append(a, b.drop_last(), w);
    }
}

proof fn lemma_last_color_member(s: Seq<Command>, w: Window)
    ensures
        last_color(s, w) matches Some(c) ==> s.contains(Command::SetBorderColor(w, c)),
    decreases s.len(),
{
    if s.len() > 0 {
        lemma_last_color_member(s.drop_last(), w);
        if let Some(c) = last_color(s, w) {
            if s.last() == Command::SetBorderColor(w, c) {
                assert(s[s.len() - 1] == Command::SetBorderColor(w, c));
            } else {
                let j = choose|j: int| 0 <= j < s.len() - 1
                    && s.drop_last()[j] == Command::SetBorderColor(w, c);
                assert(s[j] == Command::SetBorderColor(w, c));
            }
        }
    }
}

/// Every color command of a reprojection gives its window the color `highlight` names.
proof fn lemma_layout_colors(m: WorkspacesView, c: Config, v: Window, col: u32)
    requires
        m.wf(),
        layout_commands(m, c).contains(Command::SetBorderColor(v, col)),
    ensures
        col == highlight(m, c, v),
{
    let x = Command::SetBorderColor(v, col);
    let h = concat(hide_parts(m));
    let p = concat(layout_parts(m, c));
    let l = layout_commands(m, c);
    let j = choose|j: int| 0 <= j < l.len() && l[j] == x;
    if j < h.len() {
        assert(h[j] == x);
        lemma_concat_contains(hide_parts(m), x);
        let i = choose|i: int| 0 <= i < hide_parts(m).len() && #[trigger] hide_parts(m)[i].contains(x);
        let part = hide_parts(m)[i];
        let q = choose|q: int| 0 <= q < part.len() && part[q] == x;
    } else if j < h.len() + p.len() {
        assert(p[j - h.len()] == x);
        lemma_concat_contains(layout_parts(m, c), x);
        let s = choose|s: int| 0 <= s < layout_parts(m, c).len() && #[trigger] layout_parts(m, c)[s].contains(x);
        lemma_concat_contains(screen_parts(m, c, s), x);
        let i = choose|i: int| 0 <= i < screen_parts(m, c, s).len()
            && #[trigger] screen_parts(m, c, s)[i].contains(x);
        let part = screen_parts(m, c, s)[i];
        let q = choose|q: int| 0 <= q < part.len() && part[q] == x;
    } else {
        assert(l[j] == Command::Flush);
    }
}

proof fn lemma_unfocus_colors(ws: Seq<Window>, c: Config, v: Window, col: u32)
    requires
        unfocus_commands(ws, c).contains(Command::SetBorderColor(v, col)),
    ensures
        col == c.border_color,
{
    let u = unfocus_commands(ws, c);
    let j = choose|j: int| 0 <= j < u.len() && u[j] == Command::SetBorderColor(v, col);
}

/// After the backend is brought from model `a` to model `b`, the focused window of `b` is
/// the one window whose last border color is the focus color, and the old focused window
/// has had its border color set again. So when only the old focus carried the focus color
/// before, only the new focus carries it after.
pub proof fn lemma_single_highlight(a: WorkspacesView, b: WorkspacesView, c: Config, w: Window)
    requires
        a.wf(),
        b.wf(),
        c.focus_border_color != c.border_color,
    ensures
        last_color(sync_commands(a, b, c), w) == Some(c.focus_border_color) <==> b.peek() == Some(w),
        a.peek() matches Some(o) ==> last_color(sync_commands(a, b, c), o) is Some,
{
    let first = match a.peek() {
        Some(o) => seq![Command::SetBorderColor(o, c.border_color)],
        None => Seq::empty(),
    };
    let l = layout_commands(b, c);
    let u = unfocus_commands(crate::workspaces::displayed_windows(a), c);
    let fin = match b.peek() {
        Some(f) => seq![Command::SetBorderColor(f, c.focus_border_color), Command::Focus(f)],
        None => Seq::empty(),
    };
    assert(sync_commands(a, b, c) == first + l + u + fin);
    lemma_last_color_append(first + l + u, fin, w);
    lemma_last_color_append(first + l, u, w);
    lemma_last_color_append(first, l, w);
    lemma_last_color_member(fin, w);
    lemma_last_color_member(u, w);
    lemma_last_color_member(l, w);
    lemma_last_color_member(first, w);
    if let Some(col) = last_color(u, w) {
        lemma_unfocus_colors(crate::workspaces::displayed_windows(a), c, w, col);
    }
    if let Some(col) = last_color(l, w) {
        lemma_layout_colors(b, c, w, col);
    }
    if let Some(col) = last_color(first, w) {
        let j = choose|j: int| 0 <= j < first.len() && first[j] == Command::SetBorderColor(w, col);
        assert(col == c.border_color);
    }
    if let Some(f) = b.peek() {
        assert(fin.drop_last() =~= seq![Command::SetBorderColor(f, c.focus_border_color)]);
        assert(fin.drop_last().drop_last() =~= Seq::<Command>::empty());
        assert(last_color(fin.drop_last().drop_last(), w) is None);
        assert(last_color(fin, w) == last_color(fin.drop_last(), w));
        if f != w {
            assert(last_color(fin, w) is None);
        } else {
            assert(last_color(fin, w) == Some(c.focus_border_color));
        }
    } else {
        assert(fin.len() == 0);
        assert(last_color(fin, w) is None);
    }
    if let Some(o) = a.peek() {
        let s = sync_commands(a, b, c);
        lemma_last_color_append(first + l + u, fin, o);
        lemma_last_color_append(first + l, u, o);
        lemma_last_color_append(first, l, o);
        assert(first.drop_last() =~= Seq::<Command>::empty());
        assert(last_color(first, o) == Some(c.border_color));
    }
}

/// The same holds when a window is shown first, as taking a window under management does.
pub proof fn lemma_single_highlight_after_show(
    a: WorkspacesView,
    b: WorkspacesView,
    c: Config,
    v: Window,
    w: Window,
)
    requires
        a.wf(),
        b.wf(),
        c.focus_border_color != c.border_color,
    ensures
        last_color(seq![Command::Show(v)] + sync_commands(a, b, c), w) == Some(c.focus_border_color)
            <==> b.peek() == Some(w),
        a.peek() matches Some(o) ==> last_color(seq![Command::Show(v)] + sync_commands(a, b, c), o) is Some,
{
    let show = seq![Command::Show(v)];
    assert(show.drop_last() =~= Seq::<Command>::empty());
    assert(last_color(show.drop_last(), w) is None);
    assert(last_color(show, w) is None);
    lemma_single_highlight(a, b, c, w);
    lemma_last_color_append(show, sync_commands(a, b, c), w);
    if let Some(o) = a.peek() {
        lemma_single_highlight(a, b, c, o);
        lemma_last_color_append(show, sync_commands(a, b, c), o);
    }
}

/// The same holds when the layout is applied once more after the backend is brought in
/// line, as releasing a window does.
pub proof fn lemma_single_highlight_reapplied(
    a: WorkspacesView,
    b: WorkspacesView,
    c: Config,
    w: Window,
)
    requires
        a.wf(),
        b.wf(),
        c.focus_border_color != c.border_color,
    ensures
        last_color(sync_commands(a, b, c) + layout_commands(b, c), w) == Some(c.focus_border_color)
            <==> b.peek() == Some(w),
        a.peek() matches Some(o) ==> last_color(sync_commands(a, b, c) + layout_commands(b, c), o) is Some,
{
    lemma_single_highlight(a, b, c, w);
    let l = layout_commands(b, c);
    lemma_last_color_append(sync_commands(a, b, c), l, w);
    lemma_last_color_member(l, w);
    if let Some(col) = last_color(l, w) {
        lemma_layout_colors(b, c, w, col);
    }
    if let Some(o) = a.peek() {
        lemma_single_highlight(a, b, c, o);
        lemma_last_color_append(sync_commands(a, b, c), l, o);
    }
}

} // verus!
