use wtftw::layout::apply_layout;
use wtftw::stack::{Stack, Window};
use wtftw::window_manager::{Command, Config, WindowManager};
use wtftw::workspace::Rectangle;

const NORMAL: u32 = 0x333333;
const FOCUS: u32 = 0xff0000;

fn config(tags: &[&str]) -> Config {
    Config {
        tags: tags.iter().map(|t| t.to_string()).collect(),
        border_width: 2,
        border_color: NORMAL,
        focus_border_color: FOCUS,
    }
}

fn screen(x: u32, y: u32, width: u32, height: u32) -> Rectangle {
    Rectangle { x, y, width, height }
}

fn stack_of(wm: &WindowManager, tag: &str) -> Vec<Window> {
    let ws = wm.workspaces.workspaces.iter().find(|w| w.tag == tag).unwrap();
    match &ws.stack {
        Some(s) => s.windows.clone(),
        None => vec![],
    }
}

fn current_tag(wm: &WindowManager) -> String {
    wm.workspaces.workspaces[0].tag.clone()
}

/// The windows whose last border color command in `cmds` set the focus color.
fn highlighted(cmds: &[Command]) -> Vec<Window> {
    let mut last: Vec<(Window, u32)> = vec![];
    for c in cmds {
        if let Command::SetBorderColor(w, col) = c {
            last.retain(|(v, _)| v != w);
            last.push((*w, *col));
        }
    }
    let mut r: Vec<Window> = last.iter().filter(|(_, c)| *c == FOCUS).map(|(w, _)| *w).collect();
    r.sort();
    r
}

#[test]
fn scenario_manage_view_unmanage() {
    let cfg = config(&["1", "2", "3"]);
    let wm = WindowManager::new(&vec![screen(0, 0, 800, 600)], &cfg);
    let mut out = vec![];
    let wm = wm.manage(10, &cfg, &mut out);
    assert!(wm.is_window_managed(10));
    assert_eq!(stack_of(&wm, "1"), vec![10]);
    assert!(out.contains(&Command::Resize(10, 796, 576)));
    assert!(out.contains(&Command::Move(10, 0, 20)));
    assert_eq!(out[0], Command::Show(10));

    let mut out = vec![];
    let wm = wm.view(1, &cfg, &mut out);
    assert_eq!(current_tag(&wm), "2");
    assert!(wm.is_window_managed(10));
    assert!(out.contains(&Command::Hide(10)));

    let mut out = vec![];
    let wm = wm.unmanage(10, &cfg, &mut out);
    assert!(!wm.is_window_managed(10));
    assert_eq!(stack_of(&wm, "1"), Vec::<Window>::new());
    assert_eq!(current_tag(&wm), "2");
}

#[test]
fn view_out_of_range_changes_nothing() {
    let cfg = config(&["1", "2", "3"]);
    let mut out = vec![];
    let wm = WindowManager::new(&vec![screen(0, 0, 800, 600)], &cfg).manage(7, &cfg, &mut out);
    let mut out = vec![];
    let r = wm.view(3, &cfg, &mut out);
    assert!(out.is_empty());
    assert_eq!(current_tag(&r), current_tag(&wm));
    assert_eq!(stack_of(&r, "1"), stack_of(&wm, "1"));
    let r = wm.view(1000, &cfg, &mut out);
    assert!(out.is_empty());
    assert_eq!(r.workspaces.workspaces.len(), 3);
}

#[test]
fn manage_then_unmanage() {
    let cfg = config(&["a", "b"]);
    let mut out = vec![];
    let wm = WindowManager::new(&vec![screen(0, 0, 100, 100)], &cfg);
    assert!(!wm.is_window_managed(3));
    let wm = wm.manage(3, &cfg, &mut out);
    assert!(wm.is_window_managed(3));
    let wm = wm.unmanage(3, &cfg, &mut out);
    assert!(!wm.is_window_managed(3));
    let before = out.len();
    let wm = wm.unmanage(3, &cfg, &mut out);
    assert_eq!(out.len(), before);
    assert!(!wm.is_window_managed(3));
}

#[test]
fn manage_is_idempotent() {
    let cfg = config(&["a", "b"]);
    let mut out = vec![];
    let wm = WindowManager::new(&vec![screen(0, 0, 100, 100)], &cfg)
        .manage(1, &cfg, &mut out)
        .manage(2, &cfg, &mut out)
        .manage(3, &cfg, &mut out);
    assert_eq!(stack_of(&wm, "a"), vec![3, 2, 1]);
    assert_eq!(wm.workspaces.peek(), Some(3));
    let mut out = vec![];
    let again = wm.manage(2, &cfg, &mut out);
    assert!(out.is_empty());
    assert_eq!(stack_of(&again, "a"), vec![3, 2, 1]);
    assert_eq!(again.workspaces.peek(), Some(3));
}

#[test]
fn insertion_goes_above_the_focus() {
    let cfg = config(&["a"]);
    let mut out = vec![];
    let wm = WindowManager::new(&vec![screen(0, 0, 100, 100)], &cfg)
        .manage(1, &cfg, &mut out)
        .manage(2, &cfg, &mut out);
    assert_eq!(stack_of(&wm, "a"), vec![2, 1]);
    let wm = wm.focus_up(&cfg, &mut out);
    assert_eq!(wm.workspaces.peek(), Some(1));
    let wm = wm.manage(5, &cfg, &mut out);
    assert_eq!(stack_of(&wm, "a"), vec![2, 5, 1]);
    assert_eq!(wm.workspaces.peek(), Some(5));
}

#[test]
fn each_window_in_one_workspace() {
    let cfg = config(&["1", "2", "3", "4"]);
    let mut out = vec![];
    let wm = WindowManager::new(&vec![screen(0, 0, 800, 600), screen(800, 0, 800, 600)], &cfg)
        .manage(1, &cfg, &mut out)
        .manage(2, &cfg, &mut out)
        .move_window_to_workspace(&cfg, 2, &mut out)
        .manage(3, &cfg, &mut out)
        .view(1, &cfg, &mut out)
        .manage(4, &cfg, &mut out)
        .move_window_to_workspace(&cfg, 3, &mut out)
        .manage(5, &cfg, &mut out)
        .unmanage(1, &cfg, &mut out);
    let mut all = wm.workspaces.all_windows();
    all.sort();
    assert_eq!(all, vec![2, 3, 4, 5]);
    assert_eq!(stack_of(&wm, "3"), vec![2]);
    assert_eq!(stack_of(&wm, "4"), vec![4]);
    for w in [2u64, 3, 4, 5] {
        let n = wm.workspaces.workspaces.iter().filter(|ws| ws.contains(w)).count();
        assert_eq!(n, 1);
    }
}

#[test]
fn one_highlight_after_each_operation() {
    let cfg = config(&["1", "2", "3"]);
    let mut out = vec![];
    let mut wm = WindowManager::new(&vec![screen(0, 0, 800, 600), screen(800, 0, 640, 480)], &cfg);
    let ops: Vec<Box<dyn Fn(&WindowManager, &mut Vec<Command>) -> WindowManager>> = vec![
        Box::new(|s, o| s.manage(1, &cfg, o)),
        Box::new(|s, o| s.manage(2, &cfg, o)),
        Box::new(|s, o| s.manage(3, &cfg, o)),
        Box::new(|s, o| s.view(1, &cfg, o)),
        Box::new(|s, o| s.manage(4, &cfg, o)),
        Box::new(|s, o| s.view(0, &cfg, o)),
        Box::new(|s, o| s.focus(1, 999, &cfg, o)),
        Box::new(|s, o| s.focus_down(&cfg, o)),
        Box::new(|s, o| s.focus_up(&cfg, o)),
        Box::new(|s, o| s.move_window_to_workspace(&cfg, 2, o)),
        Box::new(|s, o| s.unmanage(2, &cfg, o)),
        Box::new(|s, o| s.view(2, &cfg, o)),
        Box::new(|s, o| s.unmanage(4, &cfg, o)),
    ];
    for op in ops.iter() {
        wm = op(&wm, &mut out);
        let expected: Vec<Window> = wm.workspaces.peek().into_iter().collect();
        assert_eq!(highlighted(&out), expected);
    }
}

#[test]
fn rescreen_keeps_priority_order() {
    let cfg = config(&["1", "2", "3", "4"]);
    let mut out = vec![];
    let wm = WindowManager::new(&vec![screen(0, 0, 800, 600)], &cfg).view(2, &cfg, &mut out);
    let order: Vec<String> = wm.workspaces.workspaces.iter().map(|w| w.tag.clone()).collect();
    assert_eq!(order, vec!["3", "2", "1", "4"]);
    let wm = wm.rescreen(&vec![screen(0, 0, 800, 600), screen(800, 0, 1024, 768), screen(0, 600, 10, 10)]);
    let screens = wm.workspaces.screens();
    assert_eq!(screens.len(), 3);
    assert_eq!(screens[0].workspace.tag, "3");
    assert_eq!(screens[0].screen_id, 0);
    assert_eq!(screens[1].workspace.tag, "2");
    assert_eq!(screens[1].screen_detail, screen(800, 0, 1024, 768));
    assert_eq!(screens[2].workspace.tag, "1");
    let wm = wm.rescreen(&vec![screen(0, 0, 640, 480)]);
    let screens = wm.workspaces.screens();
    assert_eq!(screens.len(), 1);
    assert_eq!(screens[0].workspace.tag, "3");
    assert_eq!(wm.workspaces.workspaces.len(), 4);
}

#[test]
fn rescreen_with_more_monitors_than_workspaces() {
    let cfg = config(&["1", "2"]);
    let wm = WindowManager::new(&vec![screen(0, 0, 10, 10)], &cfg);
    let wm = wm.rescreen(&vec![screen(0, 0, 10, 10), screen(10, 0, 10, 10), screen(20, 0, 10, 10)]);
    assert_eq!(wm.workspaces.screens().len(), 2);
}

#[test]
fn reapply_layout_keeps_the_model() {
    let cfg = config(&["1", "2"]);
    let mut out = vec![];
    let wm = WindowManager::new(&vec![screen(0, 0, 800, 600)], &cfg)
        .manage(1, &cfg, &mut out)
        .manage(2, &cfg, &mut out);
    let mut out = vec![];
    let r = wm.reapply_layout(&cfg, &mut out);
    assert_eq!(stack_of(&r, "1"), stack_of(&wm, "1"));
    assert_eq!(r.workspaces.peek(), wm.workspaces.peek());
    assert_eq!(r.workspaces.screens, wm.workspaces.screens);
    assert_eq!(out.last(), Some(&Command::Flush));
    assert_eq!(
        out,
        vec![
            Command::Show(2),
            Command::Resize(2, 396, 576),
            Command::Move(2, 0, 20),
            Command::SetBorderWidth(2, 2),
            Command::SetBorderColor(2, FOCUS),
            Command::Show(1),
            Command::Resize(1, 396, 576),
            Command::Move(1, 400, 20),
            Command::SetBorderWidth(1, 2),
            Command::SetBorderColor(1, NORMAL),
            Command::Flush,
        ]
    );
}

#[test]
fn tall_layout_places_master_and_rows() {
    let s = Some(Stack { windows: vec![7, 8, 9], focus: 0 });
    let p = apply_layout(screen(0, 20, 800, 580), &s);
    assert_eq!(
        p,
        vec![
            (7, screen(0, 20, 400, 580)),
            (8, screen(400, 20, 400, 290)),
            (9, screen(400, 310, 400, 290)),
        ]
    );
    assert!(apply_layout(screen(0, 0, 1, 1), &None).is_empty());
}

#[test]
fn focus_down_and_up_move_the_highlight() {
    let cfg = config(&["1"]);
    let mut out = vec![];
    let wm = WindowManager::new(&vec![screen(0, 0, 800, 600)], &cfg)
        .manage(1, &cfg, &mut out)
        .manage(2, &cfg, &mut out)
        .manage(3, &cfg, &mut out);
    assert_eq!(stack_of(&wm, "1"), vec![3, 2, 1]);
    assert_eq!(wm.workspaces.peek(), Some(3));
    let d = wm.focus_down(&cfg, &mut out);
    assert_eq!(d.workspaces.peek(), Some(2));
    assert_eq!(stack_of(&d, "1"), vec![3, 2, 1]);
    assert_eq!(highlighted(&out), vec![2]);
    assert_eq!(out.last(), Some(&Command::Focus(2)));
    let u = wm.focus_up(&cfg, &mut out);
    assert_eq!(u.workspaces.peek(), Some(1));
    assert_eq!(highlighted(&out), vec![1]);
    assert_eq!(u.focus_down(&cfg, &mut out).workspaces.peek(), Some(3));
    assert_eq!(highlighted(&out), vec![3]);
}

#[test]
fn focus_within_current_screen() {
    let cfg = config(&["1", "2"]);
    let mut out = vec![];
    let wm = WindowManager::new(&vec![screen(0, 0, 800, 600)], &cfg)
        .manage(1, &cfg, &mut out)
        .manage(2, &cfg, &mut out);
    let mut out = vec![];
    let f = wm.focus(1, 999, &cfg, &mut out);
    assert_eq!(f.workspaces.peek(), Some(1));
    assert_eq!(out.last(), Some(&Command::Focus(1)));
    let mut out = vec![];
    let g = f.focus(1, 999, &cfg, &mut out);
    assert!(out.is_empty());
    assert_eq!(g.workspaces.peek(), Some(1));
}

#[test]
fn focus_on_root_views_the_screen_found() {
    let cfg = config(&["1", "2", "3"]);
    let mut out = vec![];
    let wm = WindowManager::new(&vec![screen(0, 0, 800, 600), screen(800, 0, 800, 600)], &cfg)
        .view(1, &cfg, &mut out)
        .manage(6, &cfg, &mut out)
        .view(0, &cfg, &mut out);
    assert_eq!(current_tag(&wm), "1");
    let mut out = vec![];
    let r = wm.focus(6, 6, &cfg, &mut out);
    assert_eq!(current_tag(&r), "2");
    assert_eq!(r.workspaces.peek(), Some(6));
    let mut out = vec![];
    let r2 = wm.focus(6, 999, &cfg, &mut out);
    assert!(out.is_empty());
    assert_eq!(current_tag(&r2), "1");
}

#[test]
fn move_window_to_workspace_moves_focused() {
    let cfg = config(&["1", "2"]);
    let mut out = vec![];
    let wm = WindowManager::new(&vec![screen(0, 0, 800, 600)], &cfg)
        .manage(1, &cfg, &mut out)
        .manage(2, &cfg, &mut out);
    let wm = wm.move_window_to_workspace(&cfg, 1, &mut out);
    assert_eq!(stack_of(&wm, "1"), vec![1]);
    assert_eq!(stack_of(&wm, "2"), vec![2]);
    assert_eq!(wm.workspaces.peek(), Some(1));
    let mut out = vec![];
    let same = wm.move_window_to_workspace(&cfg, 9, &mut out);
    assert!(out.is_empty());
    assert_eq!(stack_of(&same, "1"), vec![1]);
}

#[test]
fn delete_hands_focus_to_neighbour() {
    let cfg = config(&["1"]);
    let mut out = vec![];
    let wm = WindowManager::new(&vec![screen(0, 0, 800, 600)], &cfg)
        .manage(1, &cfg, &mut out)
        .manage(2, &cfg, &mut out)
        .manage(3, &cfg, &mut out)
        .focus_down(&cfg, &mut out);
    assert_eq!(stack_of(&wm, "1"), vec![3, 2, 1]);
    assert_eq!(wm.workspaces.peek(), Some(2));
    let a = wm.unmanage(2, &cfg, &mut out);
    assert_eq!(stack_of(&a, "1"), vec![3, 1]);
    assert_eq!(a.workspaces.peek(), Some(1));
    let b = a.unmanage(1, &cfg, &mut out);
    assert_eq!(b.workspaces.peek(), Some(3));
    let c = b.unmanage(3, &cfg, &mut out);
    assert_eq!(c.workspaces.peek(), None);
}

#[test]
fn new_builds_one_workspace_per_tag() {
    let cfg = config(&["web", "code"]);
    let wm = WindowManager::new(&vec![screen(0, 0, 1, 1), screen(1, 0, 1, 1), screen(2, 0, 1, 1)], &cfg);
    assert_eq!(wm.workspaces.number_workspaces(), 2);
    assert_eq!(wm.workspaces.screens().len(), 2);
    assert_eq!(wm.workspaces.workspaces[1].tag, "code");
    assert_eq!(wm.workspaces.workspaces[1].layout, "Tall");
    assert_eq!(wm.workspaces.workspaces[1].id, 1);
}

#[test]
fn unfocus_and_reveal_commands() {
    let cfg = config(&["1", "2"]);
    let mut out = vec![];
    let wm = WindowManager::new(&vec![screen(0, 0, 800, 600)], &cfg)
        .manage(1, &cfg, &mut out)
        .manage(2, &cfg, &mut out);
    let mut out = vec![];
    wm.unfocus_windows(&cfg, &mut out);
    assert_eq!(out, vec![Command::SetBorderColor(2, NORMAL), Command::SetBorderColor(1, NORMAL)]);
    let mut out = vec![];
    let r = wm.reveal_window(9, &mut out);
    assert_eq!(out, vec![Command::Show(9)]);
    assert!(!r.is_window_managed(9));
}

#[test]
fn modify_workspaces_applies_the_function() {
    let cfg = config(&["1", "2"]);
    let wm = WindowManager::new(&vec![screen(0, 0, 800, 600)], &cfg);
    let r = wm.modify_workspaces(|w| w.insert_up(4));
    assert!(r.is_window_managed(4));
    assert!(!wm.is_window_managed(4));
}

#[test]
fn border_larger_than_window_shrinks_to_zero() {
    let mut cfg = config(&["1"]);
    cfg.border_width = 500;
    let mut out = vec![];
    let _ = WindowManager::new(&vec![screen(0, 0, 800, 10)], &cfg).manage(1, &cfg, &mut out);
    assert!(out.contains(&Command::Resize(1, 0, 0)));
    assert!(out.contains(&Command::Move(1, 0, 20)));
}

#[test]
fn manage_hook_can_send_the_window_elsewhere() {
    let cfg = config(&["1", "2", "3"]);
    let mut out = vec![];
    let wm = WindowManager::new(&vec![screen(0, 0, 800, 600)], &cfg);
    let wm = wm.manage_with_hook(8, &cfg, |ws, _w| ws.shift(2), &mut out);
    assert_eq!(out[0], Command::Show(8));
    assert!(wm.is_window_managed(8));
    assert_eq!(stack_of(&wm, "1"), Vec::<Window>::new());
    assert_eq!(stack_of(&wm, "3"), vec![8]);
    assert!(out.contains(&Command::Hide(8)));
    let mut out = vec![];
    let same = wm.manage_with_hook(8, &cfg, |ws, _w| ws.shift(1), &mut out);
    assert!(out.is_empty());
    assert_eq!(stack_of(&same, "3"), vec![8]);
}

#[test]
fn focus_on_unmanaged_or_hidden_window_does_nothing() {
    let cfg = config(&["1", "2", "3"]);
    let mut out = vec![];
    let wm = WindowManager::new(&vec![screen(0, 0, 800, 600)], &cfg)
        .manage(1, &cfg, &mut out)
        .manage(2, &cfg, &mut out)
        .view(1, &cfg, &mut out)
        .manage(3, &cfg, &mut out);
    assert_eq!(current_tag(&wm), "2");
    assert_eq!(stack_of(&wm, "1"), vec![2, 1]);
    let mut out = vec![];
    let r = wm.focus(42, 999, &cfg, &mut out);
    assert!(out.is_empty());
    assert_eq!(current_tag(&r), "2");
    assert_eq!(r.workspaces.peek(), Some(3));
    assert_eq!(stack_of(&r, "1"), vec![2, 1]);
    assert!(!r.is_window_managed(42));
    let r = wm.focus(1, 999, &cfg, &mut out);
    assert!(out.is_empty());
    assert_eq!(current_tag(&r), "2");
    assert_eq!(r.workspaces.peek(), Some(3));
    let r = wm.focus(3, 999, &cfg, &mut out);
    assert!(out.is_empty());
    assert_eq!(r.workspaces.peek(), Some(3));
}

#[test]
fn focus_on_real_root_resynchronizes_current() {
    let cfg = config(&["1", "2"]);
    let mut out = vec![];
    let wm = WindowManager::new(&vec![screen(0, 0, 800, 600)], &cfg).manage(5, &cfg, &mut out);
    let mut out = vec![];
    let r = wm.focus(999, 999, &cfg, &mut out);
    assert_eq!(current_tag(&r), "1");
    assert_eq!(r.workspaces.peek(), Some(5));
    assert_eq!(out.last(), Some(&Command::Focus(5)));
}
