use vstd::prelude::*;
use crate::stack::{Window, Stack};
use crate::workspace::Rectangle;

verus! {

/// `v` clamped to the largest `u32`.
pub open spec fn clamp_u32(v: int) -> u32 {
    if v > u32::MAX { u32::MAX } else if v < 0 { 0 } else { v as u32 }
}

/// Where the Tall layout puts window `i` of `n` inside `r`: a single window fills `r`;
/// otherwise the first takes the left half and the others share the right half in rows of
/// equal height.
pub open spec fn tall_rect(r: Rectangle, n: nat, i: nat) -> Rectangle {
    if n <= 1 {
        r
    } else if i == 0 {
        Rectangle { x: r.x, y: r.y, width: (r.width / 2) as u32, height: r.height }
    } else {
        let h = r.height as int / (n - 1);
        Rectangle {
            x: clamp_u32(r.x + r.width / 2),
            y: clamp_u32(r.y + (i - 1) * h),
            width: (r.width - r.width / 2) as u32,
            height: h as u32,
        }
    }
}

fn tall_place(r: Rectangle, n: usize, i: usize) -> (p: Rectangle)
    requires
        i < n,
    ensures
        p == tall_rect(r, n as nat, i as nat),
{
    if n <= 1 {
        r
    } else if i == 0 {
        Rectangle { x: r.x, y: r.y, width: r.width / 2, height: r.height }
    } else {
        let h: u64 = (r.height as u64) / ((n - 1) as u64);
        let x: u64 = r.x as u64 + (r.width / 2) as u64;
        let k: u64 = (i - 1) as u64;
        proof {
            let hh = r.height as int;
            let m = (n - 1) as int;
            assert(h as int == hh / m);
            assert(k * (hh / m) <= hh) by (nonlinear_arith)
                requires k < m, m > 0, hh >= 0, (k as int) >= 0;
        }
        let y: u64 = r.y as u64 + k * h;
        Rectangle {
            x: if x > u32::MAX as u64 { u32::MAX } else { x as u32 },
            y: if y > u32::MAX as u64 { u32::MAX } else { y as u32 },
            width: r.width - r.width / 2,
            height: h as u32,
        }
    }
}

/// The windows of `stack`, in order, each with its placement in `r` by the Tall layout.
pub fn apply_layout(r: Rectangle, stack: &Option<Stack>) -> (p: Vec<(Window, Rectangle)>)
    ensures
        ({
            let ws = match stack { Some(s) => s@.windows, None => Seq::<Window>::empty() };
            &&& p@.len() == ws.len()
            &&& forall|i: int| 0 <= i < ws.len() ==> #[trigger] p@[i]
                == (ws[i], tall_rect(r, ws.len(), i as nat))
        }),
{
    let mut p: Vec<(Window, Rectangle)> = Vec::new();
    match stack {
        None => {},
        Some(s) => {
            let n = s.windows.len();
            let mut i: usize = 0;
            while i < n
                invariant
                    n == s.windows.len(),
                    i <= n,
                    p@.len() == i,
                    forall|j: int| 0 <= j < i ==> #[trigger] p@[j]
                        == (s@.windows[j], tall_rect(r, n as nat, j as nat)),
                decreases n - i,
            {
                p.push((s.windows[i], tall_place(r, n, i)));
                i = i + 1;
            }
        },
    }
    p
}

} // verus!
