use vstd::prelude::*;
use crate::frame::{Frame, grid_has_dims, new_frame, blank_grid, NUM_COLS, NUM_ROWS};

verus! {

/// One terminal update: move the cursor to column `x`, row `y` and write `ch`.
#[derive(Clone, Copy, Debug, PartialEq, Eq, Structural)]
pub struct CellWrite {
    pub x: usize,
    pub y: usize,
    pub ch: char,
}

/// What one render call sends to the terminal before its single flush:
/// an optional full clear, then the cell writes in order.
pub struct RenderPlan {
    pub clear: bool,
    pub writes: Vec<CellWrite>,
}

/// Whether the cell `(x, y)` must be written when going from `prev` to `curr`.
pub open spec fn touched(prev: Seq<Seq<char>>, curr: Seq<Seq<char>>, force: bool, x: int, y: int) -> bool {
    force || prev[x][y] != curr[x][y]
}

/// The write that puts `curr`'s character of cell `(x, y)` on screen.
pub open spec fn write_at(curr: Seq<Seq<char>>, x: int, y: int) -> CellWrite {
    CellWrite { x: x as usize, y: y as usize, ch: curr[x][y] }
}

/// The writes for rows `0 .. n` of column `x`, top to bottom.
pub open spec fn column_writes(prev: Seq<Seq<char>>, curr: Seq<Seq<char>>, force: bool, x: int, n: int) -> Seq<CellWrite>
    decreases n,
{
    if n <= 0 {
        Seq::empty()
    } else {
        let rest = column_writes(prev, curr, force, x, n - 1);
        if touched(prev, curr, force, x, n - 1) {
            rest.push(write_at(curr, x, n - 1))
        } else {
            rest
        }
    }
}

/// The writes for columns `0 .. n` (each of `h` rows), left to right.
pub open spec fn grid_writes(prev: Seq<Seq<char>>, curr: Seq<Seq<char>>, force: bool, h: int, n: int) -> Seq<CellWrite>
    decreases n,
{
    if n <= 0 {
        Seq::empty()
    } else {
        grid_writes(prev, curr, force, h, n - 1) + column_writes(prev, curr, force, n - 1, h)
    }
}

/// The writes that rendering `curr` over `prev` performs.
pub open spec fn planned_writes(prev: &Frame, curr: &Frame, force: bool) -> Seq<CellWrite> {
    grid_writes(prev@, curr@, force, curr.height as int, curr.width as int)
}

/// Some write of `s` goes to cell `(x, y)`.
pub open spec fn writes_cell(s: Seq<CellWrite>, x: int, y: int) -> bool {
    exists|i: int| 0 <= i < s.len() && (#[trigger] s[i]).x == x && s[i].y == y
}

/// `a` lies strictly before `b` in column-major order.
pub open spec fn comes_before(a: CellWrite, b: CellWrite) -> bool {
    a.x < b.x || (a.x == b.x && a.y < b.y)
}

/// Facts about the writes of one column, by induction on the rows covered.
proof fn lemma_column(prev: Seq<Seq<char>>, curr: Seq<Seq<char>>, force: bool, x: int, n: int)
    requires
        0 <= x < curr.len() <= usize::MAX,
        x < prev.len(),
        0 <= n <= curr[x].len() <= usize::MAX,
        n <= prev[x].len(),
    ensures
        ({
            let s = column_writes(prev, curr, force, x, n);
            &&& forall|i: int| 0 <= i < s.len() ==> {
                &&& (#[trigger] s[i]).x == x
                &&& 0 <= s[i].y < n
                &&& s[i].ch == curr[x][s[i].y as int]
                &&& touched(prev, curr, force, x, s[i].y as int)
            }
            &&& forall|y: int| 0 <= y < n && touched(prev, curr, force, x, y) ==>
                exists|i: int| 0 <= i < s.len() && (#[trigger] s[i]).y == y
            &&& forall|i: int, j: int| 0 <= i < j < s.len() ==> (#[trigger] s[i]).y < (#[trigger] s[j]).y
            &&& force ==> s.len() == n
            &&& (forall|y: int| 0 <= y < n ==> !touched(prev, curr, force, x, y)) ==> s.len() == 0
        }),
    decreases n,
{
    if n > 0 {
        lemma_column(prev, curr, force, x, n - 1);
        let r = column_writes(prev, curr, force, x, n - 1);
        let s = column_writes(prev, curr, force, x, n);
        if touched(prev, curr, force, x, n - 1) {
            let w = write_at(curr, x, n - 1);
            assert(s == r.push(w));
            assert(s[s.len() - 1] == w);
            assert forall|y: int| 0 <= y < n && touched(prev, curr, force, x, y) implies
                exists|i: int| 0 <= i < s.len() && (#[trigger] s[i]).y == y by {
                if y < n - 1 {
                    let i = choose|i: int| 0 <= i < r.len() && (#[trigger] r[i]).y == y;
                    assert(s[i] == r[i]);
                    assert(s[i].y == y);
                } else {
                    assert(s[s.len() - 1].y == y);
                }
            }
        }
    }
}

/// Facts about the writes of the first `n` columns, by induction on `n`.
proof fn lemma_grid(prev: Seq<Seq<char>>, curr: Seq<Seq<char>>, force: bool, w: int, h: int, n: int)
    requires
        0 <= n <= w <= usize::MAX,
        0 <= h <= usize::MAX,
        grid_has_dims(prev, w as nat, h as nat),
        grid_has_dims(curr, w as nat, h as nat),
    ensures
        ({
            let s = grid_writes(prev, curr, force, h, n);
            &&& forall|i: int| 0 <= i < s.len() ==> {
                &&& 0 <= (#[trigger] s[i]).x < n
                &&& 0 <= s[i].y < h
                &&& s[i].ch == curr[s[i].x as int][s[i].y as int]
                &&& touched(prev, curr, force, s[i].x as int, s[i].y as int)
            }
            &&& forall|x: int, y: int| 0 <= x < n && 0 <= y < h && touched(prev, curr, force, x, y) ==>
                exists|i: int| 0 <= i < s.len() && (#[trigger] s[i]).x == x && s[i].y == y
            &&& forall|i: int, j: int| 0 <= i < j < s.len() ==> comes_before(#[trigger] s[i], #[trigger] s[j])
            &&& force ==> s.len() == n * h
            &&& (forall|x: int, y: int| 0 <= x < n && 0 <= y < h ==> !touched(prev, curr, force, x, y)) ==> s.len() == 0
        }),
    decreases n,
{
    if n > 0 {
        lemma_grid(prev, curr, force, w, h, n - 1);
        lemma_column(prev, curr, force, n - 1, h);
        let r = grid_writes(prev, curr, force, h, n - 1);
        let c = column_writes(prev, curr, force, n - 1, h);
        let s = grid_writes(prev, curr, force, h, n);
        assert(s == r + c);
        assert forall|i: int| 0 <= i < s.len() implies {
            &&& 0 <= (#[trigger] s[i]).x < n
            &&& 0 <= s[i].y < h
            &&& s[i].ch == curr[s[i].x as int][s[i].y as int]
            &&& touched(prev, curr, force, s[i].x as int, s[i].y as int)
        } by {
            if i >= r.len() {
                assert(s[i] == c[i - r.len()]);
            } else {
                assert(s[i] == r[i]);
            }
        }
        assert forall|x: int, y: int| 0 <= x < n && 0 <= y < h && touched(prev, curr, force, x, y) implies
            exists|i: int| 0 <= i < s.len() && (#[trigger] s[i]).x == x && s[i].y == y by {
            if x < n - 1 {
                let i = choose|i: int| 0 <= i < r.len() && (#[trigger] r[i]).x == x && r[i].y == y;
                assert(s[i] == r[i]);
            } else {
                let k = choose|k: int| 0 <= k < c.len() && (#[trigger] c[k]).y == y;
                assert(s[r.len() + k] == c[k]);
            }
        }
        assert forall|i: int, j: int| 0 <= i < j < s.len() implies comes_before(#[trigger] s[i], #[trigger] s[j]) by {
            if j < r.len() {
                assert(s[i] == r[i] && s[j] == r[j]);
            } else if i >= r.len() {
                assert(s[i] == c[i - r.len()] && s[j] == c[j - r.len()]);
            } else {
                assert(s[i] == r[i] && s[j] == c[j - r.len()]);
            }
        }
        if force {
            assert(n * h == (n - 1) * h + h) by (nonlinear_arith);
        }
        if forall|x: int, y: int| 0 <= x < n && 0 <= y < h ==> !touched(prev, curr, force, x, y) {
            assert forall|y: int| 0 <= y < h implies !#[trigger] touched(prev, curr, force, n - 1, y) by {}
        }
    }
}

/// Without `force`, rendering writes exactly the cells whose character differs
/// between the two frames: each such cell once, with its new character, and no
/// other cell.
pub proof fn lemma_diff_touches_exactly_changed(prev: &Frame, curr: &Frame)
    requires
        prev.wf(),
        curr.wf(),
        curr.same_dims(prev),
    ensures
        ({
            let s = planned_writes(prev, curr, false);
            &&& forall|i: int| 0 <= i < s.len() ==> {
                &&& (#[trigger] s[i]).x < curr.width
                &&& s[i].y < curr.height
                &&& prev@[s[i].x as int][s[i].y as int] != curr@[s[i].x as int][s[i].y as int]
                &&& s[i].ch == curr@[s[i].x as int][s[i].y as int]
            }
            &&& forall|x: int, y: int| 0 <= x < curr.width && 0 <= y < curr.height
                && prev@[x][y] != curr@[x][y] ==> #[trigger] writes_cell(s, x, y)
            &&& forall|i: int, j: int| 0 <= i < j < s.len() ==> comes_before(#[trigger] s[i], #[trigger] s[j])
        }),
{
    lemma_frame_grid(prev);
    lemma_frame_grid(curr);
    lemma_grid(prev@, curr@, false, curr.width as int, curr.height as int, curr.width as int);
    let s = planned_writes(prev, curr, false);
    assert forall|x: int, y: int| 0 <= x < curr.width && 0 <= y < curr.height
        && prev@[x][y] != curr@[x][y] implies #[trigger] writes_cell(s, x, y) by {
        assert(touched(prev@, curr@, false, x, y));
    }
}

/// With `force`, rendering writes every cell of the frame exactly once, with
/// the current frame's character, whatever the previous frame holds.
pub proof fn lemma_forced_touches_every_cell_once(prev: &Frame, curr: &Frame)
    requires
        prev.wf(),
        curr.wf(),
        curr.same_dims(prev),
    ensures
        ({
            let s = planned_writes(prev, curr, true);
            &&& s.len() == curr.width * curr.height
            &&& forall|i: int| 0 <= i < s.len() ==> {
                &&& (#[trigger] s[i]).x < curr.width
                &&& s[i].y < curr.height
                &&& s[i].ch == curr@[s[i].x as int][s[i].y as int]
            }
            &&& forall|x: int, y: int| 0 <= x < curr.width && 0 <= y < curr.height ==>
                #[trigger] writes_cell(s, x, y)
            &&& forall|i: int, j: int| 0 <= i < j < s.len() ==> comes_before(#[trigger] s[i], #[trigger] s[j])
        }),
{
    lemma_frame_grid(prev);
    lemma_frame_grid(curr);
    lemma_grid(prev@, curr@, true, curr.width as int, curr.height as int, curr.width as int);
    let s = planned_writes(prev, curr, true);
    assert forall|x: int, y: int| 0 <= x < curr.width && 0 <= y < curr.height implies
        #[trigger] writes_cell(s, x, y) by {
        assert(touched(prev@, curr@, true, x, y));
    }
}

/// Rendering a frame over itself without `force` writes nothing.
pub proof fn lemma_rerender_writes_nothing(f: &Frame)
    requires
        f.wf(),
    ensures
        planned_writes(f, f, false).len() == 0,
{
    lemma_frame_grid(f);
    lemma_grid(f@, f@, false, f.width as int, f.height as int, f.width as int);
}

/// A well-formed frame's view has the frame's dimensions.
proof fn lemma_frame_grid(f: &Frame)
    requires
        f.wf(),
    ensures
        grid_has_dims(f@, f.width as nat, f.height as nat),
{
}

/// Computes the terminal updates that turn the picture of `last_frame` into
/// that of `curr_frame`. With `force` the screen is cleared and every cell is
/// written; otherwise only the cells whose character changed.
pub fn render(last_frame: &Frame, curr_frame: &Frame, force: bool) -> (plan: RenderPlan)
    requires
        last_frame.wf(),
        curr_frame.wf(),
        curr_frame.same_dims(last_frame),
    ensures
        plan.clear == force,
        plan.writes@ == planned_writes(last_frame, curr_frame, force),
{
    let ghost prev = last_frame@;
    let ghost curr = curr_frame@;
    let h = curr_frame.height;
    let mut writes: Vec<CellWrite> = Vec::new();
    let mut x: usize = 0;
    while x < curr_frame.width
        invariant
            x <= curr_frame.width,
            last_frame.wf(),
            curr_frame.wf(),
            curr_frame.same_dims(last_frame),
            h == curr_frame.height,
            prev == last_frame@,
            curr == curr_frame@,
            writes@ == grid_writes(prev, curr, force, h as int, x as int),
        decreases curr_frame.width - x,
    {
        let mut y: usize = 0;
        while y < h
            invariant
                x < curr_frame.width,
                y <= h,
                last_frame.wf(),
                curr_frame.wf(),
                curr_frame.same_dims(last_frame),
                h == curr_frame.height,
                prev == last_frame@,
                curr == curr_frame@,
                writes@ == grid_writes(prev, curr, force, h as int, x as int)
                    + column_writes(prev, curr, force, x as int, y as int),
            decreases h - y,
        {
            let c = curr_frame.get(x, y);
            if c != last_frame.get(x, y) || force {
                writes.push(CellWrite { x, y, ch: c });
            }
            y = y + 1;
        }
        x = x + 1;
    }
    RenderPlan { clear: force, writes }
}

/// The render task's memory: the frame most recently put on screen.
pub struct RenderTask {
    pub last: Frame,
}

impl RenderTask {
    /// Starts from a blank frame and the forced repaint that puts it on screen.
    pub fn start() -> (r: (RenderTask, RenderPlan))
        ensures
            r.0.last.wf(),
            r.0.last.width == NUM_COLS,
            r.0.last.height == NUM_ROWS,
            r.0.last@ == blank_grid(NUM_COLS as nat, NUM_ROWS as nat),
            r.1.clear,
            r.1.writes@ == planned_writes(&r.0.last, &r.0.last, true),
    {
        let last = new_frame();
        let plan = render(&last, &last, true);
        (RenderTask { last }, plan)
    }

    /// Shows the next received frame: the writes that differ from the last
    /// one, after which it becomes the last frame.
    pub fn show(&mut self, frame: Frame) -> (plan: RenderPlan)
        requires
            old(self).last.wf(),
            frame.wf(),
            frame.same_dims(&old(self).last),
        ensures
            !plan.clear,
            plan.writes@ == planned_writes(&old(self).last, &frame, false),
            final(self).last == frame,
    {
        let plan = render(&self.last, &frame, false);
        self.last = frame;
        plan
    }
}

} // verus!
