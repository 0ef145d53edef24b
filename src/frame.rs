use vstd::prelude::*;

verus! {

/// Number of terminal columns of a game frame.
pub const NUM_COLS: usize = 80;

/// Number of terminal rows of a game frame.
pub const NUM_ROWS: usize = 24;

/// The character of a cell that nothing has been painted on.
pub const BLANK: char = ' ';

/// A fixed-size grid of display characters, stored column by column:
/// `cells[x][y]` is the cell at column `x`, row `y`.
#[derive(Debug)]
pub struct Frame {
    pub width: usize,
    pub height: usize,
    pub cells: Vec<Vec<char>>,
}

/// The grid of `w` columns and `h` rows where every cell is blank.
pub open spec fn blank_grid(w: nat, h: nat) -> Seq<Seq<char>> {
    Seq::new(w, |x: int| Seq::new(h, |y: int| BLANK))
}

/// `g` with the single cell `(x, y)` replaced by `c`.
pub open spec fn put_cell(g: Seq<Seq<char>>, x: int, y: int, c: char) -> Seq<Seq<char>> {
    g.update(x, g[x].update(y, c))
}

/// `g` has exactly `w` columns of `h` cells each.
pub open spec fn grid_has_dims(g: Seq<Seq<char>>, w: nat, h: nat) -> bool {
    &&& g.len() == w
    &&& forall|x: int| 0 <= x < w ==> #[trigger] g[x].len() == h
}

impl View for Frame {
    type V = Seq<Seq<char>>;

    open spec fn view(&self) -> Seq<Seq<char>> {
        self.cells@.map_values(|c: Vec<char>| c@)
    }
}

impl Frame {
    /// Every column holds exactly `height` cells and there are `width` columns.
    pub open spec fn wf(&self) -> bool {
        &&& self.cells@.len() == self.width
        &&& forall|x: int| 0 <= x < self.width ==> #[trigger] self.cells@[x]@.len() == self.height
    }

    /// Two frames that the renderer may compare cell by cell.
    pub open spec fn same_dims(&self, other: &Frame) -> bool {
        self.width == other.width && self.height == other.height
    }

    /// The character at column `x`, row `y`.
    pub fn get(&self, x: usize, y: usize) -> (c: char)
        requires
            self.wf(),
            x < self.width,
            y < self.height,
        ensures
            c == self@[x as int][y as int],
    {
        self.cells[x][y]
    }

    /// Overwrites the cell at column `x`, row `y` with `c`.
    pub fn set(&mut self, x: usize, y: usize, c: char)
        requires
            old(self).wf(),
            x < old(self).width,
            y < old(self).height,
        ensures
            final(self).wf(),
            final(self).same_dims(old(self)),
            final(self)@ == put_cell(old(self)@, x as int, y as int, c),
    {
        let mut col: Vec<char> = Vec::new();
        std::mem::swap(&mut col, &mut self.cells[x]);
        col.set(y, c);
        self.cells.set(x, col);
        proof {
            assert(self@ =~= put_cell(old(self)@, x as int, y as int, c));
        }
    }
}

/// A frame of `width` columns and `height` rows, every cell blank.
pub fn blank_frame(width: usize, height: usize) -> (f: Frame)
    ensures
        f.wf(),
        f.width == width,
        f.height == height,
        f@ == blank_grid(width as nat, height as nat),
        forall|x: int, y: int| 0 <= x < width && 0 <= y < height ==> #[trigger] f@[x][y] == BLANK,
{
    let mut cells: Vec<Vec<char>> = Vec::new();
    let mut x: usize = 0;
    while x < width
        invariant
            x <= width,
            cells@.len() == x,
            forall|i: int| 0 <= i < x ==> #[trigger] cells@[i]@ == Seq::new(height as nat, |y: int| BLANK),
        decreases width - x,
    {
        let mut col: Vec<char> = Vec::new();
        let mut y: usize = 0;
        while y < height
            invariant
                y <= height,
                col@ == Seq::new(y as nat, |j: int| BLANK),
            decreases height - y,
        {
            col.push(BLANK);
            y = y + 1;
            proof {
                assert(col@ =~= Seq::new(y as nat, |j: int| BLANK));
            }
        }
        cells.push(col);
        x = x + 1;
    }
    let f = Frame { width, height, cells };
    proof {
        assert(f@ =~= blank_grid(width as nat, height as nat));
    }
    f
}

/// A blank frame with the game's fixed dimensions.
pub fn new_frame() -> (f: Frame)
    ensures
        f.wf(),
        f.width == NUM_COLS,
        f.height == NUM_ROWS,
        f@ == blank_grid(NUM_COLS as nat, NUM_ROWS as nat),
        forall|x: int, y: int| 0 <= x < NUM_COLS && 0 <= y < NUM_ROWS ==> #[trigger] f@[x][y] == BLANK,
{
    blank_frame(NUM_COLS, NUM_ROWS)
}

/// Anything that can paint its current state onto a frame.
pub trait Drawable {
    /// The grid `g` after this value has painted itself on it.
    spec fn painted(&self, g: Seq<Seq<char>>) -> Seq<Seq<char>>;

    /// Whether every cell this value paints lies on a `w` by `h` grid.
    spec fn fits(&self, w: nat, h: nat) -> bool;

    /// Paints this value onto `frame`; later painters overwrite earlier ones.
    fn draw(&self, frame: &mut Frame)
        requires
            old(frame).wf(),
            self.fits(old(frame).width as nat, old(frame).height as nat),
        ensures
            final(frame).wf(),
            final(frame).same_dims(old(frame)),
            final(frame)@ == self.painted(old(frame)@),
    ;
}

} // verus!
