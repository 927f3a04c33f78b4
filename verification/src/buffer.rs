use vstd::prelude::*;
use vstd::string::StrSliceExecFns;

verus! {

/// A grid of cells, each a character with a foreground and a background
/// colour, stored row by row. Colours are whatever the screen paints with;
/// the grid only stores and moves them.
#[derive(Debug, Clone)]
pub struct Buffer<C> {
    pub width: u32,
    pub height: u32,
    pub chars: Vec<char>,
    pub foreground: Vec<C>,
    pub background: Vec<C>,
    pub clear_fg: C,
    pub clear_bg: C,
}

/// The character of an empty cell.
pub open spec fn spec_blank() -> char {
    '\0'
}

/// Cells that `size` cells are made of when a grid changes its size: the
/// first are kept, and cells that are new are `fill`.
pub open spec fn spec_resized<T>(cells: Seq<T>, size: nat, fill: T) -> Seq<T> {
    Seq::new(size, |i: int| if i < cells.len() { cells[i] } else { fill })
}

/// The place of the cell in column `x` of row `y` is behind the rows above
/// it and the cells left of it; cells of one grid have different places.
pub proof fn lemma_cell_index(width: int, height: int, x: int, y: int)
    requires
        0 <= x < width,
        0 <= y < height,
    ensures
        0 <= y * width + x < width * height,
{
    assert(0 <= y * width + x < width * height) by (nonlinear_arith)
        requires
            0 <= x < width,
            0 <= y < height,
    ;
}

/// Two cells at the same place are the same cell.
pub proof fn lemma_cell_index_differs(width: int, x1: int, y1: int, x2: int, y2: int)
    requires
        0 <= x1 < width,
        0 <= x2 < width,
        0 <= y1,
        0 <= y2,
        y1 * width + x1 == y2 * width + x2,
    ensures
        x1 == x2,
        y1 == y2,
{
    assert(y1 == y2) by (nonlinear_arith)
        requires
            0 <= x1 < width,
            0 <= x2 < width,
            0 <= y1,
            0 <= y2,
            y1 * width + x1 == y2 * width + x2,
    ;
}

/// Whether a character is white space, as `char::is_whitespace` tells.
pub uninterp spec fn spec_is_whitespace(c: char) -> bool;

/// `char::is_whitespace` of `std`: whether a character is white space. The
/// answer depends on the character alone.
#[verifier::external_body]
fn is_whitespace(c: char) -> (white: bool)
    ensures
        white == spec_is_whitespace(c),
{
    c.is_whitespace()
}

/// The character that a copy leaves in a cell that held `dst` when `src`
/// is copied onto it. Mode 0 takes the copied character. Mode 1 takes it
/// unless it is white space; mode 2 takes it only if it is white space. Any
/// other mode keeps what the cell held.
pub open spec fn spec_blend_char(mode: u8, src: char, dst: char) -> char {
    if mode == 0 {
        src
    } else if mode == 1 {
        if spec_is_whitespace(src) {
            dst
        } else {
            src
        }
    } else if mode == 2 {
        if spec_is_whitespace(src) {
            src
        } else {
            dst
        }
    } else {
        dst
    }
}

/// The colour that a copy leaves in a cell that held `dst` when `src` is
/// copied onto it: the copied colour in the modes below 9, else what the
/// cell held.
pub open spec fn spec_blend_colour<C>(mode: u8, src: C, dst: C) -> C {
    if mode < 9 {
        src
    } else {
        dst
    }
}

impl<C: Copy> Buffer<C> {
    /// Whether the grid holds exactly its cells: `width` times `height`
    /// characters, foregrounds and backgrounds.
    pub open spec fn wf(&self) -> bool {
        &&& self.chars@.len() == self.width * self.height
        &&& self.foreground@.len() == self.width * self.height
        &&& self.background@.len() == self.width * self.height
    }

    /// Whether the cell in column `x` of row `y` is within the grid.
    pub open spec fn spec_inside(&self, x: int, y: int) -> bool {
        0 <= x < self.width && 0 <= y < self.height
    }

    /// The place of the cell in column `x` of row `y`.
    pub open spec fn spec_at(&self, x: int, y: int) -> int {
        y * self.width + x
    }

    /// Whether two grids have the same size and the same clear colours.
    pub open spec fn spec_same_shape(&self, other: &Buffer<C>) -> bool {
        &&& self.width == other.width
        &&& self.height == other.height
        &&& self.clear_fg == other.clear_fg
        &&& self.clear_bg == other.clear_bg
    }

    /// A grid of `width` by `height` empty cells in the colours `fg` on
    /// `bg`, which are also the colours of cells that a resize adds.
    pub fn new(width: u32, height: u32, fg: C, bg: C) -> (buffer: Self)
        requires
            width * height <= u32::MAX,
        ensures
            buffer.wf(),
            buffer.width == width,
            buffer.height == height,
            buffer.clear_fg == fg,
            buffer.clear_bg == bg,
            buffer.chars@ == Seq::new((width * height) as nat, |i: int| spec_blank()),
            buffer.foreground@ == Seq::new((width * height) as nat, |i: int| fg),
            buffer.background@ == Seq::new((width * height) as nat, |i: int| bg),
    {
        let size = (width * height) as usize;
        let mut chars: Vec<char> = Vec::new();
        let mut foreground: Vec<C> = Vec::new();
        let mut background: Vec<C> = Vec::new();
        let mut i: usize = 0;
        while i < size
            invariant
                i <= size,
                chars@ == Seq::new(i as nat, |k: int| spec_blank()),
                foreground@ == Seq::new(i as nat, |k: int| fg),
                background@ == Seq::new(i as nat, |k: int| bg),
            decreases size - i,
        {
            chars.push('\0');
            foreground.push(fg);
            background.push(bg);
            i += 1;
            assert(chars@ =~= Seq::new(i as nat, |k: int| spec_blank()));
            assert(foreground@ =~= Seq::new(i as nat, |k: int| fg));
            assert(background@ =~= Seq::new(i as nat, |k: int| bg));
        }
        Buffer { width, height, chars, foreground, background, clear_fg: fg, clear_bg: bg }
    }

    /// Changes the size of the grid. The cells are taken as one run: the
    /// first ones are kept in their order, and cells that are new are empty
    /// and in the clear colours.
    pub fn resize(&mut self, width: u32, height: u32)
        requires
            width * height <= u32::MAX,
        ensures
            final(self).wf(),
            final(self).width == width,
            final(self).height == height,
            final(self).clear_fg == old(self).clear_fg,
            final(self).clear_bg == old(self).clear_bg,
            final(self).chars@ == spec_resized(
                old(self).chars@,
                (width * height) as nat,
                spec_blank(),
            ),
            final(self).foreground@ == spec_resized(
                old(self).foreground@,
                (width * height) as nat,
                old(self).clear_fg,
            ),
            final(self).background@ == spec_resized(
                old(self).background@,
                (width * height) as nat,
                old(self).clear_bg,
            ),
    {
        let size = (width * height) as usize;
        self.width = width;
        self.height = height;
        resize_cells(&mut self.chars, size, '\0');
        resize_cells(&mut self.foreground, size, self.clear_fg);
        resize_cells(&mut self.background, size, self.clear_bg);
    }

    /// Makes the grid a copy of `other`.
    pub fn replace(&mut self, other: &Buffer<C>)
        ensures
            final(self).width == other.width,
            final(self).height == other.height,
            final(self).chars@ == other.chars@,
            final(self).foreground@ == other.foreground@,
            final(self).background@ == other.background@,
            final(self).clear_fg == old(self).clear_fg,
            final(self).clear_bg == old(self).clear_bg,
    {
        self.width = other.width;
        self.height = other.height;
        self.chars = copy_cells(&other.chars);
        self.foreground = copy_cells(&other.foreground);
        self.background = copy_cells(&other.background);
    }

    /// The cell in column `x` of row `y`: its character, foreground and
    /// background.
    pub open spec fn spec_cell(&self, x: int, y: int) -> (char, C, C) {
        (
            self.chars@[self.spec_at(x, y)],
            self.foreground@[self.spec_at(x, y)],
            self.background@[self.spec_at(x, y)],
        )
    }

    fn put(&mut self, x: u32, y: u32, char: char, fg: C, bg: C)
        requires
            old(self).wf(),
            x < old(self).width,
            y < old(self).height,
        ensures
            final(self).wf(),
            final(self).spec_same_shape(old(self)),
            final(self).chars@ == old(self).chars@.update(old(self).spec_at(x as int, y as int), char),
            final(self).foreground@ == old(self).foreground@.update(
                old(self).spec_at(x as int, y as int),
                fg,
            ),
            final(self).background@ == old(self).background@.update(
                old(self).spec_at(x as int, y as int),
                bg,
            ),
            forall|px: int, py: int|
                old(self).spec_inside(px, py) ==> #[trigger] final(self).spec_cell(px, py) == if px
                    == x && py == y {
                    (char, fg, bg)
                } else {
                    old(self).spec_cell(px, py)
                },
    {
        let cells = self.chars.len();
        proof {
            lemma_cell_index(self.width as int, self.height as int, x as int, y as int);
            assert(y * self.width + x < cells);
            assert(0 <= y * self.width <= y * self.width + x) by (nonlinear_arith)
                requires
                    0 <= x,
                    0 <= y,
                    0 <= self.width,
            ;
        }
        let idx = x as usize + y as usize * self.width as usize;
        self.chars[idx] = char;
        self.foreground[idx] = fg;
        self.background[idx] = bg;
        proof {
            assert forall|px: int, py: int| old(self).spec_inside(px, py) implies #[trigger] self.spec_cell(
                px,
                py,
            ) == if px == x && py == y {
                (char, fg, bg)
            } else {
                old(self).spec_cell(px, py)
            } by {
                lemma_cell_index(self.width as int, self.height as int, px, py);
                if !(px == x && py == y) {
                    if py * self.width + px == y * self.width + x {
                        lemma_cell_index_differs(self.width as int, px, py, x as int, y as int);
                    }
                }
            }
        }
    }

    fn get(&self, x: u32, y: u32) -> (cell: (char, C, C))
        requires
            self.wf(),
            x < self.width,
            y < self.height,
        ensures
            cell == self.spec_cell(x as int, y as int),
    {
        let cells = self.chars.len();
        proof {
            lemma_cell_index(self.width as int, self.height as int, x as int, y as int);
            assert(y * self.width + x < cells);
            assert(0 <= y * self.width <= y * self.width + x) by (nonlinear_arith)
                requires
                    0 <= x,
                    0 <= y,
                    0 <= self.width,
            ;
        }
        let idx = x as usize + y as usize * self.width as usize;
        (self.chars[idx], self.foreground[idx], self.background[idx])
    }

    /// Sets every cell of the rectangle that begins in column `x` of row `y`
    /// and is `w` cells wide and `h` rows high. What of it lies outside the
    /// grid is left out; cells outside the rectangle stay as they are.
    pub fn fill(&mut self, x: i32, y: i32, w: i32, h: i32, char: char, fg: C, bg: C)
        requires
            old(self).wf(),
        ensures
            final(self).wf(),
            final(self).spec_same_shape(old(self)),
            forall|px: int, py: int|
                old(self).spec_inside(px, py) ==> #[trigger] final(self).spec_cell(px, py) == if x
                    <= px < x + w && y <= py < y + h {
                    (char, fg, bg)
                } else {
                    old(self).spec_cell(px, py)
                },
    {
        let x0: i64 = if x < 0 { 0 } else { x as i64 };
        let y0: i64 = if y < 0 { 0 } else { y as i64 };
        let x1: i64 = if x as i64 + w as i64 > self.width as i64 {
            self.width as i64
        } else {
            x as i64 + w as i64
        };
        let y1: i64 = if y as i64 + h as i64 > self.height as i64 {
            self.height as i64
        } else {
            y as i64 + h as i64
        };
        let mut cy: i64 = y0;
        while cy < y1
            invariant
                0 <= y0 <= cy,
                0 <= x0,
                x1 <= self.width,
                y1 <= self.height,
                x0 == if x < 0 { 0 } else { x as int },
                y0 == if y < 0 { 0 } else { y as int },
                x1 == if x + w > self.width { self.width as int } else { x + w },
                y1 == if y + h > self.height { self.height as int } else { y + h },
                self.wf(),
                self.spec_same_shape(old(self)),
                forall|px: int, py: int|
                    old(self).spec_inside(px, py) ==> #[trigger] self.spec_cell(px, py) == if x
                        <= px < x + w && y <= py < y + h && py < cy {
                        (char, fg, bg)
                    } else {
                        old(self).spec_cell(px, py)
                    },
            decreases y1 - cy,
        {
            let mut cx: i64 = x0;
            while cx < x1
                invariant
                    0 <= y0 <= cy < y1,
                    0 <= x0 <= cx,
                    x1 <= self.width,
                    y1 <= self.height,
                    x0 == if x < 0 { 0 } else { x as int },
                    y0 == if y < 0 { 0 } else { y as int },
                    x1 == if x + w > self.width { self.width as int } else { x + w },
                    y1 == if y + h > self.height { self.height as int } else { y + h },
                    self.wf(),
                    self.spec_same_shape(old(self)),
                    forall|px: int, py: int|
                        old(self).spec_inside(px, py) ==> #[trigger] self.spec_cell(px, py) == if x
                            <= px < x + w && y <= py < y + h && (py < cy || (py == cy && px
                            < cx)) {
                            (char, fg, bg)
                        } else {
                            old(self).spec_cell(px, py)
                        },
                decreases x1 - cx,
            {
                self.put(cx as u32, cy as u32, char, fg, bg);
                cx += 1;
            }
            cy += 1;
        }
    }

    /// Writes `text` into row `y` from column `x` on, one character to a
    /// cell. Characters that would fall outside the grid are left out.
    pub fn writeText(&mut self, x: i32, y: i32, text: &str, fg: C, bg: C)
        requires
            old(self).wf(),
        ensures
            final(self).wf(),
            final(self).spec_same_shape(old(self)),
            forall|px: int, py: int|
                old(self).spec_inside(px, py) ==> #[trigger] final(self).spec_cell(px, py) == if py
                    == y && x <= px < x + text@.len() {
                    (text@[px - x], fg, bg)
                } else {
                    old(self).spec_cell(px, py)
                },
    {
        if y < 0 || y as i64 >= self.height as i64 {
            return ;
        }
        let len = text.unicode_len();
        let mut i: usize = 0;
        while i < len
            invariant
                i <= len,
                len == text@.len(),
                0 <= y < self.height,
                self.wf(),
                self.spec_same_shape(old(self)),
                forall|px: int, py: int|
                    old(self).spec_inside(px, py) ==> #[trigger] self.spec_cell(px, py) == if py
                        == y && x <= px < x + i {
                        (text@[px - x], fg, bg)
                    } else {
                        old(self).spec_cell(px, py)
                    },
            decreases len - i,
        {
            let ch = text.get_char(i);
            let cx: i128 = x as i128 + i as i128;
            if 0 <= cx && cx < self.width as i128 {
                self.put(cx as u32, y as u32, ch, fg, bg);
            }
            i += 1;
        }
    }

    /// Copies `other` onto this grid with its first cell in column `x` of
    /// row `y`. Where `x` or `y` is negative, the columns and rows of
    /// `other` that would fall left of or above the grid are skipped; what
    /// would fall right of or below it is left out. In each cell that is
    /// covered the character blends as `txtbm` says and the colours as
    /// `fgbm` and `bgbm` say; other cells stay as they are.
    pub fn copy(&mut self, x: i32, y: i32, other: &Buffer<C>, txtbm: u8, fgbm: u8, bgbm: u8)
        requires
            old(self).wf(),
            other.wf(),
        ensures
            final(self).wf(),
            final(self).spec_same_shape(old(self)),
            forall|px: int, py: int|
                old(self).spec_inside(px, py) ==> #[trigger] final(self).spec_cell(px, py) == if x
                    <= px && y <= py && other.spec_inside(px - x, py - y) {
                    (
                        spec_blend_char(
                            txtbm,
                            other.spec_cell(px - x, py - y).0,
                            old(self).spec_cell(px, py).0,
                        ),
                        spec_blend_colour(
                            fgbm,
                            other.spec_cell(px - x, py - y).1,
                            old(self).spec_cell(px, py).1,
                        ),
                        spec_blend_colour(
                            bgbm,
                            other.spec_cell(px - x, py - y).2,
                            old(self).spec_cell(px, py).2,
                        ),
                    )
                } else {
                    old(self).spec_cell(px, py)
                },
    {
        let x0: i64 = if x < 0 { 0 } else { x as i64 };
        let y0: i64 = if y < 0 { 0 } else { y as i64 };
        let x1: i64 = if x as i64 + other.width as i64 > self.width as i64 {
            self.width as i64
        } else {
            x as i64 + other.width as i64
        };
        let y1: i64 = if y as i64 + other.height as i64 > self.height as i64 {
            self.height as i64
        } else {
            y as i64 + other.height as i64
        };
        let mut cy: i64 = y0;
        while cy < y1
            invariant
                0 <= y0 <= cy,
                0 <= x0,
                x1 <= self.width,
                y1 <= self.height,
                x0 == if x < 0 { 0 } else { x as int },
                y0 == if y < 0 { 0 } else { y as int },
                x1 == if x + other.width > self.width { self.width as int } else { x + other.width },
                y1 == if y + other.height > self.height {
                    self.height as int
                } else {
                    y + other.height
                },
                self.wf(),
                other.wf(),
                self.spec_same_shape(old(self)),
                forall|px: int, py: int|
                    old(self).spec_inside(px, py) ==> #[trigger] self.spec_cell(px, py) == if x
                        <= px && y <= py && other.spec_inside(px - x, py - y) && py < cy {
                        (
                            spec_blend_char(
                                txtbm,
                                other.spec_cell(px - x, py - y).0,
                                old(self).spec_cell(px, py).0,
                            ),
                            spec_blend_colour(
                                fgbm,
                                other.spec_cell(px - x, py - y).1,
                                old(self).spec_cell(px, py).1,
                            ),
                            spec_blend_colour(
                                bgbm,
                                other.spec_cell(px - x, py - y).2,
                                old(self).spec_cell(px, py).2,
                            ),
                        )
                    } else {
                        old(self).spec_cell(px, py)
                    },
            decreases y1 - cy,
        {
            let mut cx: i64 = x0;
            while cx < x1
                invariant
                    0 <= y0 <= cy < y1,
                    0 <= x0 <= cx,
                    x1 <= self.width,
                    y1 <= self.height,
                    x0 == if x < 0 { 0 } else { x as int },
                    y0 == if y < 0 { 0 } else { y as int },
                    x1 == if x + other.width > self.width {
                        self.width as int
                    } else {
                        x + other.width
                    },
                    y1 == if y + other.height > self.height {
                        self.height as int
                    } else {
                        y + other.height
                    },
                    self.wf(),
                    other.wf(),
                    self.spec_same_shape(old(self)),
                    forall|px: int, py: int|
                        old(self).spec_inside(px, py) ==> #[trigger] self.spec_cell(px, py) == if x
                            <= px && y <= py && other.spec_inside(px - x, py - y) && (py < cy || (
                        py == cy && px < cx)) {
                            (
                                spec_blend_char(
                                    txtbm,
                                    other.spec_cell(px - x, py - y).0,
                                    old(self).spec_cell(px, py).0,
                                ),
                                spec_blend_colour(
                                    fgbm,
                                    other.spec_cell(px - x, py - y).1,
                                    old(self).spec_cell(px, py).1,
                                ),
                                spec_blend_colour(
                                    bgbm,
                                    other.spec_cell(px - x, py - y).2,
                                    old(self).spec_cell(px, py).2,
                                ),
                            )
                        } else {
                            old(self).spec_cell(px, py)
                        },
                decreases x1 - cx,
            {
                let src = other.get((cx - x as i64) as u32, (cy - y as i64) as u32);
                let dst = self.get(cx as u32, cy as u32);
                let ch = if txtbm == 0 {
                    src.0
                } else if txtbm == 1 {
                    if is_whitespace(src.0) {
                        dst.0
                    } else {
                        src.0
                    }
                } else if txtbm == 2 {
                    if is_whitespace(src.0) {
                        src.0
                    } else {
                        dst.0
                    }
                } else {
                    dst.0
                };
                let fg = if fgbm < 9 {
                    src.1
                } else {
                    dst.1
                };
                let bg = if bgbm < 9 {
                    src.2
                } else {
                    dst.2
                };
                assert(dst == old(self).spec_cell(cx as int, cy as int));
                self.put(cx as u32, cy as u32, ch, fg, bg);
                cx += 1;
            }
            cy += 1;
        }
    }

    /// Sets the cell in column `x` of row `y`. A cell outside the grid is
    /// not set.
    pub fn write(&mut self, x: i32, y: i32, char: char, fg: C, bg: C)
        requires
            old(self).wf(),
        ensures
            final(self).wf(),
            final(self).spec_same_shape(old(self)),
            old(self).spec_inside(x as int, y as int) ==> {
                &&& final(self).chars@ == old(self).chars@.update(
                    old(self).spec_at(x as int, y as int),
                    char,
                )
                &&& final(self).foreground@ == old(self).foreground@.update(
                    old(self).spec_at(x as int, y as int),
                    fg,
                )
                &&& final(self).background@ == old(self).background@.update(
                    old(self).spec_at(x as int, y as int),
                    bg,
                )
            },
            !old(self).spec_inside(x as int, y as int) ==> {
                &&& final(self).chars@ == old(self).chars@
                &&& final(self).foreground@ == old(self).foreground@
                &&& final(self).background@ == old(self).background@
            },
    {
        if x < 0 || y < 0 || x as i64 >= self.width as i64 || y as i64 >= self.height as i64 {
            return ;
        }
        let cells = self.chars.len();
        proof {
            lemma_cell_index(self.width as int, self.height as int, x as int, y as int);
            assert(y * self.width + x < cells);
            assert(0 <= y * self.width <= y * self.width + x) by (nonlinear_arith)
                requires
                    0 <= x,
                    0 <= y,
                    0 <= self.width,
            ;
        }
        let idx = x as usize + y as usize * self.width as usize;
        self.chars[idx] = char;
        self.foreground[idx] = fg;
        self.background[idx] = bg;
    }
}

/// Makes `cells` hold `size` cells: the first ones are kept, new ones are
/// `fill`.
fn resize_cells<T: Copy>(cells: &mut Vec<T>, size: usize, fill: T)
    ensures
        final(cells)@ == spec_resized(old(cells)@, size as nat, fill),
{
    cells.truncate(size);
    assert(cells@ =~= spec_resized(old(cells)@, cells@.len(), fill));
    while cells.len() < size
        invariant
            cells@.len() <= size,
            cells@.len() >= old(cells)@.len() || cells@.len() == size,
            cells@ == spec_resized(old(cells)@, cells@.len(), fill),
        decreases size - cells.len(),
    {
        cells.push(fill);
        assert(cells@ =~= spec_resized(old(cells)@, cells@.len(), fill));
    }
    assert(cells@ =~= spec_resized(old(cells)@, size as nat, fill));
}

/// A copy of `cells`.
fn copy_cells<T: Copy>(cells: &Vec<T>) -> (copy: Vec<T>)
    ensures
        copy@ == cells@,
{
    let mut copy: Vec<T> = Vec::new();
    let mut i: usize = 0;
    while i < cells.len()
        invariant
            i <= cells.len(),
            copy@ == cells@.take(i as int),
        decreases cells.len() - i,
    {
        copy.push(cells[i]);
        i += 1;
        assert(copy@ =~= cells@.take(i as int));
    }
    assert(cells@.take(cells.len() as int) =~= cells@);
    copy
}

} // verus!
