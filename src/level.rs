//! The tile grid of one level: storage, lookup and loading from text.
use vstd::prelude::*;
use crate::scan::{all_in_rows, last_in_rows, last_so_far};
use crate::{MAX_DIM, TILE_SIZE};
use crate::player::POSITION_LIMIT;
use vstd::string::StrSliceExecFns;

verus! {

/// What occupies one cell of a level.
#[derive(Clone, Copy, PartialEq, Eq, Structural, Debug)]
pub enum TileType {
    Empty,
    Platform,
    Wall,
    /// A non-solid piece of evidence that the player collects by touching it.
    Evidence,
}

/// How the player moves in a level.
#[derive(Clone, Copy, PartialEq, Eq, Structural, Debug)]
pub enum Perspective {
    /// Gravity, jumping, acceleration and friction.
    SideScrolling,
    /// Free movement in four directions at constant speed.
    TopDown,
}

/// Why a level description could not be loaded.
#[derive(Clone, Copy, PartialEq, Eq, Structural, Debug)]
pub enum LevelError {
    /// No rows, an empty row, rows of unequal length, or no spawn marker.
    InvalidLevelData,
}

/// Platforms and walls block movement; everything else lets the player through.
pub open spec fn is_solid(t: TileType) -> bool {
    t == TileType::Platform || t == TileType::Wall
}

/// A fixed-size grid of tiles, stored row-major, with the point where the
/// player enters it.
pub struct Level {
    pub width: usize,
    pub height: usize,
    pub tiles: Vec<TileType>,
    pub perspective: Perspective,
    /// Entry point of the player, in the position scale.
    pub spawn_point: (i64, i64),
}

/// The world position of the center of the tile in column `c`, row `r`.
pub open spec fn tile_center(c: int, r: int) -> (int, int) {
    (c * TILE_SIZE + TILE_SIZE / 2, r * TILE_SIZE + TILE_SIZE / 2)
}

pub proof fn lemma_row_major_index(c: int, r: int, w: int, h: int)
    requires
        0 <= c < w,
        0 <= r < h,
        w <= MAX_DIM,
        h <= MAX_DIM,
    ensures
        0 <= r * w + c < w * h,
        w * h <= 0xfffe0001,
        r * w + c < (r + 1) * w,
        (r + 1) * w <= w * h,
{
    assert(0 <= r * w + c < w * h) by (nonlinear_arith)
        requires 0 <= c < w, 0 <= r < h;
    assert(r * w + c < (r + 1) * w) by (nonlinear_arith)
        requires 0 <= c < w, 0 <= r < h;
    assert((r + 1) * w <= w * h) by (nonlinear_arith)
        requires 0 <= c < w, 0 <= r < h;
    assert(w * h <= 0xfffe0001) by (nonlinear_arith)
        requires 0 <= w <= 65535, 0 <= h <= 65535;
}

impl Level {
    /// Dimensions within bounds and one tile per cell.
    pub open spec fn wf(&self) -> bool {
        &&& 0 < self.width <= MAX_DIM
        &&& 0 < self.height <= MAX_DIM
        &&& self.tiles@.len() == self.width * self.height
        &&& -POSITION_LIMIT <= self.spawn_point.0 <= POSITION_LIMIT
        &&& -POSITION_LIMIT <= self.spawn_point.1 <= POSITION_LIMIT
    }

    /// The tile at column `c`, row `r`; absent outside the grid.
    pub open spec fn tile_at(&self, c: int, r: int) -> Option<TileType> {
        if 0 <= c < self.width && 0 <= r < self.height {
            Some(self.tiles@[r * self.width + c])
        } else {
            None
        }
    }

    /// Whether the tile at column `c`, row `r` exists and is solid.
    pub open spec fn solid_at(&self, c: int, r: int) -> bool {
        self.tile_at(c, r) matches Some(t) && is_solid(t)
    }

    /// Width of the level in the position scale.
    pub open spec fn extent_x(&self) -> int {
        self.width * TILE_SIZE
    }

    /// Height of the level in the position scale.
    pub open spec fn extent_y(&self) -> int {
        self.height * TILE_SIZE
    }

    /// The coordinates of every evidence tile, in row-major order.
    pub open spec fn evidence_spec(&self) -> Seq<(int, int)> {
        all_in_rows(|c: int, r: int| self.tile_at(c, r) == Some(TileType::Evidence), 0, self.width as int, 0, self.height as int)
    }

    /// A level of `width` by `height` empty tiles, spawning at the origin.
    pub fn new(width: usize, height: usize, perspective: Perspective) -> (r: Level)
        requires
            0 < width <= MAX_DIM,
            0 < height <= MAX_DIM,
        ensures
            r.wf(),
            r.width == width,
            r.height == height,
            r.perspective == perspective,
            r.spawn_point == (0i64, 0i64),
            forall|c: int, row: int| 0 <= c < width && 0 <= row < height ==> r.tile_at(c, row) == Some(TileType::Empty),
    {
        assert(width * height <= MAX_DIM * MAX_DIM) by (nonlinear_arith)
            requires width <= MAX_DIM, height <= MAX_DIM;
        let n = width * height;
        let mut tiles: Vec<TileType> = Vec::new();
        let mut i: usize = 0;
        while i < n
            invariant
                i <= n,
                tiles@.len() == i,
                forall|k: int| 0 <= k < i ==> tiles@[k] == TileType::Empty,
            decreases n - i,
        {
            tiles.push(TileType::Empty);
            i = i + 1;
        }
        let r = Level { width, height, tiles, perspective, spawn_point: (0, 0) };
        assert forall|c: int, row: int| 0 <= c < width && 0 <= row < height implies r.tile_at(c, row) == Some(TileType::Empty) by {
            lemma_row_major_index(c, row, width as int, height as int);
        }
        r
    }

    /// The tile at column `x`, row `y`, or `None` outside the grid.
    pub fn get_tile(&self, x: usize, y: usize) -> (r: Option<TileType>)
        requires
            self.wf(),
        ensures
            r == self.tile_at(x as int, y as int),
    {
        if x < self.width && y < self.height {
            proof {
                lemma_row_major_index(x as int, y as int, self.width as int, self.height as int);
            }
            Some(self.tiles[y * self.width + x])
        } else {
            None
        }
    }

    /// Replaces the tile at column `x`, row `y`; does nothing outside the grid.
    pub fn set_tile(&mut self, x: usize, y: usize, tile_type: TileType)
        requires
            old(self).wf(),
        ensures
            final(self).wf(),
            final(self).width == old(self).width,
            final(self).height == old(self).height,
            final(self).perspective == old(self).perspective,
            final(self).spawn_point == old(self).spawn_point,
            forall|c: int, r: int| #[trigger] final(self).tile_at(c, r) == if c == x && r == y && old(self).tile_at(c, r) is Some {
                Some(tile_type)
            } else {
                old(self).tile_at(c, r)
            },
    {
        if x < self.width && y < self.height {
            proof {
                lemma_row_major_index(x as int, y as int, self.width as int, self.height as int);
            }
            let i = y * self.width + x;
            self.tiles.set(i, tile_type);
            proof {
                assert forall|c: int, r: int| #[trigger] self.tile_at(c, r) == if c == x && r == y && old(self).tile_at(c, r) is Some {
                    Some(tile_type)
                } else {
                    old(self).tile_at(c, r)
                } by {
                    if 0 <= c < self.width && 0 <= r < self.height {
                        lemma_row_major_index(c, r, self.width as int, self.height as int);
                        if c != x || r != y {
                            lemma_distinct_cells(c, r, x as int, y as int, self.width as int);
                        }
                    }
                }
            }
        }
    }

    /// Moves the point where the player enters the level.
    pub fn set_spawn_point(&mut self, x: i64, y: i64)
        requires
            old(self).wf(),
            -POSITION_LIMIT <= x <= POSITION_LIMIT,
            -POSITION_LIMIT <= y <= POSITION_LIMIT,
        ensures
            final(self).wf(),
            final(self).spawn_point == (x, y),
            final(self).width == old(self).width,
            final(self).height == old(self).height,
            final(self).tiles == old(self).tiles,
            final(self).perspective == old(self).perspective,
    {
        self.spawn_point = (x, y);
    }

    /// Places a piece of evidence at column `x`, row `y`; does nothing outside the grid.
    pub fn add_evidence(&mut self, x: usize, y: usize)
        requires
            old(self).wf(),
        ensures
            final(self).wf(),
            final(self).width == old(self).width,
            final(self).height == old(self).height,
            final(self).perspective == old(self).perspective,
            final(self).spawn_point == old(self).spawn_point,
            forall|c: int, r: int| #[trigger] final(self).tile_at(c, r) == if c == x && r == y && old(self).tile_at(c, r) is Some {
                Some(TileType::Evidence)
            } else {
                old(self).tile_at(c, r)
            },
    {
        self.set_tile(x, y, TileType::Evidence);
    }

    /// The coordinates `(column, row)` of every evidence tile, in row-major order.
    pub fn evidence_locations(&self) -> (r: Vec<(usize, usize)>)
        requires
            self.wf(),
        ensures
            r@.map_values(|t: (usize, usize)| (t.0 as int, t.1 as int)) == self.evidence_spec(),
    {
        let ghost p = |c: int, r: int| self.tile_at(c, r) == Some(TileType::Evidence);
        let mut out: Vec<(usize, usize)> = Vec::new();
        let mut y: usize = 0;
        while y < self.height
            invariant
                self.wf(),
                y <= self.height,
                p == (|c: int, r: int| self.tile_at(c, r) == Some(TileType::Evidence)),
                out@.map_values(|t: (usize, usize)| (t.0 as int, t.1 as int)) == all_in_rows(p, 0, self.width as int, 0, y as int),
            decreases self.height - y,
        {
            let mut x: usize = 0;
            while x < self.width
                invariant
                    self.wf(),
                    y < self.height,
                    x <= self.width,
                    p == (|c: int, r: int| self.tile_at(c, r) == Some(TileType::Evidence)),
                    out@.map_values(|t: (usize, usize)| (t.0 as int, t.1 as int)) == all_in_rows(p, 0, self.width as int, 0, y as int)
                        + crate::scan::all_in_row(p, y as int, 0, x as int),
                decreases self.width - x,
            {
                let t = self.get_tile(x, y);
                let ghost before = out@;
                if t == Some(TileType::Evidence) {
                    out.push((x, y));
                    assert(out@.map_values(|t: (usize, usize)| (t.0 as int, t.1 as int)) =~= before.map_values(
                        |t: (usize, usize)| (t.0 as int, t.1 as int),
                    ).push((x as int, y as int)));
                }
                x = x + 1;
            }
            y = y + 1;
        }
        out
    }
}

// ---------------------------------------------------------------------------
// Loading from text

pub const NEWLINE: char = '\n';

pub const CARRIAGE_RETURN: char = '\r';

/// The characters that `str::trim` removes: Unicode `White_Space`.
pub open spec fn is_ws(c: char) -> bool {
    ||| ('\u{9}' <= c && c <= '\u{d}')
    ||| c == ' '
    ||| c == '\u{85}'
    ||| c == '\u{a0}'
    ||| c == '\u{1680}'
    ||| ('\u{2000}' <= c && c <= '\u{200a}')
    ||| c == '\u{2028}'
    ||| c == '\u{2029}'
    ||| c == '\u{202f}'
    ||| c == '\u{205f}'
    ||| c == '\u{3000}'
}

/// Index of the first character at or after `i` that is not whitespace.
pub open spec fn trim_front(s: Seq<char>, i: int) -> int
    decreases s.len() - i,
{
    if 0 <= i < s.len() && is_ws(s[i]) {
        trim_front(s, i + 1)
    } else {
        i
    }
}

/// One past the last character before `j`, and not before `lo`, that is not whitespace.
pub open spec fn trim_back(s: Seq<char>, lo: int, j: int) -> int
    decreases j - lo,
{
    if lo < j && j <= s.len() && is_ws(s[j - 1]) {
        trim_back(s, lo, j - 1)
    } else {
        j
    }
}

/// `s` without leading and trailing whitespace.
pub open spec fn trimmed(s: Seq<char>) -> Seq<char> {
    let lo = trim_front(s, 0);
    s.subrange(lo, trim_back(s, lo, s.len() as int))
}

/// The finished lines of `s` and the line still open at its end.
pub open spec fn split_lines(s: Seq<char>) -> (Seq<Seq<char>>, Seq<char>)
    decreases s.len(),
{
    if s.len() == 0 {
        (Seq::empty(), Seq::empty())
    } else {
        let (rows, cur) = split_lines(s.drop_last());
        if s.last() == NEWLINE {
            (rows.push(cur), Seq::empty())
        } else {
            (rows, cur.push(s.last()))
        }
    }
}

/// A line without its trailing carriage return.
pub open spec fn strip_cr(l: Seq<char>) -> Seq<char> {
    if l.len() > 0 && l.last() == CARRIAGE_RETURN {
        l.drop_last()
    } else {
        l
    }
}

/// The rows of a level text: the lines of the trimmed text.
pub open spec fn text_rows(s: Seq<char>) -> Seq<Seq<char>> {
    let t = trimmed(s);
    if t.len() == 0 {
        Seq::empty()
    } else {
        let (rows, cur) = split_lines(t);
        rows.push(cur).map_values(|l: Seq<char>| strip_cr(l))
    }
}

/// The tile that a character of a level text stands for.
pub open spec fn tile_of(c: char) -> TileType {
    if c == '#' {
        TileType::Platform
    } else if c == 'W' {
        TileType::Wall
    } else if c == 'E' {
        TileType::Evidence
    } else {
        TileType::Empty
    }
}

pub open spec fn spawn_marker(rows: Seq<Seq<char>>) -> spec_fn(int, int) -> bool {
    |c: int, r: int| rows[r][c] == 'S'
}

/// The last spawn marker `S` in row-major order.
pub open spec fn spawn_cell(rows: Seq<Seq<char>>) -> Option<(int, int)> {
    last_in_rows(spawn_marker(rows), 0, rows[0].len() as int, 0, rows.len() as int)
}

/// Rows that describe a level: at least one, all of one non-zero length, within
/// the size bound, with a spawn marker.
pub open spec fn rows_valid(rows: Seq<Seq<char>>) -> bool {
    &&& 0 < rows.len() <= MAX_DIM
    &&& 0 < rows[0].len() <= MAX_DIM
    &&& forall|r: int| 0 <= r < rows.len() ==> (#[trigger] rows[r]).len() == rows[0].len()
    &&& spawn_cell(rows) is Some
}

/// `level` is the level that the text `s` describes, seen from `perspective`.
pub open spec fn describes(level: Level, s: Seq<char>, perspective: Perspective) -> bool {
    let rows = text_rows(s);
    &&& level.wf()
    &&& level.width == rows[0].len()
    &&& level.height == rows.len()
    &&& level.perspective == perspective
    &&& forall|c: int, row: int| 0 <= c < level.width && 0 <= row < level.height
        ==> #[trigger] level.tile_at(c, row) == Some(tile_of(rows[row][c]))
    &&& spawn_cell(rows) matches Some(sp) && level.spawn_point == (
        tile_center(sp.0, sp.1).0 as i64, tile_center(sp.0, sp.1).1 as i64)
}

pub open spec fn rows_view(rows: Seq<Vec<char>>) -> Seq<Seq<char>> {
    rows.map_values(|v: Vec<char>| v@)
}

fn is_ws_char(c: char) -> (r: bool)
    ensures
        r == is_ws(c),
{
    ('\u{9}' <= c && c <= '\u{d}') || c == ' ' || c == '\u{85}' || c == '\u{a0}' || c == '\u{1680}'
        || ('\u{2000}' <= c && c <= '\u{200a}') || c == '\u{2028}' || c == '\u{2029}' || c == '\u{202f}'
        || c == '\u{205f}' || c == '\u{3000}'
}

fn tile_of_char(c: char) -> (r: TileType)
    ensures
        r == tile_of(c),
{
    if c == '#' {
        TileType::Platform
    } else if c == 'W' {
        TileType::Wall
    } else if c == 'E' {
        TileType::Evidence
    } else {
        TileType::Empty
    }
}

/// The characters of `data`, in order.
fn chars_of(data: &str) -> (r: Vec<char>)
    ensures
        r@ == data@,
{
    let n = data.unicode_len();
    let mut out: Vec<char> = Vec::new();
    let mut i: usize = 0;
    while i < n
        invariant
            n == data@.len(),
            i <= n,
            out@ == data@.subrange(0, i as int),
        decreases n - i,
    {
        out.push(data.get_char(i));
        i = i + 1;
        assert(out@ =~= data@.subrange(0, i as int));
    }
    assert(out@ =~= data@);
    out
}

/// Splits a level text into its rows: the text is trimmed of whitespace, cut
/// at line feeds, and each line loses a trailing carriage return.
fn split_rows(b: &Vec<char>) -> (rows: Vec<Vec<char>>)
    ensures
        rows_view(rows@) == text_rows(b@),
{
    let n = b.len();
    let mut lo: usize = 0;
    while lo < n && is_ws_char(b[lo])
        invariant
            lo <= n == b@.len(),
            trim_front(b@, 0) == trim_front(b@, lo as int),
        decreases n - lo,
    {
        lo = lo + 1;
    }
    let mut hi: usize = n;
    while hi > lo && is_ws_char(b[hi - 1])
        invariant
            lo <= hi <= n == b@.len(),
            trim_back(b@, lo as int, n as int) == trim_back(b@, lo as int, hi as int),
        decreases hi - lo,
    {
        hi = hi - 1;
    }
    let ghost t = b@.subrange(lo as int, hi as int);
    assert(t == trimmed(b@));
    let mut rows: Vec<Vec<char>> = Vec::new();
    if lo == hi {
        assert(rows_view(rows@) =~= text_rows(b@));
        return rows;
    }
    let mut cur: Vec<char> = Vec::new();
    let mut i: usize = lo;
    while i < hi
        invariant
            lo <= i <= hi <= n == b@.len(),
            t == b@.subrange(lo as int, hi as int),
            rows_view(rows@) == split_lines(b@.subrange(lo as int, i as int)).0.map_values(|l: Seq<char>| strip_cr(l)),
            cur@ == split_lines(b@.subrange(lo as int, i as int)).1,
        decreases hi - i,
    {
        let ghost prev = b@.subrange(lo as int, i as int);
        let ghost next = b@.subrange(lo as int, i as int + 1);
        assert(next.drop_last() =~= prev);
        assert(next.last() == b@[i as int]);
        if b[i] == NEWLINE {
            let ghost raw = cur@;
            let len = cur.len();
            if len > 0 && cur[len - 1] == CARRIAGE_RETURN {
                cur.pop();
                assert(cur@ =~= raw.drop_last());
            }
            let ghost old_rows = rows@;
            rows.push(cur);
            cur = Vec::new();
            proof {
                assert(rows_view(rows@) =~= rows_view(old_rows).push(strip_cr(raw)));
                assert(split_lines(next).0 == split_lines(prev).0.push(raw));
                assert(split_lines(next).0.map_values(|l: Seq<char>| strip_cr(l)) =~= split_lines(prev).0.map_values(
                    |l: Seq<char>| strip_cr(l),
                ).push(strip_cr(raw)));
            }
        } else {
            cur.push(b[i]);
        }
        i = i + 1;
    }
    assert(b@.subrange(lo as int, i as int) == t);
    let ghost raw = cur@;
    let len = cur.len();
    if len > 0 && cur[len - 1] == CARRIAGE_RETURN {
        cur.pop();
        assert(cur@ =~= raw.drop_last());
    }
    let ghost old_rows = rows@;
    rows.push(cur);
    proof {
        let (rs, c) = split_lines(t);
        assert(rows_view(rows@) =~= rows_view(old_rows).push(strip_cr(raw)));
        assert(rs.push(c).map_values(|l: Seq<char>| strip_cr(l)) =~= rs.map_values(|l: Seq<char>| strip_cr(l)).push(strip_cr(c)));
    }
    rows
}

proof fn lemma_flat_index(k: int, w: int, r: int, c: int)
    requires
        0 < w,
        0 <= c < w,
        0 <= r,
        k == r * w + c,
    ensures
        k / w == r,
        k % w == c,
{
    vstd::arithmetic::div_mod::lemma_fundamental_div_mod_converse(k, w, r, c);
}

impl Level {
    /// Loads a level from text, one row per line: `#` is a platform, `W` a
    /// wall, `E` evidence, `S` the spawn point (on an empty tile, at its
    /// center; the last one counts), anything else empty. The text is first
    /// trimmed of whitespace and read character by character; rows of unequal length, an empty text or
    /// row, a missing spawn marker, or more than `MAX_DIM` rows or columns
    /// are `InvalidLevelData`.
    pub fn from_string(data: &str, perspective: Perspective) -> (r: Result<Level, LevelError>)
        ensures
            r is Ok <==> rows_valid(text_rows(data@)),
            r is Err ==> r == Err::<Level, LevelError>(LevelError::InvalidLevelData),
            r matches Ok(level) ==> describes(level, data@, perspective),
    {
        let rows = split_rows(&chars_of(data));
        let ghost rv = rows_view(rows@);
        let height = rows.len();
        if height == 0 || height > MAX_DIM {
            return Err(LevelError::InvalidLevelData);
        }
        let width = rows[0].len();
        assert(rv[0] == rows@[0]@);
        if width == 0 || width > MAX_DIM {
            return Err(LevelError::InvalidLevelData);
        }
        let mut k: usize = 0;
        while k < height
            invariant
                0 < height <= MAX_DIM,
                height == rows@.len(),
                rv == rows_view(rows@),
                rv == text_rows(data@),
                width == rv[0].len(),
                k <= height,
                forall|r: int| 0 <= r < k ==> (#[trigger] rv[r]).len() == width,
            decreases height - k,
        {
            assert(rv[k as int] == rows@[k as int]@);
            if rows[k].len() != width {
                return Err(LevelError::InvalidLevelData);
            }
            k = k + 1;
        }
        let ghost p = spawn_marker(rv);
        let mut tiles: Vec<TileType> = Vec::new();
        let mut spawn: Option<(usize, usize)> = None;
        let mut y: usize = 0;
        while y < height
            invariant
                0 < height <= MAX_DIM,
                0 < width <= MAX_DIM,
                height == rows@.len(),
                rv == rows_view(rows@),
                rv == text_rows(data@),
                width == rv[0].len(),
                forall|r: int| 0 <= r < height ==> (#[trigger] rv[r]).len() == width,
                p == spawn_marker(rv),
                y <= height,
                tiles@.len() == y * width,
                forall|i: int| 0 <= i < tiles@.len() ==> #[trigger] tiles@[i] == tile_of(rv[i / width as int][i % width as int]),
                opt_pair(spawn) == last_in_rows(p, 0, width as int, 0, y as int),
                spawn matches Some(t) ==> t.0 < width && t.1 < height,
            decreases height - y,
        {
            let mut x: usize = 0;
            assert(rv[y as int] == rows@[y as int]@);
            while x < width
                invariant
                    0 < height <= MAX_DIM,
                    0 < width <= MAX_DIM,
                    height == rows@.len(),
                    rv == rows_view(rows@),
                    rv == text_rows(data@),
                    width == rv[0].len(),
                    forall|r: int| 0 <= r < height ==> (#[trigger] rv[r]).len() == width,
                    p == spawn_marker(rv),
                    y < height,
                    x <= width,
                    rv[y as int] == rows@[y as int]@,
                    tiles@.len() == y * width + x,
                    forall|i: int| 0 <= i < tiles@.len() ==> #[trigger] tiles@[i] == tile_of(rv[i / width as int][i % width as int]),
                    opt_pair(spawn) == last_so_far(p, 0, width as int, 0, y as int, x as int),
                    spawn matches Some(t) ==> t.0 < width && t.1 < height,
                decreases width - x,
            {
                proof {
                    lemma_row_major_index(x as int, y as int, width as int, height as int);
                }
                let ch = rows[y][x];
                let ghost before = tiles@;
                tiles.push(tile_of_char(ch));
                proof {
                    lemma_flat_index(y * width + x, width as int, y as int, x as int);
                    assert forall|i: int| 0 <= i < tiles@.len() implies #[trigger] tiles@[i] == tile_of(rv[i / width as int][i % width as int]) by {
                        if i < before.len() {
                            assert(tiles@[i] == before[i]);
                        }
                    }
                }
                if ch == 'S' {
                    spawn = Some((x, y));
                }
                x = x + 1;
            }
            proof {
                assert((y + 1) * width == y * width + width) by (nonlinear_arith);
            }
            y = y + 1;
        }
        let (sx, sy) = match spawn {
            Some(t) => t,
            None => {
                return Err(LevelError::InvalidLevelData);
            },
        };
        proof {
            lemma_row_major_index(sx as int, sy as int, width as int, height as int);
            lemma_tile_center_bound(sx as int, sy as int);
        }
        let level = Level {
            width,
            height,
            tiles,
            perspective,
            spawn_point: (sx as i64 * TILE_SIZE + TILE_SIZE / 2, sy as i64 * TILE_SIZE + TILE_SIZE / 2),
        };
        proof {
            assert(level.tiles@.len() == width * height) by (nonlinear_arith)
                requires level.tiles@.len() == height * width;
            assert forall|c: int, row: int| 0 <= c < level.width && 0 <= row < level.height
                implies #[trigger] level.tile_at(c, row) == Some(tile_of(rv[row][c])) by {
                lemma_row_major_index(c, row, width as int, height as int);
                lemma_flat_index(row * width + c, width as int, row, c);
                assert(level.tiles@[row * width + c] == tile_of(rv[row][c]));
            }
            assert(forall|r: int| 0 <= r < rv.len() ==> (#[trigger] rv[r]).len() == rv[0].len());
        }
        Ok(level)
    }
}

pub open spec fn opt_pair(o: Option<(usize, usize)>) -> Option<(int, int)> {
    match o {
        Some(t) => Some((t.0 as int, t.1 as int)),
        None => None,
    }
}

/// A level's extent fits well within the position range.
pub proof fn lemma_extent_bound(level: Level)
    requires
        level.wf(),
    ensures
        0 <= level.extent_x() <= MAX_DIM * TILE_SIZE,
        0 <= level.extent_y() <= MAX_DIM * TILE_SIZE,
        MAX_DIM * TILE_SIZE < POSITION_LIMIT,
{
    assert(0 <= level.width * TILE_SIZE <= MAX_DIM * TILE_SIZE) by (nonlinear_arith)
        requires 0 < level.width <= MAX_DIM, TILE_SIZE == 32_000_000i64;
    assert(0 <= level.height * TILE_SIZE <= MAX_DIM * TILE_SIZE) by (nonlinear_arith)
        requires 0 < level.height <= MAX_DIM, TILE_SIZE == 32_000_000i64;
}

proof fn lemma_tile_center_bound(c: int, r: int)
    requires
        0 <= c < MAX_DIM,
        0 <= r < MAX_DIM,
    ensures
        0 <= c * TILE_SIZE + TILE_SIZE / 2 < MAX_DIM * TILE_SIZE,
        0 <= r * TILE_SIZE + TILE_SIZE / 2 < MAX_DIM * TILE_SIZE,
{
    assert(0 <= c * TILE_SIZE + TILE_SIZE / 2 < MAX_DIM * TILE_SIZE) by (nonlinear_arith)
        requires 0 <= c < MAX_DIM, TILE_SIZE == 32_000_000i64, MAX_DIM == 65535usize;
    assert(0 <= r * TILE_SIZE + TILE_SIZE / 2 < MAX_DIM * TILE_SIZE) by (nonlinear_arith)
        requires 0 <= r < MAX_DIM, TILE_SIZE == 32_000_000i64, MAX_DIM == 65535usize;
}

proof fn lemma_distinct_cells(c: int, r: int, x: int, y: int, w: int)
    requires
        0 <= c < w,
        0 <= x < w,
        0 <= r,
        0 <= y,
        c != x || r != y,
    ensures
        r * w + c != y * w + x,
{
    if r == y {
    } else if r < y {
        assert(r * w + c < y * w + x) by (nonlinear_arith)
            requires 0 <= c < w, 0 <= x, r < y;
    } else {
        assert(y * w + x < r * w + c) by (nonlinear_arith)
            requires 0 <= x < w, 0 <= c, y < r;
    }
}

} // verus!
