use vstd::prelude::*;
use vstd::string::StrSliceExecFns;
use vstd::utf8::{decode_utf8, valid_utf8};

verus! {

/// Orientation of a floor tile; it selects the sprite drawn for the tile.
#[derive(Clone, Copy, Debug, PartialEq, Eq, Structural)]
pub enum Side {
    // two blocks high
    TopLeft,
    Top,
    TopRight,
    BotLeft,
    Bot,
    BotRight,
    // one block high
    Left,
    Middle,
    Right,
    // a single vent block
    Standalone,
}

/// One cell of the level grid.
#[derive(Clone, Copy, Debug, PartialEq, Eq, Structural)]
pub enum Tile {
    Empty,
    Floor(Side),
}

/// True for the floor tiles whose upper face the player can stand on.
pub open spec fn is_top_surface(t: Tile) -> bool {
    t matches Tile::Floor(side) && (side == Side::Top || side == Side::TopLeft
        || side == Side::TopRight)
}

impl Tile {
    /// Whether the player can stand on this tile.
    pub fn is_top_surface(&self) -> (r: bool)
        ensures
            r == is_top_surface(*self),
    {
        match self {
            Tile::Floor(Side::Top) | Tile::Floor(Side::TopLeft) | Tile::Floor(Side::TopRight) => true,
            _ => false,
        }
    }
}

impl Side {
    /// Position of the side's sprite in the tile atlas.
    pub open spec fn sprite_index(self) -> usize {
        match self {
            Side::TopLeft => 0,
            Side::Top => 1,
            Side::TopRight => 2,
            Side::BotLeft => 6,
            Side::Bot => 7,
            Side::BotRight => 8,
            Side::Left => 3,
            Side::Middle => 4,
            Side::Right => 5,
            Side::Standalone => 9,
        }
    }

    pub fn index(self) -> (r: usize)
        ensures
            r == self.sprite_index(),
    {
        match self {
            Side::TopLeft => 0,
            Side::Top => 1,
            Side::TopRight => 2,
            Side::BotLeft => 6,
            Side::Bot => 7,
            Side::BotRight => 8,
            Side::Left => 3,
            Side::Middle => 4,
            Side::Right => 5,
            Side::Standalone => 9,
        }
    }
}

/// Number of tiles in a row of the level.
pub const LEVEL_WIDTH: usize = 20;

/// Number of rows of the level.
pub const LEVEL_HEIGHT: usize = 14;

/// Why a level text was rejected.
#[derive(Clone, Copy, Debug, PartialEq, Eq, Structural)]
pub enum LevelError {
    /// The bytes are not UTF-8.
    InvalidUtf8,
    /// More than `LEVEL_HEIGHT` lines.
    TooTall,
    /// A line of more than `LEVEL_WIDTH` characters.
    TooWide,
}

/// The tile that a character of the level text stands for.
pub open spec fn tile_for_char(c: char) -> Tile {
    if c == '[' {
        Tile::Floor(Side::Left)
    } else if c == '=' {
        Tile::Floor(Side::Middle)
    } else if c == ']' {
        Tile::Floor(Side::Right)
    } else if c == '¬' {
        Tile::Floor(Side::TopRight)
    } else if c == '4' {
        Tile::Floor(Side::TopLeft)
    } else if c == '-' {
        Tile::Floor(Side::Top)
    } else if c == 'L' {
        Tile::Floor(Side::BotLeft)
    } else if c == '_' {
        Tile::Floor(Side::Bot)
    } else if c == '/' {
        Tile::Floor(Side::BotRight)
    } else if c == '•' {
        Tile::Floor(Side::Standalone)
    } else {
        Tile::Empty
    }
}

pub fn tile_from_char(c: char) -> (t: Tile)
    ensures
        t == tile_for_char(c),
{
    match c {
        '[' => Tile::Floor(Side::Left),
        '=' => Tile::Floor(Side::Middle),
        ']' => Tile::Floor(Side::Right),
        '¬' => Tile::Floor(Side::TopRight),
        '4' => Tile::Floor(Side::TopLeft),
        '-' => Tile::Floor(Side::Top),
        'L' => Tile::Floor(Side::BotLeft),
        '_' => Tile::Floor(Side::Bot),
        '/' => Tile::Floor(Side::BotRight),
        '•' => Tile::Floor(Side::Standalone),
        _ => Tile::Empty,
    }
}

/// The text cut at every `'\n'`: one piece more than there are newlines.
pub open spec fn pieces(s: Seq<char>) -> Seq<Seq<char>>
    decreases s.len(),
{
    if s.len() == 0 {
        seq![Seq::empty()]
    } else {
        let p = pieces(s.drop_last());
        if s.last() == '\n' {
            p.push(Seq::empty())
        } else {
            p.update(p.len() - 1, p.last().push(s.last()))
        }
    }
}

/// A line without the `'\r'` of a `"\r\n"` ending.
pub open spec fn strip_cr(l: Seq<char>) -> Seq<char> {
    if l.len() > 0 && l.last() == '\r' {
        l.drop_last()
    } else {
        l
    }
}

/// The lines of a text: the pieces between newlines, each without the `'\r'`
/// that preceded its newline; a last piece is a line only when it is not empty.
pub open spec fn lines_of(s: Seq<char>) -> Seq<Seq<char>> {
    let p = pieces(s);
    let done = p.drop_last().map_values(|l: Seq<char>| strip_cr(l));
    if p.last().len() == 0 {
        done
    } else {
        done.push(p.last())
    }
}

/// The tile at row `j` and column `i` of a level made of `lines`.
pub open spec fn tile_at(lines: Seq<Seq<char>>, j: int, i: int) -> Tile {
    if j < lines.len() && i < lines[j].len() {
        tile_for_char(lines[j][i])
    } else {
        Tile::Empty
    }
}

/// Row `j` of the level made of `lines`.
pub open spec fn row_of(lines: Seq<Seq<char>>, j: int) -> Seq<Tile> {
    Seq::new(LEVEL_WIDTH as nat, |i: int| tile_at(lines, j, i))
}

/// The level made of `lines`: the first line is the top row, and what the
/// lines leave out is empty. A line longer than `LEVEL_WIDTH` within the
/// first `LEVEL_HEIGHT` lines is rejected first, then more than
/// `LEVEL_HEIGHT` lines.
pub open spec fn level_from_lines(lines: Seq<Seq<char>>) -> Result<Seq<Seq<Tile>>, LevelError> {
    if exists|j: int|
        0 <= j < lines.len() && j < LEVEL_HEIGHT && #[trigger] lines[j].len() > LEVEL_WIDTH {
        Err(LevelError::TooWide)
    } else if lines.len() > LEVEL_HEIGHT {
        Err(LevelError::TooTall)
    } else {
        Ok(Seq::new(LEVEL_HEIGHT as nat, |j: int| row_of(lines, j)))
    }
}

/// The level that a text describes.
pub open spec fn level_from_text(s: Seq<char>) -> Result<Seq<Seq<Tile>>, LevelError> {
    level_from_lines(lines_of(s))
}

/// The level that the bytes of a level file describe.
pub open spec fn level_from_bytes(b: Seq<u8>) -> Result<Seq<Seq<Tile>>, LevelError> {
    if valid_utf8(b) {
        level_from_text(decode_utf8(b))
    } else {
        Err(LevelError::InvalidUtf8)
    }
}

/// There is always at least one piece.
proof fn lemma_pieces_nonempty(s: Seq<char>)
    ensures
        pieces(s).len() >= 1,
    decreases s.len(),
{
    if s.len() > 0 {
        lemma_pieces_nonempty(s.drop_last());
    }
}

/// Cuts a text into lines, as `lines_of` describes.
pub fn split_lines(text: &str) -> (lines: Vec<Vec<char>>)
    ensures
        lines@.map_values(|l: Vec<char>| l@) == lines_of(text@),
{
    let n = text.unicode_len();
    let mut done: Vec<Vec<char>> = Vec::new();
    let mut cur: Vec<char> = Vec::new();
    let mut i: usize = 0;
    proof {
        assert(text@.take(0) =~= Seq::<char>::empty());
    }
    while i < n
        invariant
            n == text@.len(),
            i <= n,
            pieces(text@.take(i as int)).len() >= 1,
            done@.map_values(|l: Vec<char>| l@) == pieces(text@.take(i as int)).drop_last().map_values(
                |l: Seq<char>| strip_cr(l),
            ),
            cur@ == pieces(text@.take(i as int)).last(),
        decreases n - i,
    {
        let c = text.get_char(i);
        let ghost p = pieces(text@.take(i as int));
        proof {
            assert(text@.take(i + 1).drop_last() =~= text@.take(i as int));
            assert(text@.take(i + 1).last() == c);
            lemma_pieces_nonempty(text@.take(i + 1));
        }
        if c == '\n' {
            let mut line = cur;
            if line.len() > 0 && line[line.len() - 1] == '\r' {
                line.pop();
            }
            assert(line@ == strip_cr(p.last()));
            let ghost before = done@;
            done.push(line);
            cur = Vec::new();
            proof {
                let q = pieces(text@.take(i + 1));
                assert(q == p.push(Seq::empty()));
                assert(q.drop_last() =~= p);
                assert(p.map_values(|l: Seq<char>| strip_cr(l)) =~= p.drop_last().map_values(
                    |l: Seq<char>| strip_cr(l),
                ).push(strip_cr(p.last())));
                assert(done@.map_values(|l: Vec<char>| l@) =~= before.map_values(
                    |l: Vec<char>| l@,
                ).push(line@));
            }
        } else {
            cur.push(c);
            proof {
                let q = pieces(text@.take(i + 1));
                assert(q == p.update(p.len() - 1, p.last().push(c)));
                assert(q.drop_last() =~= p.drop_last());
            }
        }
        i += 1;
    }
    proof {
        assert(text@.take(n as int) =~= text@);
    }
    if cur.len() > 0 {
        let ghost before = done@;
        done.push(cur);
        proof {
            assert(done@.map_values(|l: Vec<char>| l@) =~= before.map_values(|l: Vec<char>| l@).push(
                cur@,
            ));
        }
    }
    done
}

/// A grid of `LEVEL_HEIGHT` rows of `LEVEL_WIDTH` tiles; the first row is the top.
pub struct Level {
    tiles: Vec<Vec<Tile>>,
}

impl View for Level {
    type V = Seq<Seq<Tile>>;

    closed spec fn view(&self) -> Seq<Seq<Tile>> {
        self.tiles@.map_values(|r: Vec<Tile>| r@)
    }
}

/// What a parse returns, seen through the level's view.
pub open spec fn result_view(r: Result<Level, LevelError>) -> Result<Seq<Seq<Tile>>, LevelError> {
    match r {
        Ok(l) => Ok(l@),
        Err(e) => Err(e),
    }
}

impl Level {
    #[verifier::type_invariant]
    closed spec fn wf(self) -> bool {
        &&& self.tiles@.len() == LEVEL_HEIGHT
        &&& forall|j: int| 0 <= j < LEVEL_HEIGHT ==> #[trigger] self.tiles@[j]@.len() == LEVEL_WIDTH
    }

    /// The tile at a row and column.
    pub fn tile(&self, row: usize, col: usize) -> (t: Tile)
        requires
            row < LEVEL_HEIGHT,
            col < LEVEL_WIDTH,
        ensures
            t == self@[row as int][col as int],
    {
        proof {
            use_type_invariant(self);
        }
        self.tiles[row][col]
    }
}

fn empty_row() -> (r: Vec<Tile>)
    ensures
        r@ == Seq::new(LEVEL_WIDTH as nat, |i: int| Tile::Empty),
{
    let mut r: Vec<Tile> = Vec::new();
    let mut i: usize = 0;
    while i < LEVEL_WIDTH
        invariant
            i <= LEVEL_WIDTH,
            r@ == Seq::new(i as nat, |k: int| Tile::Empty),
        decreases LEVEL_WIDTH - i,
    {
        r.push(Tile::Empty);
        i += 1;
        assert(r@ =~= Seq::new(i as nat, |k: int| Tile::Empty));
    }
    r
}

impl Default for Level {
    /// A level with no floor at all.
    fn default() -> (l: Level)
        ensures
            l@ == Seq::new(
                LEVEL_HEIGHT as nat,
                |j: int| Seq::new(LEVEL_WIDTH as nat, |i: int| Tile::Empty),
            ),
    {
        let mut tiles: Vec<Vec<Tile>> = Vec::new();
        let mut j: usize = 0;
        while j < LEVEL_HEIGHT
            invariant
                j <= LEVEL_HEIGHT,
                tiles@.len() == j,
                forall|k: int|
                    0 <= k < j ==> #[trigger] tiles@[k]@ == Seq::new(
                        LEVEL_WIDTH as nat,
                        |i: int| Tile::Empty,
                    ),
            decreases LEVEL_HEIGHT - j,
        {
            let row = empty_row();
            tiles.push(row);
            j += 1;
        }
        let l = Level { tiles };
        assert(l@ =~= Seq::new(
            LEVEL_HEIGHT as nat,
            |j: int| Seq::new(LEVEL_WIDTH as nat, |i: int| Tile::Empty),
        ));
        l
    }
}

/// Builds the level that `lines` describe, as `level_from_lines` says.
pub fn parse_lines(lines: &Vec<Vec<char>>) -> (r: Result<Level, LevelError>)
    ensures
        result_view(r) == level_from_lines(lines@.map_values(|l: Vec<char>| l@)),
{
    let ghost ls = lines@.map_values(|l: Vec<char>| l@);
    let mut tiles: Vec<Vec<Tile>> = Vec::new();
    let mut j: usize = 0;
    while j < lines.len()
        invariant
            ls == lines@.map_values(|l: Vec<char>| l@),
            j <= lines.len(),
            j <= LEVEL_HEIGHT,
            forall|k: int| 0 <= k < j ==> #[trigger] ls[k].len() <= LEVEL_WIDTH,
            tiles@.len() == j,
            forall|k: int| 0 <= k < j ==> #[trigger] tiles@[k]@ == row_of(ls, k),
        decreases lines.len() - j,
    {
        if j >= LEVEL_HEIGHT {
            return Err(LevelError::TooTall);
        }
        let line = &lines[j];
        if line.len() > LEVEL_WIDTH {
            assert(ls[j as int].len() > LEVEL_WIDTH);
            return Err(LevelError::TooWide);
        }
        let mut row: Vec<Tile> = Vec::new();
        let mut i: usize = 0;
        while i < LEVEL_WIDTH
            invariant
                ls == lines@.map_values(|l: Vec<char>| l@),
                j < lines.len(),
                line@ == ls[j as int],
                i <= LEVEL_WIDTH,
                row@.len() == i,
                forall|k: int| 0 <= k < i ==> #[trigger] row@[k] == tile_at(ls, j as int, k),
            decreases LEVEL_WIDTH - i,
        {
            let t = if i < line.len() {
                tile_from_char(line[i])
            } else {
                Tile::Empty
            };
            row.push(t);
            i += 1;
        }
        assert(row@ =~= row_of(ls, j as int));
        tiles.push(row);
        j += 1;
    }
    while tiles.len() < LEVEL_HEIGHT
        invariant
            ls.len() <= LEVEL_HEIGHT,
            ls.len() <= tiles@.len() <= LEVEL_HEIGHT,
            forall|k: int| 0 <= k < tiles@.len() ==> #[trigger] tiles@[k]@ == row_of(ls, k),
        decreases LEVEL_HEIGHT - tiles.len(),
    {
        let row = empty_row();
        assert(row@ =~= row_of(ls, tiles@.len() as int));
        tiles.push(row);
    }
    let level = Level { tiles };
    assert(level@ =~= Seq::new(LEVEL_HEIGHT as nat, |j: int| row_of(ls, j)));
    Ok(level)
}

/// Builds the level that a text describes.
pub fn parse_level(text: &str) -> (r: Result<Level, LevelError>)
    ensures
        result_view(r) == level_from_text(text@),
{
    let lines = split_lines(text);
    parse_lines(&lines)
}

/// Relies on `std::str::from_utf8`: it accepts exactly the valid UTF-8
/// encodings, and the text it returns holds the characters they encode.
#[verifier::external_body]
fn utf8_text(bytes: &[u8]) -> (r: Option<&str>)
    ensures
        r is Some <==> valid_utf8(bytes@),
        r matches Some(s) ==> s@ == decode_utf8(bytes@),
{
    std::str::from_utf8(bytes).ok()
}

/// Builds the level that the bytes of a level file describe.
pub fn load_level(bytes: &[u8]) -> (r: Result<Level, LevelError>)
    ensures
        result_view(r) == level_from_bytes(bytes@),
{
    match utf8_text(bytes) {
        Some(text) => parse_level(text),
        None => Err(LevelError::InvalidUtf8),
    }
}

/// A floor tile of the level, by row (from the top) and column (from the left).
#[derive(Clone, Copy, Debug, PartialEq, Eq, Structural)]
pub struct FloorCell {
    pub row: usize,
    pub col: usize,
    pub side: Side,
}

/// The floor tiles of `row`, row `j` of a level, from left to right.
pub open spec fn row_cells(row: Seq<Tile>, j: int) -> Seq<FloorCell>
    decreases row.len(),
{
    if row.len() == 0 {
        Seq::empty()
    } else {
        let prev = row_cells(row.drop_last(), j);
        match row.last() {
            Tile::Floor(side) => prev.push(
                FloorCell { row: j as usize, col: (row.len() - 1) as usize, side },
            ),
            Tile::Empty => prev,
        }
    }
}

/// The floor tiles of a grid, row by row from the top, each row from the left.
pub open spec fn floor_cells_of(grid: Seq<Seq<Tile>>) -> Seq<FloorCell>
    decreases grid.len(),
{
    if grid.len() == 0 {
        Seq::empty()
    } else {
        floor_cells_of(grid.drop_last()) + row_cells(grid.last(), grid.len() - 1)
    }
}

impl Level {
    /// The floor tiles to place in the world, in reading order.
    pub fn floor_cells(&self) -> (r: Vec<FloorCell>)
        ensures
            r@ == floor_cells_of(self@),
    {
        proof {
            use_type_invariant(self);
        }
        let ghost grid = self@;
        let mut out: Vec<FloorCell> = Vec::new();
        let mut j: usize = 0;
        proof {
            assert(grid.take(0) =~= Seq::<Seq<Tile>>::empty());
        }
        while j < LEVEL_HEIGHT
            invariant
                grid == self@,
                self.tiles@.len() == LEVEL_HEIGHT,
                forall|k: int| 0 <= k < LEVEL_HEIGHT ==> #[trigger] self.tiles@[k]@.len() == LEVEL_WIDTH,
                j <= LEVEL_HEIGHT,
                out@ == floor_cells_of(grid.take(j as int)),
            decreases LEVEL_HEIGHT - j,
        {
            let row = &self.tiles[j];
            let ghost r = grid[j as int];
            assert(row@ == r);
            let mut i: usize = 0;
            proof {
                assert(r.take(0) =~= Seq::<Tile>::empty());
            }
            while i < LEVEL_WIDTH
                invariant
                    row@ == r,
                    r.len() == LEVEL_WIDTH,
                    j < LEVEL_HEIGHT,
                    i <= LEVEL_WIDTH,
                    out@ == floor_cells_of(grid.take(j as int)) + row_cells(r.take(i as int), j as int),
                decreases LEVEL_WIDTH - i,
            {
                proof {
                    assert(r.take(i + 1).drop_last() =~= r.take(i as int));
                }
                let t = row[i];
                match t {
                    Tile::Floor(side) => {
                        out.push(FloorCell { row: j, col: i, side });
                        assert(out@ =~= floor_cells_of(grid.take(j as int)) + row_cells(
                            r.take(i + 1),
                            j as int,
                        ));
                    },
                    Tile::Empty => {},
                }
                i += 1;
            }
            proof {
                assert(r.take(LEVEL_WIDTH as int) =~= r);
                assert(grid.take(j + 1).drop_last() =~= grid.take(j as int));
            }
            j += 1;
        }
        proof {
            assert(grid.take(LEVEL_HEIGHT as int) =~= grid);
        }
        out
    }
}

} // verus!
