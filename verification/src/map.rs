//! The tile map: tile kinds, grid coordinates, continuous-space positions,
//! and the square map loaded from comma-separated rows of tile values.

use vstd::prelude::*;

verus! {

use crate::MAX_MAP_SIZE;
use crate::TILE_SIZE;

/// The static terrain classification of one grid cell.
///
/// The loader maps the integers `0..=4` onto the variants in declaration
/// order: `Empty`, `Block`, `Start`, `Goal`, `Enemy`. Only `Block` is solid.
/// The `Enemy` marker is consumed at world-build time to place an enemy;
/// the cell itself behaves as background afterwards.
#[derive(Clone, Copy, Debug, PartialEq, Eq, Structural)]
pub enum Tile {
    Empty,
    Block,
    Start,
    Goal,
    Enemy,
}

impl Tile {
    /// The tile encoded by one small integer, `None` for a value outside
    /// the enumeration.
    pub open spec fn spec_from_value(value: u8) -> Option<Tile> {
        if value == 0 {
            Some(Tile::Empty)
        } else if value == 1 {
            Some(Tile::Block)
        } else if value == 2 {
            Some(Tile::Start)
        } else if value == 3 {
            Some(Tile::Goal)
        } else if value == 4 {
            Some(Tile::Enemy)
        } else {
            None
        }
    }

    /// Decodes one tile value; values outside `0..=4` are rejected.
    pub fn from_value(value: u8) -> (r: Option<Tile>)
        ensures
            r == Tile::spec_from_value(value),
    {
        match value {
            0 => Some(Tile::Empty),
            1 => Some(Tile::Block),
            2 => Some(Tile::Start),
            3 => Some(Tile::Goal),
            4 => Some(Tile::Enemy),
            _ => None,
        }
    }

    /// Whether the tile blocks movement.
    pub open spec fn spec_solid(&self) -> bool {
        self is Block
    }

    /// Only `Block` tiles are solid.
    #[verifier::when_used_as_spec(spec_solid)]
    pub fn is_solid(&self) -> (r: bool)
        ensures
            r == self.spec_solid(),
    {
        matches!(self, Tile::Block)
    }
}

/// An integer grid cell identifying an entity's logical position.
#[derive(Clone, Copy, Debug, PartialEq, Eq, Structural, Hash)]
pub struct Coordinates {
    pub x: usize,
    pub y: usize,
}

impl Coordinates {
    pub open spec fn spec_x(&self) -> usize {
        self.x
    }

    pub open spec fn spec_y(&self) -> usize {
        self.y
    }

    /// The coordinate lies inside a square grid of the given dimension.
    pub open spec fn in_bounds(self, size: int) -> bool {
        self.x < size && self.y < size
    }

    pub fn new(x: usize, y: usize) -> (c: Coordinates)
        ensures
            c.spec_x() == x,
            c.spec_y() == y,
    {
        Self { x, y }
    }

    #[verifier::when_used_as_spec(spec_x)]
    pub fn x(&self) -> (r: usize)
        ensures
            r == self.spec_x(),
    {
        self.x
    }

    #[verifier::when_used_as_spec(spec_y)]
    pub fn y(&self) -> (r: usize)
        ensures
            r == self.spec_y(),
    {
        self.y
    }
}

/// A continuous-space position in tile-size units, kept in lock-step with a
/// grid coordinate: the x axis grows to the right with the grid's x, the y
/// axis grows upward while the grid's y grows downward.
#[derive(Clone, Copy, Debug, PartialEq, Eq, Structural)]
pub struct Position {
    pub x: i64,
    pub y: i64,
}

/// Errors raised by the map loader; no partial map is ever produced.
#[derive(Clone, Copy, Debug, PartialEq, Eq, Structural)]
pub enum LoadError {
    /// A tile value that is not a decimal integer in the enumeration `0..=4`.
    MalformedTile,
    /// A row whose number of values differs from the number of rows.
    ShapeMismatch,
}

/// An immutable square grid of tiles: `size` rows of `size` tiles each,
/// stored row-major.
#[derive(Debug)]
pub struct TileMap {
    pub size: usize,
    pub layout: Vec<Tile>,
}

impl TileMap {
    /// The map stores exactly `size * size` tiles.
    pub open spec fn wf(self) -> bool {
        self.layout@.len() == self.size * self.size
    }

    pub open spec fn spec_size(&self) -> usize {
        self.size
    }

    /// The tile at column `x` of row `y`.
    pub open spec fn spec_tile(self, x: int, y: int) -> Tile {
        self.layout@[y * self.size + x]
    }

    #[verifier::when_used_as_spec(spec_size)]
    pub fn size(&self) -> (r: usize)
        ensures
            r == self.spec_size(),
    {
        self.size
    }

    /// The tile at column `x` of row `y`; callers stay inside the grid.
    pub fn tile_at(&self, x: usize, y: usize) -> (t: Tile)
        requires
            self.wf(),
            x < self.spec_size(),
            y < self.spec_size(),
        ensures
            t == self.spec_tile(x as int, y as int),
    {
        // a Vec's length is a usize, which bounds the index arithmetic
        let _stored: usize = self.layout.len();
        proof {
            lemma_row_major_index(self.size as int, x as int, y as int);
        }
        self.layout[y * self.size + x]
    }

    /// Whether the cell at `(x, y)` blocks movement.
    pub fn is_solid(&self, x: usize, y: usize) -> (r: bool)
        requires
            self.wf(),
            x < self.spec_size(),
            y < self.spec_size(),
        ensures
            r == self.spec_tile(x as int, y as int).spec_solid(),
    {
        self.tile_at(x, y).is_solid()
    }
}

/// Midpoint of a grid of the given dimension: the default player cell and
/// the continuous-space origin.
pub open spec fn spec_half(size: int) -> int {
    size / 2
}

/// The continuous position and the grid coordinate agree: the continuous
/// position is exactly the coordinate transformed by the tile size, with the
/// origin at the grid's midpoint and the vertical axis flipped.
pub open spec fn in_lockstep(c: Coordinates, p: Position, size: int) -> bool {
    &&& p.x == (c.x - spec_half(size)) * TILE_SIZE
    &&& p.y == (spec_half(size) - c.y) * TILE_SIZE
}

/// The single collision rule: a step by `(dx, dy)` from `c` is possible
/// exactly when the target cell lies inside the grid and is not solid.
pub open spec fn can_step(map: TileMap, c: Coordinates, dx: int, dy: int) -> bool {
    &&& 0 <= c.x + dx < map.size
    &&& 0 <= c.y + dy < map.size
    &&& !map.spec_tile(c.x + dx, c.y + dy).spec_solid()
}

/// The coordinate after attempting a step: moved by one cell when the step
/// is possible, unchanged when it is blocked.
pub open spec fn step_coord(map: TileMap, c: Coordinates, dx: int, dy: int) -> Coordinates {
    if can_step(map, c, dx, dy) {
        Coordinates { x: (c.x + dx) as usize, y: (c.y + dy) as usize }
    } else {
        c
    }
}

/// The continuous position after attempting the same step: one tile-size
/// unit along the matching axis (vertically mirrored), or unchanged.
pub open spec fn step_position(
    map: TileMap,
    c: Coordinates,
    p: Position,
    dx: int,
    dy: int,
) -> Position {
    if can_step(map, c, dx, dy) {
        Position { x: (p.x + dx * TILE_SIZE) as i64, y: (p.y - dy * TILE_SIZE) as i64 }
    } else {
        p
    }
}

impl Coordinates {
    /// Moves one cell toward smaller `y`, raising the continuous position by
    /// one tile; a solid target or the grid's edge leaves both unchanged.
    pub fn move_up(&mut self, translation: &mut Position, map: &TileMap) -> (moved: bool)
        requires
            map.wf(),
            map.spec_size() <= MAX_MAP_SIZE,
            old(self).in_bounds(map.spec_size() as int),
            in_lockstep(*old(self), *old(translation), map.spec_size() as int),
        ensures
            *final(self) == step_coord(*map, *old(self), 0, -1),
            *final(translation) == step_position(*map, *old(self), *old(translation), 0, -1),
            moved == can_step(*map, *old(self), 0, -1),
            final(self).in_bounds(map.spec_size() as int),
            in_lockstep(*final(self), *final(translation), map.spec_size() as int),
    {
        if self.y > 0 && !map.is_solid(self.x, self.y - 1) {
            self.y = self.y - 1;
            translation.y = translation.y + TILE_SIZE;
            true
        } else {
            false
        }
    }

    /// Moves one cell toward larger `y`, lowering the continuous position by
    /// one tile; a solid target or the grid's edge leaves both unchanged.
    pub fn move_down(&mut self, translation: &mut Position, map: &TileMap) -> (moved: bool)
        requires
            map.wf(),
            map.spec_size() <= MAX_MAP_SIZE,
            old(self).in_bounds(map.spec_size() as int),
            in_lockstep(*old(self), *old(translation), map.spec_size() as int),
        ensures
            *final(self) == step_coord(*map, *old(self), 0, 1),
            *final(translation) == step_position(*map, *old(self), *old(translation), 0, 1),
            moved == can_step(*map, *old(self), 0, 1),
            final(self).in_bounds(map.spec_size() as int),
            in_lockstep(*final(self), *final(translation), map.spec_size() as int),
    {
        if self.y < map.size() - 1 && !map.is_solid(self.x, self.y + 1) {
            self.y = self.y + 1;
            translation.y = translation.y - TILE_SIZE;
            true
        } else {
            false
        }
    }

    /// Moves one cell toward smaller `x`; a solid target or the grid's edge
    /// leaves both unchanged.
    pub fn move_left(&mut self, translation: &mut Position, map: &TileMap) -> (moved: bool)
        requires
            map.wf(),
            map.spec_size() <= MAX_MAP_SIZE,
            old(self).in_bounds(map.spec_size() as int),
            in_lockstep(*old(self), *old(translation), map.spec_size() as int),
        ensures
            *final(self) == step_coord(*map, *old(self), -1, 0),
            *final(translation) == step_position(*map, *old(self), *old(translation), -1, 0),
            moved == can_step(*map, *old(self), -1, 0),
            final(self).in_bounds(map.spec_size() as int),
            in_lockstep(*final(self), *final(translation), map.spec_size() as int),
    {
        if self.x > 0 && !map.is_solid(self.x - 1, self.y) {
            self.x = self.x - 1;
            translation.x = translation.x - TILE_SIZE;
            true
        } else {
            false
        }
    }

    /// Moves one cell toward larger `x`; a solid target or the grid's edge
    /// leaves both unchanged.
    pub fn move_right(&mut self, translation: &mut Position, map: &TileMap) -> (moved: bool)
        requires
            map.wf(),
            map.spec_size() <= MAX_MAP_SIZE,
            old(self).in_bounds(map.spec_size() as int),
            in_lockstep(*old(self), *old(translation), map.spec_size() as int),
        ensures
            *final(self) == step_coord(*map, *old(self), 1, 0),
            *final(translation) == step_position(*map, *old(self), *old(translation), 1, 0),
            moved == can_step(*map, *old(self), 1, 0),
            final(self).in_bounds(map.spec_size() as int),
            in_lockstep(*final(self), *final(translation), map.spec_size() as int),
    {
        if self.x < map.size() - 1 && !map.is_solid(self.x + 1, self.y) {
            self.x = self.x + 1;
            translation.x = translation.x + TILE_SIZE;
            true
        } else {
            false
        }
    }
}

/// An ASCII decimal digit.
pub open spec fn is_digit(b: u8) -> bool {
    48 <= b <= 57
}

pub open spec fn all_digits(f: Seq<u8>) -> bool {
    forall|j: int| 0 <= j < f.len() ==> is_digit(f[j])
}

/// The number written by a run of decimal digits, most significant first.
pub open spec fn digits_value(f: Seq<u8>) -> int
    decreases f.len(),
{
    if f.len() == 0 {
        0
    } else {
        digits_value(f.drop_last()) * 10 + (f.last() - 48)
    }
}

/// One comma-separated row, split into its fields. Every row has at least
/// one field; an empty row has exactly one, which is empty.
pub open spec fn row_fields(row: Seq<u8>) -> Seq<Seq<u8>>
    decreases row.len(),
{
    if row.len() == 0 {
        seq![Seq::<u8>::empty()]
    } else if row[0] == 44 {
        seq![Seq::<u8>::empty()] + row_fields(row.drop_first())
    } else {
        let rest = row_fields(row.drop_first());
        seq![seq![row[0]] + rest[0]] + rest.drop_first()
    }
}

/// The tile denoted by one field: a nonempty run of decimal digits whose
/// value lies in the tile enumeration; anything else is malformed.
pub open spec fn spec_field_tile(f: Seq<u8>) -> Option<Tile> {
    if f.len() > 0 && all_digits(f) && 0 <= digits_value(f) <= 4 {
        Tile::spec_from_value(digits_value(f) as u8)
    } else {
        None
    }
}

/// What is wrong with one row of an intended `n`-row grid, if anything.
/// A malformed field is reported before a wrong field count.
pub open spec fn spec_row_error(row: Seq<u8>, n: int) -> Option<LoadError> {
    if exists|j: int|
        0 <= j < row_fields(row).len() && spec_field_tile(row_fields(row)[j]) is None {
        Some(LoadError::MalformedTile)
    } else if row_fields(row).len() != n {
        Some(LoadError::ShapeMismatch)
    } else {
        None
    }
}

/// The first error among the rows, scanned top to bottom; `None` when the
/// whole grid is well formed.
pub open spec fn spec_load_error(rows: Seq<Seq<u8>>, n: int) -> Option<LoadError>
    decreases rows.len(),
{
    if rows.len() == 0 {
        None
    } else if spec_row_error(rows[0], n) is Some {
        spec_row_error(rows[0], n)
    } else {
        spec_load_error(rows.drop_first(), n)
    }
}

proof fn lemma_row_fields_len(row: Seq<u8>)
    ensures
        row_fields(row).len() >= 1,
    decreases row.len(),
{
    if row.len() == 0 {
    } else {
        lemma_row_fields_len(row.drop_first());
    }
}

/// A completed-fields prefix together with the fields still to come: the
/// bytes gathered so far extend the first remaining field.
spec fn cons_field(cur: Seq<u8>, fs: Seq<Seq<u8>>) -> Seq<Seq<u8>> {
    seq![cur + fs[0]] + fs.drop_first()
}

/// Splits one row on commas.
fn split_row(row: &Vec<u8>) -> (fields: Vec<Vec<u8>>)
    ensures
        fields.deep_view() == row_fields(row@),
{
    let n = row.len();
    let mut done: Vec<Vec<u8>> = Vec::new();
    let mut cur: Vec<u8> = Vec::new();
    let mut i: usize = 0;
    proof {
        assert(row@.skip(0) =~= row@);
        lemma_row_fields_len(row@);
        assert(cons_field(Seq::<u8>::empty(), row_fields(row@)) =~~= row_fields(row@));
        assert(done.deep_view() =~~= Seq::<Seq<u8>>::empty());
        assert(Seq::<Seq<u8>>::empty() + row_fields(row@) =~~= row_fields(row@));
    }
    while i < n
        invariant
            i <= n,
            n == row@.len(),
            row_fields(row@) =~~= done.deep_view() + cons_field(
                cur@,
                row_fields(row@.skip(i as int)),
            ),
        decreases n - i,
    {
        let ghost suffix = row@.skip(i as int);
        let ghost rest = row@.skip(i + 1);
        proof {
            assert(suffix.len() > 0);
            assert(suffix[0] == row@[i as int]);
            assert(suffix.drop_first() =~= rest);
            lemma_row_fields_len(rest);
        }
        let b = row[i];
        let ghost pre_done = done.deep_view();
        let ghost pre_cur = cur@;
        if b == 44 {
            done.push(cur);
            cur = Vec::new();
            proof {
                assert(row_fields(suffix) =~~= seq![Seq::<u8>::empty()] + row_fields(rest));
                assert(done.deep_view() =~~= pre_done.push(pre_cur));
                assert(cons_field(pre_cur, row_fields(suffix)) =~~= seq![pre_cur] + row_fields(
                    rest,
                ));
                assert(cons_field(cur@, row_fields(rest)) =~~= row_fields(rest));
                assert(pre_done.push(pre_cur) + row_fields(rest) =~~= pre_done + (seq![pre_cur]
                    + row_fields(rest)));
            }
        } else {
            cur.push(b);
            proof {
                let fs = row_fields(rest);
                assert(row_fields(suffix) =~~= seq![seq![row@[i as int]] + fs[0]]
                    + fs.drop_first());
                assert(cur@ + fs[0] =~= pre_cur + (seq![row@[i as int]] + fs[0]));
                assert(cons_field(cur@, fs) =~~= cons_field(pre_cur, row_fields(suffix)));
            }
        }
        i = i + 1;
    }
    let ghost pre_done = done.deep_view();
    let ghost pre_cur = cur@;
    done.push(cur);
    proof {
        assert(row@.skip(n as int) =~= Seq::<u8>::empty());
        assert(row_fields(Seq::<u8>::empty()) =~~= seq![Seq::<u8>::empty()]);
        assert(cons_field(pre_cur, seq![Seq::<u8>::empty()]) =~~= seq![pre_cur]);
        assert(done.deep_view() =~~= pre_done.push(pre_cur));
        assert(pre_done.push(pre_cur) =~~= pre_done + seq![pre_cur]);
    }
    done
}

/// Parses one field as a tile value, clamping the running value once it
/// leaves the tile enumeration.
fn parse_field(field: &Vec<u8>) -> (t: Option<Tile>)
    ensures
        t == spec_field_tile(field@),
{
    let n = field.len();
    if n == 0 {
        return None;
    }
    let mut val: u8 = 0;
    let mut i: usize = 0;
    while i < n
        invariant
            0 < n == field@.len(),
            i <= n,
            forall|j: int| 0 <= j < i ==> is_digit(field@[j]),
            digits_value(field@.take(i as int)) <= 4 ==> val == digits_value(
                field@.take(i as int),
            ),
            digits_value(field@.take(i as int)) > 4 ==> val == 5,
            0 <= digits_value(field@.take(i as int)),
        decreases n - i,
    {
        let b = field[i];
        if b < 48 || b > 57 {
            return None;
        }
        let d = b - 48;
        if val <= 4 {
            val = val * 10 + d;
        }
        if val > 4 {
            val = 5;
        }
        i = i + 1;
        proof {
            let taken = field@.take(i as int);
            assert(taken.drop_last() =~= field@.take(i - 1));
            assert(taken.last() == field@[i - 1]);
        }
    }
    proof {
        assert(field@.take(n as int) =~= field@);
    }
    if val <= 4 {
        Tile::from_value(val)
    } else {
        None
    }
}

/// Every cell of the first `y` rows has a row-major index below `y * n`.
proof fn lemma_grid_prefix(n: int, y: int)
    requires
        0 <= n,
        0 <= y,
    ensures
        forall|yy: int, j: int| 0 <= yy < y && 0 <= j < n ==> 0 <= #[trigger] (yy * n + j) < y
            * n,
{
    assert forall|yy: int, j: int| 0 <= yy < y && 0 <= j < n implies 0 <= #[trigger] (yy * n + j)
        < y * n by {
        assert(0 <= yy * n + j < y * n) by (nonlinear_arith)
            requires
                0 <= yy < y,
                0 <= j < n,
        {
        }
    }
}

impl TileMap {
    /// Parses a square grid: one row of comma-separated tile values per
    /// entry. On success the map reproduces the source exactly: `size`
    /// equals the number of rows, and every cell holds the tile written at
    /// it — no implicit border of Block tiles is added, the grid's edge
    /// itself bounds movement. The first offending row, scanned top to
    /// bottom, decides the error, and no partial map is produced.
    #[verifier::loop_isolation(false)]
    pub fn load(rows: &Vec<Vec<u8>>) -> (r: Result<TileMap, LoadError>)
        ensures
            match r {
                Ok(m) => {
                    &&& spec_load_error(rows.deep_view(), rows@.len() as int) is None
                    &&& m.wf()
                    &&& m.spec_size() == rows@.len()
                    &&& forall|x: int, y: int|
                        0 <= x < rows@.len() && 0 <= y < rows@.len() ==> m.spec_tile(x, y)
                            == spec_field_tile(row_fields(rows.deep_view()[y])[x])->Some_0
                },
                Err(e) => spec_load_error(rows.deep_view(), rows@.len() as int) == Some(e),
            },
    {
        let ghost rs = rows.deep_view();
        let n = rows.len();
        let mut layout: Vec<Tile> = Vec::new();
        let mut y: usize = 0;
        proof {
            assert(rs.skip(0) =~= rs);
        }
        while y < n
            invariant
                y <= n,
                layout@.len() == y * n,
                spec_load_error(rs, n as int) == spec_load_error(rs.skip(y as int), n as int),
                forall|yy: int, j: int|
                    0 <= yy < y && 0 <= j < n ==> layout@[yy * n + j] == spec_field_tile(
                        row_fields(rs[yy])[j],
                    )->Some_0,
            decreases n - y,
        {
            let ghost suffix = rs.skip(y as int);
            proof {
                assert(suffix[0] == rs[y as int]);
                assert(suffix.drop_first() =~= rs.skip(y as int + 1));
                assert(rows@[y as int].deep_view() =~= rows@[y as int]@);
            }
            let fields = split_row(&rows[y]);
            let ghost fsv = fields.deep_view();
            proof {
                assert(fsv == row_fields(rs[y as int]));
            }
            let m = fields.len();
            let mut x: usize = 0;
            while x < m
                invariant
                    x <= m,
                    layout@.len() == y * n + x,
                    forall|j: int| 0 <= j < x ==> spec_field_tile(fsv[j]) is Some,
                    forall|j: int|
                        0 <= j < x ==> layout@[y * n + j] == spec_field_tile(fsv[j])->Some_0,
                    forall|yy: int, j: int|
                        0 <= yy < y && 0 <= j < n ==> layout@[yy * n + j] == spec_field_tile(
                            row_fields(rs[yy])[j],
                        )->Some_0,
                decreases m - x,
            {
                proof {
                    assert(fields@[x as int].deep_view() =~= fields@[x as int]@);
                    assert(fields@[x as int]@ == fsv[x as int]);
                    lemma_grid_prefix(n as int, y as int);
                }
                match parse_field(&fields[x]) {
                    None => {
                        proof {
                            assert(spec_field_tile(row_fields(rs[y as int])[x as int]) is None);
                            assert(spec_row_error(rs[y as int], n as int) == Some(
                                LoadError::MalformedTile,
                            ));
                        }
                        return Err(LoadError::MalformedTile);
                    },
                    Some(t) => {
                        layout.push(t);
                    },
                }
                x = x + 1;
            }
            if m != n {
                proof {
                    assert(forall|j: int|
                        0 <= j < row_fields(rs[y as int]).len() ==> spec_field_tile(
                            row_fields(rs[y as int])[j],
                        ) is Some);
                    assert(spec_row_error(rs[y as int], n as int) == Some(
                        LoadError::ShapeMismatch,
                    ));
                }
                return Err(LoadError::ShapeMismatch);
            }
            proof {
                assert(spec_row_error(rs[y as int], n as int) is None);
                assert((y + 1) * n == y * n + n) by (nonlinear_arith);
                lemma_grid_prefix(n as int, y as int);
            }
            y = y + 1;
        }
        proof {
            assert(rs.skip(n as int) =~= Seq::<Seq<u8>>::empty());
        }
        Ok(TileMap { size: n, layout })
    }
}

proof fn lemma_bad_row_means_error(rows: Seq<Seq<u8>>, n: int, y: int)
    requires
        0 <= y < rows.len(),
        spec_row_error(rows[y], n) is Some,
    ensures
        spec_load_error(rows, n) is Some,
    decreases y,
{
    if spec_row_error(rows[0], n) is Some {
    } else {
        assert(rows.drop_first()[y - 1] == rows[y]);
        lemma_bad_row_means_error(rows.drop_first(), n, y - 1);
    }
}

/// Shape validation: a grid with a ragged row — one whose number of fields
/// differs from the number of rows — never loads; `load` rejects it with
/// some error and produces no map.
pub proof fn lemma_ragged_row_fails_load(rows: Seq<Seq<u8>>, y: int)
    requires
        0 <= y < rows.len(),
        row_fields(rows[y]).len() != rows.len(),
    ensures
        spec_load_error(rows, rows.len() as int) is Some,
{
    lemma_bad_row_means_error(rows, rows.len() as int, y);
}

/// A row-major index stays inside a square grid, and the index arithmetic
/// stays inside `usize` whenever `size * size` does.
pub proof fn lemma_row_major_index(size: int, x: int, y: int)
    requires
        0 <= x < size,
        0 <= y < size,
    ensures
        0 <= y * size + x < size * size,
{
    assert(0 <= y * size + x < size * size) by (nonlinear_arith)
        requires
            0 <= x < size,
            0 <= y < size,
    {
    }
}

} // verus!
