use itertools::Itertools;
use vstd::prelude::*;
use vstd::string::StringSliceAdditionalSpecFns;

verus! {

/// Index of a sprite in the sprite sheet.
pub type SpriteId = u8;

/// Width of the map, in cells: eight screens of sixteen sprites.
pub const WIDTH_SPRITES: usize = 128;

/// Height of the map, in cells: four screens of sixteen sprites.
pub const HEIGHT_SPRITES: usize = 64;

/// Number of cells in the map.
pub const MAP_SIZE: usize = 8192;

/// The cells of a new map: the first three hold sprite 1, the rest sprite 0.
pub open spec fn initial_cells() -> Seq<u8> {
    Seq::new(MAP_SIZE as nat, |i: int| if i < 3 { 1u8 } else { 0u8 })
}

/// The value of a hexadecimal digit, in either case.
pub open spec fn hex_value(c: u8) -> Option<u8> {
    if 48 <= c <= 57 {
        Some((c - 48) as u8)
    } else if 65 <= c <= 70 {
        Some((c - 55) as u8)
    } else if 97 <= c <= 102 {
        Some((c - 87) as u8)
    } else {
        None
    }
}

/// The values of the hexadecimal digits among `bytes`, in order; other bytes are skipped.
pub open spec fn hex_digits(bytes: Seq<u8>) -> Seq<u8>
    decreases bytes.len(),
{
    if bytes.len() == 0 {
        Seq::empty()
    } else {
        match hex_value(bytes.last()) {
            Some(d) => hex_digits(bytes.drop_last()).push(d),
            None => hex_digits(bytes.drop_last()),
        }
    }
}

/// Consecutive digits read two by two, high digit first; an odd last digit is dropped.
pub open spec fn digit_pairs(digits: Seq<u8>) -> Seq<u8> {
    Seq::new(
        digits.len() / 2,
        |i: int| (digits[2 * i] * 16 + digits[2 * i + 1]) as u8,
    )
}

/// The cells that the text `bytes` spells.
pub open spec fn cells_of_text(bytes: Seq<u8>) -> Seq<u8> {
    digit_pairs(hex_digits(bytes))
}

/// The decimal digits of `n`.
pub open spec fn decimal(n: nat) -> Seq<char>
    decreases n,
{
    if n < 10 {
        seq![(48 + n) as char]
    } else {
        decimal(n / 10).push((48 + n % 10) as char)
    }
}

/// The message of a text that does not spell `n` cells exactly.
pub open spec fn size_error(n: nat) -> Seq<char> {
    "Error deserializing map "@ + decimal(n)
}

/// An upper-case hexadecimal digit.
pub open spec fn upper_hex(d: u8) -> char {
    if d < 10 {
        (48 + d) as char
    } else {
        (55 + d) as char
    }
}

/// A byte as two upper-case hexadecimal digits.
pub open spec fn hex_pair(n: u8) -> Seq<char> {
    seq![upper_hex(n / 16), upper_hex(n % 16)]
}

/// `parts` with `sep` between each two of them.
pub open spec fn joined(parts: Seq<Seq<char>>, sep: Seq<char>) -> Seq<char>
    decreases parts.len(),
{
    if parts.len() == 0 {
        Seq::empty()
    } else if parts.len() == 1 {
        parts[0]
    } else {
        joined(parts.drop_last(), sep) + sep + parts.last()
    }
}

/// One row of the map as text: its cells in hexadecimal, separated by spaces.
pub open spec fn row_text(cells: Seq<u8>, row: int) -> Seq<char> {
    joined(
        Seq::new(WIDTH_SPRITES as nat, |col: int| hex_pair(cells[row * WIDTH_SPRITES + col])),
        seq![' '],
    )
}

/// The map as text: one line per row.
pub open spec fn map_text(cells: Seq<u8>) -> Seq<char> {
    joined(Seq::new(HEIGHT_SPRITES as nat, |row: int| row_text(cells, row)), seq!['\n'])
}

/// Relies on `Itertools::tuples`: consecutive items two by two, an odd last one left out.
#[verifier::external_body]
fn pairs(digits: Vec<u8>) -> (r: Vec<(u8, u8)>)
    ensures
        r@.len() == digits@.len() / 2,
        forall|i: int| 0 <= i < r@.len() ==> #[trigger] r@[i] == (digits@[2 * i], digits@[2 * i + 1]),
{
    digits.into_iter().tuples().collect()
}

/// Relies on `Itertools::join`: the parts, in order, with `sep` between each two.
#[verifier::external_body]
fn join(parts: &Vec<String>, sep: &str) -> (r: String)
    ensures
        r@ == joined(parts@.map_values(|p: String| p@), sep@),
{
    parts.iter().join(sep)
}

/// Relies on std's formatting of `{:0>2X}`: two upper-case hexadecimal digits.
#[verifier::external_body]
fn format_hex_pair(n: u8) -> (r: String)
    ensures
        r@ == hex_pair(n),
{
    format!("{:0>2X}", n)
}

/// Relies on std's formatting of `{}` for an integer: its decimal digits.
#[verifier::external_body]
fn format_size_error(n: usize) -> (r: String)
    ensures
        r@ == size_error(n as nat),
{
    format!("Error deserializing map {}", n)
}

/// The value of the hexadecimal digit `c`, if it is one.
fn hex_digit_value(c: u8) -> (r: Option<u8>)
    ensures
        r == hex_value(c),
{
    if 48 <= c && c <= 57 {
        Some(c - 48)
    } else if 65 <= c && c <= 70 {
        Some(c - 55)
    } else if 97 <= c && c <= 102 {
        Some(c - 87)
    } else {
        None
    }
}

/// The grid of sprites that a game's levels are drawn from, row by row.
#[derive(Debug, Clone)]
pub struct SpriteMap {
    map: Vec<SpriteId>,
}

impl View for SpriteMap {
    type V = Seq<u8>;

    closed spec fn view(&self) -> Seq<u8> {
        self.map@
    }
}

impl SpriteMap {
    /// A map has exactly `MAP_SIZE` cells.
    pub open spec fn wf(&self) -> bool {
        self@.len() == MAP_SIZE
    }

    /// A new map: sprite 1 in the first three cells, sprite 0 elsewhere.
    pub fn new() -> (r: Self)
        ensures
            r@ == initial_cells(),
            r.wf(),
    {
        let mut map: Vec<u8> = Vec::new();
        let mut i: usize = 0;
        while i < MAP_SIZE
            invariant
                i <= MAP_SIZE,
                map@ == initial_cells().take(i as int),
            decreases MAP_SIZE - i,
        {
            if i < 3 {
                map.push(1u8);
            } else {
                map.push(0u8);
            }
            i += 1;
            assert(map@ =~= initial_cells().take(i as int));
        }
        assert(map@ =~= initial_cells());
        SpriteMap { map }
    }

    /// A new map whose first cells are `v`.
    pub fn from_slice(v: &[SpriteId]) -> (r: Self)
        requires
            v@.len() <= MAP_SIZE,
        ensures
            r@ == Seq::new(MAP_SIZE as nat, |i: int| if i < v@.len() { v@[i] } else { initial_cells()[i] }),
            r.wf(),
    {
        let mut map = Self::new().iter();
        let mut i: usize = 0;
        while i < v.len()
            invariant
                i <= v@.len() <= MAP_SIZE,
                map@ == Seq::new(MAP_SIZE as nat, |k: int| if k < i { v@[k] } else { initial_cells()[k] }),
            decreases v@.len() - i,
        {
            map.set(i, v[i]);
            i += 1;
            assert(map@ =~= Seq::new(MAP_SIZE as nat, |k: int| if k < i { v@[k] } else { initial_cells()[k] }));
        }
        assert(map@ =~= Seq::new(MAP_SIZE as nat, |k: int| if k < v@.len() { v@[k] } else { initial_cells()[k] }));
        SpriteMap { map }
    }

    /// The sprite in column `cel_x` of row `cel_y`.
    pub fn mget(&self, cel_x: usize, cel_y: usize) -> (r: u8)
        requires
            self.wf(),
            cel_x + cel_y * WIDTH_SPRITES < MAP_SIZE,
        ensures
            r == self@[cel_x + cel_y * WIDTH_SPRITES],
    {
        let index = cel_x + cel_y * WIDTH_SPRITES;
        self.map[index]
    }

    /// Puts `sprite` in column `cel_x` of row `cel_y`.
    pub fn mset(&mut self, cel_x: usize, cel_y: usize, sprite: u8)
        requires
            old(self).wf(),
            cel_x + cel_y * WIDTH_SPRITES < MAP_SIZE,
        ensures
            final(self)@ == old(self)@.update(cel_x + cel_y * WIDTH_SPRITES, sprite),
            final(self).wf(),
    {
        let index = cel_x + cel_y * WIDTH_SPRITES;
        self.map.set(index, sprite);
    }

    /// The cells, row by row.
    pub fn iter(&self) -> (r: Vec<SpriteId>)
        ensures
            r@ == self@,
    {
        self.map.clone()
    }

    /// Reads a map from text: the hexadecimal digits in it, two per cell, high
    /// digit first; every other byte is skipped. The text must spell exactly
    /// `MAP_SIZE` cells.
    pub fn deserialize(str: &str) -> (r: Result<Self, String>)
        ensures
            cells_of_text(str.spec_bytes()).len() == MAP_SIZE ==> (r matches Ok(m) && m@ == cells_of_text(
                str.spec_bytes(),
            ) && m.wf()),
            cells_of_text(str.spec_bytes()).len() != MAP_SIZE ==> (r matches Err(e) && e@ == size_error(
                cells_of_text(str.spec_bytes()).len(),
            )),
    {
        let bytes = str.as_bytes();
        let mut digits: Vec<u8> = Vec::new();
        let mut i: usize = 0;
        while i < bytes.len()
            invariant
                i <= bytes@.len(),
                bytes@ == str.spec_bytes(),
                digits@ == hex_digits(bytes@.take(i as int)),
                forall|k: int| 0 <= k < digits@.len() ==> #[trigger] digits@[k] < 16,
            decreases bytes@.len() - i,
        {
            proof {
                assert(bytes@.take(i + 1).drop_last() =~= bytes@.take(i as int));
            }
            match hex_digit_value(bytes[i]) {
                Some(d) => digits.push(d),
                None => {},
            }
            i += 1;
        }
        proof {
            assert(bytes@.take(i as int) =~= bytes@);
        }
        let ghost ds = digits@;
        let tuples = pairs(digits);
        let mut map: Vec<u8> = Vec::new();
        let mut j: usize = 0;
        while j < tuples.len()
            invariant
                j <= tuples@.len(),
                tuples@.len() == ds.len() / 2,
                forall|i: int| 0 <= i < tuples@.len() ==> #[trigger] tuples@[i] == (ds[2 * i], ds[2 * i + 1]),
                forall|k: int| 0 <= k < ds.len() ==> #[trigger] ds[k] < 16,
                map@ == digit_pairs(ds).take(j as int),
            decreases tuples@.len() - j,
        {
            let (high, low) = tuples[j];
            proof {
                assert(tuples@[j as int] == (ds[2 * j], ds[2 * j + 1]));
                assert(high < 16 && low < 16);
                assert((high << 4u8) | low == high * 16 + low) by (bit_vector)
                    requires
                        high < 16u8,
                        low < 16u8,
                ;
            }
            map.push((high << 4u8) | low);
            j += 1;
            assert(map@ =~= digit_pairs(ds).take(j as int));
        }
        assert(map@ =~= digit_pairs(ds));
        if map.len() == MAP_SIZE {
            Ok(SpriteMap { map })
        } else {
            Err(format_size_error(map.len()))
        }
    }

    /// The name of the file that holds the map.
    pub fn file_name() -> (r: String)
        ensures
            r@ == "map.txt"@,
    {
        "map.txt".to_owned()
    }

    /// The map as text: a line per row, each cell as two upper-case
    /// hexadecimal digits, cells separated by a space.
    pub fn serialize(&self) -> (r: String)
        requires
            self.wf(),
        ensures
            r@ == map_text(self@),
    {
        let mut lines: Vec<String> = Vec::new();
        let mut row: usize = 0;
        while row < HEIGHT_SPRITES
            invariant
                row <= HEIGHT_SPRITES,
                self.map@.len() == MAP_SIZE,
                lines@.len() == row,
                forall|k: int| 0 <= k < row ==> #[trigger] lines@[k]@ == row_text(self@, k),
            decreases HEIGHT_SPRITES - row,
        {
            let mut cells: Vec<String> = Vec::new();
            let mut col: usize = 0;
            while col < WIDTH_SPRITES
                invariant
                    row < HEIGHT_SPRITES,
                    col <= WIDTH_SPRITES,
                    self.map@.len() == MAP_SIZE,
                    cells@.len() == col,
                    forall|k: int| 0 <= k < col ==> #[trigger] cells@[k]@ == hex_pair(self@[row * WIDTH_SPRITES + k]),
                decreases WIDTH_SPRITES - col,
            {
                cells.push(format_hex_pair(self.map[row * WIDTH_SPRITES + col]));
                col += 1;
            }
            proof {
                reveal_strlit(" ");
                assert(cells@.map_values(|p: String| p@) =~= Seq::new(
                    WIDTH_SPRITES as nat,
                    |c: int| hex_pair(self@[row * WIDTH_SPRITES + c]),
                ));
                assert(" "@ =~= seq![' ']);
            }
            lines.push(join(&cells, " "));
            row += 1;
        }
        proof {
            reveal_strlit("\n");
            assert(lines@.map_values(|p: String| p@) =~= Seq::new(
                HEIGHT_SPRITES as nat,
                |r: int| row_text(self@, r),
            ));
            assert("\n"@ =~= seq!['\n']);
        }
        join(&lines, "\n")
    }
}

impl Default for SpriteMap {
    fn default() -> (r: Self)
        ensures
            r@ == initial_cells(),
            r.wf(),
    {
        Self::new()
    }
}

} // verus!
