use vstd::prelude::*;
use crate::piece::SquareColor;

verus! {

/// The letter for digit `d` (0 to 25) of a column name.
pub open spec fn letter(d: int) -> char {
    ((d + 97) as u8) as char
}

/// The decimal digit character for `d` (0 to 9).
pub open spec fn digit_char(d: int) -> char {
    ((d + 48) as u8) as char
}

/// A column's name: bijective base 26 over `a` to `z`, so that 0 is `a`,
/// 25 is `z`, 26 is `aa` and 27 is `ab`.
pub open spec fn column_letters(n: nat) -> Seq<char>
    decreases n,
{
    if n < 26 {
        seq![letter(n as int)]
    } else {
        column_letters((n / 26 - 1) as nat).push(letter((n % 26) as int))
    }
}

/// A number in decimal, without leading zeros.
pub open spec fn decimal(n: nat) -> Seq<char>
    decreases n,
{
    if n < 10 {
        seq![digit_char(n as int)]
    } else {
        decimal((n / 10) as nat).push(digit_char((n % 10) as int))
    }
}

/// The name of a square: its column's letters, then its row counted from 1.
pub open spec fn square_name(column: nat, row: nat) -> Seq<char> {
    column_letters(column) + decimal(row + 1)
}

/// Relies on String::push: the character is appended at the end.
#[verifier::external_body]
fn push_char(s: &mut String, c: char)
    ensures
        final(s)@ == old(s)@.push(c),
{
    s.push(c)
}

fn push_column_letters(s: &mut String, n: usize)
    ensures
        final(s)@ == old(s)@ + column_letters(n as nat),
    decreases n,
{
    if n >= 26 {
        push_column_letters(s, n / 26 - 1);
    }
    push_char(s, ((n % 26) as u8 + 97) as char);
    assert(old(s)@ + column_letters(n as nat) =~= final(s)@) by {
        if n >= 26 {
            assert(old(s)@ + column_letters((n / 26 - 1) as nat).push(letter((n % 26) as int))
                =~= (old(s)@ + column_letters((n / 26 - 1) as nat)).push(letter((n % 26) as int)));
        }
    }
}

fn push_decimal(s: &mut String, n: usize)
    ensures
        final(s)@ == old(s)@ + decimal(n as nat),
    decreases n,
{
    if n >= 10 {
        push_decimal(s, n / 10);
    }
    push_char(s, ((n % 10) as u8 + 48) as char);
    assert(old(s)@ + decimal(n as nat) =~= final(s)@) by {
        if n >= 10 {
            assert(old(s)@ + decimal((n / 10) as nat).push(digit_char((n % 10) as int))
                =~= (old(s)@ + decimal((n / 10) as nat)).push(digit_char((n % 10) as int)));
        }
    }
}

/// The name of the square on `column` and `row` (both from 0), such as
/// `a1`, `z2` or `aa1`.
pub fn get_square_name_from_row_and_col(column: usize, row: usize) -> (r: String)
    requires
        row < usize::MAX,
    ensures
        r@ == square_name(column as nat, row as nat),
{
    let mut name = String::new();
    push_column_letters(&mut name, column);
    push_decimal(&mut name, row + 1);
    assert(name@ =~= square_name(column as nat, row as nat));
    name
}

pub open spec fn is_lower(c: char) -> bool {
    'a' <= c && c <= 'z'
}

pub open spec fn is_digit(c: char) -> bool {
    '0' <= c && c <= '9'
}

/// The value of a column name, counting `a` as 1.
pub open spec fn letters_value(s: Seq<char>) -> int
    decreases s.len(),
{
    if s.len() == 0 {
        0
    } else {
        letters_value(s.drop_last()) * 26 + (s.last() as int - 96)
    }
}

pub open spec fn digits_value(s: Seq<char>) -> int
    decreases s.len(),
{
    if s.len() == 0 {
        0
    } else {
        digits_value(s.drop_last()) * 10 + (s.last() as int - 48)
    }
}

/// `s` is `k` lower-case letters followed by at least one decimal digit.
pub open spec fn name_split(s: Seq<char>, k: int) -> bool {
    &&& 1 <= k < s.len()
    &&& forall|i: int| 0 <= i < k ==> is_lower(#[trigger] s[i])
    &&& forall|i: int| k <= i < s.len() ==> is_digit(#[trigger] s[i])
}

/// The column and row (from 0) named by a square name such as `ab1`:
/// lower-case letters, then decimal digits. Refused: any other character,
/// a letter after a digit, no letters or no digits, row 0, and values
/// that do not fit a `usize`.
pub fn get_column_and_row_from_square_name(name: &str) -> (r: Result<(usize, usize), &'static str>)
    ensures
        match r {
            Ok((c, w)) => exists|k: int| #[trigger] name_split(name@, k)
                && letters_value(name@.take(k)) == c + 1 && digits_value(name@.skip(k)) == w + 1,
            Err(_) => forall|k: int| #[trigger] name_split(name@, k) ==> !(letters_value(name@.take(k)) <= usize::MAX
                && 1 <= digits_value(name@.skip(k)) <= usize::MAX),
        },
{
    let n = name.unicode_len();
    let mut k: usize = 0;
    while k < n && ('a' <= name.get_char(k) && name.get_char(k) <= 'z')
        invariant
            n == name@.len(),
            k <= n,
            forall|i: int| 0 <= i < k ==> is_lower(#[trigger] name@[i]),
        decreases n - k,
    {
        k = k + 1;
    }
    let mut j: usize = k;
    while j < n && ('0' <= name.get_char(j) && name.get_char(j) <= '9')
        invariant
            n == name@.len(),
            k <= j <= n,
            forall|i: int| k <= i < j ==> is_digit(#[trigger] name@[i]),
        decreases n - j,
    {
        j = j + 1;
    }
    if k == 0 || k == n || j < n {
        assert forall|kk: int| #[trigger] name_split(name@, kk) implies false by {
            if kk < k {
                assert(is_digit(name@[kk]));
            } else if kk > k {
                assert(is_lower(name@[k as int]));
            } else {
                assert(is_digit(name@[j as int]));
            }
        }
        return Err("Invalid input");
    }
    assert(name_split(name@, k as int));
    assert forall|kk: int| #[trigger] name_split(name@, kk) implies kk == k by {
        if kk < k {
            assert(is_digit(name@[kk]));
        } else if kk > k {
            assert(is_lower(name@[k as int]));
        }
    }
    let mut column: usize = 0;
    let mut too_big = false;
    let mut i: usize = 0;
    while i < k
        invariant
            n == name@.len(),
            k < n,
            i <= k,
            forall|x: int| 0 <= x < k ==> is_lower(#[trigger] name@[x]),
            too_big ==> letters_value(name@.take(i as int)) > usize::MAX,
            !too_big ==> column == letters_value(name@.take(i as int)),
            letters_value(name@.take(i as int)) >= 0,
            i > 0 ==> letters_value(name@.take(i as int)) >= 1,
        decreases k - i,
    {
        assert(name@.take(i + 1).drop_last() == name@.take(i as int));
        let c = name.get_char(i);
        assert(is_lower(name@[i as int]));
        assert(letters_value(name@.take(i + 1)) == letters_value(name@.take(i as int)) * 26 + (name@[i as int] as int - 96));
        let d = (c as u32 - 96) as usize;
        if !too_big {
            match column.checked_mul(26) {
                Some(v) => match v.checked_add(d) {
                    Some(w) => column = w,
                    None => too_big = true,
                },
                None => too_big = true,
            }
        }
        i = i + 1;
    }
    assert(name@.take(k as int) == name@.take(i as int));
    let mut row: usize = 0;
    let mut row_too_big = false;
    let mut i: usize = k;
    while i < n
        invariant
            n == name@.len(),
            k <= i <= n,
            forall|x: int| k <= x < n ==> is_digit(#[trigger] name@[x]),
            row_too_big ==> digits_value(name@.subrange(k as int, i as int)) > usize::MAX,
            !row_too_big ==> row == digits_value(name@.subrange(k as int, i as int)),
            digits_value(name@.subrange(k as int, i as int)) >= 0,
        decreases n - i,
    {
        assert(name@.subrange(k as int, i + 1).drop_last() == name@.subrange(k as int, i as int));
        let c = name.get_char(i);
        assert(is_digit(name@[i as int]));
        assert(digits_value(name@.subrange(k as int, i + 1)) == digits_value(name@.subrange(k as int, i as int)) * 10 + (name@[i as int] as int - 48));
        let d = (c as u32 - 48) as usize;
        if !row_too_big {
            match row.checked_mul(10) {
                Some(v) => match v.checked_add(d) {
                    Some(w) => row = w,
                    None => row_too_big = true,
                },
                None => row_too_big = true,
            }
        }
        i = i + 1;
    }
    assert(name@.subrange(k as int, n as int) == name@.skip(k as int));
    if too_big || row_too_big || column == 0 || row == 0 {
        return Err("Invalid input");
    }
    Ok((column - 1, row - 1))
}

/// One square of a board: where it lies, its display colour, and the piece
/// on it if any.
pub struct Square<P> {
    column: usize,
    row: usize,
    color: SquareColor,
    piece: Option<P>,
}

/// The display colour of a square: White where column plus row is odd.
pub open spec fn square_color(column: int, row: int) -> SquareColor {
    if (column + row) % 2 == 1 { SquareColor::White } else { SquareColor::Black }
}

impl<P> Square<P> {
    pub closed spec fn column_spec(&self) -> nat {
        self.column as nat
    }

    pub closed spec fn row_spec(&self) -> nat {
        self.row as nat
    }

    pub closed spec fn color_spec(&self) -> SquareColor {
        self.color
    }

    pub closed spec fn piece_spec(&self) -> Option<P> {
        self.piece
    }

    /// An empty square at `column` and `row`, coloured by their parity.
    pub fn build(column: usize, row: usize) -> (r: Self)
        ensures
            r.column_spec() == column,
            r.row_spec() == row,
            r.color_spec() == square_color(column as int, row as int),
            r.piece_spec().is_none(),
    {
        let color = if (column % 2 + row % 2) % 2 == 1 {
            SquareColor::White
        } else {
            SquareColor::Black
        };
        Square { color, piece: None, column, row }
    }

    /// Puts a piece on the square, replacing any other.
    pub fn place_piece(&mut self, piece: P)
        ensures
            final(self).piece_spec() == Some(piece),
            final(self).column_spec() == old(self).column_spec(),
            final(self).row_spec() == old(self).row_spec(),
            final(self).color_spec() == old(self).color_spec(),
    {
        self.piece = Some(piece);
    }

    /// The piece on the square, if any.
    pub fn get_piece(&self) -> (r: Option<&P>)
        ensures
            match r {
                Some(p) => self.piece_spec() == Some(*p),
                None => self.piece_spec().is_none(),
            },
    {
        self.piece.as_ref()
    }

    /// Takes the piece off the square and hands it back.
    pub fn clear_piece(&mut self) -> (r: Option<P>)
        ensures
            r == old(self).piece_spec(),
            final(self).piece_spec().is_none(),
            final(self).column_spec() == old(self).column_spec(),
            final(self).row_spec() == old(self).row_spec(),
            final(self).color_spec() == old(self).color_spec(),
    {
        self.piece.take()
    }

    pub fn get_column(&self) -> (r: usize)
        ensures
            r == self.column_spec(),
    {
        self.column
    }

    pub fn get_row(&self) -> (r: usize)
        ensures
            r == self.row_spec(),
    {
        self.row
    }

    pub fn get_color(&self) -> (r: SquareColor)
        ensures
            r == self.color_spec(),
    {
        self.color
    }

    /// The square's name, such as `a1`.
    pub fn get_name(&self) -> (r: String)
        requires
            self.row_spec() < usize::MAX,
        ensures
            r@ == square_name(self.column_spec(), self.row_spec()),
    {
        get_square_name_from_row_and_col(self.column, self.row)
    }
}

} // verus!
