//! The text in which a move travels between the peers.
//!
//! A move is one line that holds the row and then the column, as two decimal
//! numbers with whitespace between them. A number is a run of decimal
//! digits, with or without a `+` before it.

use vstd::prelude::*;

verus! {

/// Whether `c` is whitespace, which parts the numbers of a line.
pub open spec fn is_space(c: char) -> bool {
    let n = c as u32;
    ||| 0x09 <= n <= 0x0d
    ||| n == 0x20
    ||| n == 0x85
    ||| n == 0xa0
    ||| n == 0x1680
    ||| 0x2000 <= n <= 0x200a
    ||| n == 0x2028
    ||| n == 0x2029
    ||| n == 0x202f
    ||| n == 0x205f
    ||| n == 0x3000
}

/// Whether `c` is one of the ten decimal digits.
pub open spec fn is_digit(c: char) -> bool {
    0x30 <= c as u32 <= 0x39
}

/// The number that the digit `c` stands for.
pub open spec fn digit_value(c: char) -> nat {
    (c as u32 - 0x30) as nat
}

/// Whether `d` holds decimal digits only.
pub open spec fn all_digits(d: Seq<char>) -> bool {
    forall|i: int| 0 <= i < d.len() ==> is_digit(#[trigger] d[i])
}

/// The number that the digits `d` write, the first digit counting most.
pub open spec fn digits_value(d: Seq<char>) -> nat
    decreases d.len(),
{
    if d.len() == 0 {
        0
    } else {
        digits_value(d.drop_last()) * 10 + digit_value(d.last())
    }
}

/// The token `t` without the `+` that may stand before its digits.
pub open spec fn unsigned_part(t: Seq<char>) -> Seq<char> {
    if t.len() > 0 && t[0] == '+' {
        t.subrange(1, t.len() as int)
    } else {
        t
    }
}

/// The number that the token `t` writes: `t` is one or more digits, with or
/// without a `+` before them, and their number is no greater than
/// `usize::MAX`. Any other token writes no number.
pub open spec fn number(t: Seq<char>) -> Option<usize> {
    let d = unsigned_part(t);
    if d.len() > 0 && all_digits(d) && digits_value(d) <= usize::MAX {
        Some(digits_value(d) as usize)
    } else {
        None
    }
}

/// The tokens of `s`: its longest runs of characters that are no
/// whitespace, from left to right.
pub open spec fn tokens(s: Seq<char>) -> Seq<Seq<char>>
    decreases s.len(),
{
    if s.len() == 0 {
        Seq::empty()
    } else {
        let before = tokens(s.drop_last());
        if is_space(s.last()) {
            before
        } else if s.len() >= 2 && !is_space(s[s.len() - 2]) {
            before.update(before.len() - 1, before.last().push(s.last()))
        } else {
            before.push(seq![s.last()])
        }
    }
}

/// The two numbers that the line `s` holds, the row's first: `s` holds two
/// tokens and no more, and each of them writes a number. Any other line
/// holds none. Whether the numbers name a cell of the board is for
/// [`parse_move`] to say.
pub open spec fn coordinates(s: Seq<char>) -> Option<(usize, usize)> {
    let t = tokens(s);
    if t.len() == 2 && number(t[0]) is Some && number(t[1]) is Some {
        Some((number(t[0])->0, number(t[1])->0))
    } else {
        None
    }
}

/// The character that writes `n`, for the three numbers that name a row or
/// a column.
pub open spec fn digit_glyph(n: int) -> char {
    if n == 0 {
        '0'
    } else if n == 1 {
        '1'
    } else {
        '2'
    }
}

/// The line that carries a move to the peer: the row, a space, the column
/// and the end of the line.
pub open spec fn wire_text(row: int, col: int) -> Seq<char> {
    seq![digit_glyph(row), ' ', digit_glyph(col), '\n']
}

/// A cell of the board, named by its row and its column.
#[derive(Clone, Copy, Debug, PartialEq, Eq, Structural)]
pub struct Move {
    pub row: usize,
    pub col: usize,
}

/// Why a line is no move.
#[derive(Clone, Copy, Debug, PartialEq, Eq, Structural)]
pub enum MoveError {
    /// The line does not hold two numbers.
    Malformed,
    /// A number of the line is greater than two.
    OutOfRange,
}

/// The move that the line `s` writes, or why it writes none.
pub open spec fn parse_move(s: Seq<char>) -> Result<Move, MoveError> {
    match coordinates(s) {
        None => Err(MoveError::Malformed),
        Some((row, col)) => if row < 3 && col < 3 {
            Ok(Move { row, col })
        } else {
            Err(MoveError::OutOfRange)
        },
    }
}

/// Every token holds a character and no whitespace, and a text that ends
/// inside a token has one.
pub proof fn lemma_tokens_hold_characters(s: Seq<char>)
    ensures
        forall|k: int| 0 <= k < tokens(s).len() ==> (#[trigger] tokens(s)[k]).len() > 0,
        forall|k: int, i: int|
            0 <= k < tokens(s).len() && 0 <= i < tokens(s)[k].len() ==> !is_space(
                #[trigger] tokens(s)[k][i],
            ),
        s.len() > 0 && !is_space(s.last()) ==> tokens(s).len() > 0,
    decreases s.len(),
{
    if s.len() > 0 {
        let before = tokens(s.drop_last());
        lemma_tokens_hold_characters(s.drop_last());
        if !is_space(s.last()) && s.len() >= 2 && !is_space(s[s.len() - 2]) {
            assert(s.drop_last().last() == s[s.len() - 2]);
            assert(before.len() > 0);
        }
        assert forall|k: int| 0 <= k < tokens(s).len() implies (#[trigger] tokens(s)[k]).len()
            > 0 by {
            if k < before.len() {
                assert(before[k].len() > 0);
            }
        }
        assert forall|k: int, i: int|
            0 <= k < tokens(s).len() && 0 <= i < tokens(s)[k].len() implies !is_space(
            #[trigger] tokens(s)[k][i],
        ) by {
            if k < before.len() && i < before[k].len() {
                assert(!is_space(before[k][i]));
            }
        }
    }
}

/// What one more character does to the tokens of a text: whitespace leaves
/// them, a character after whitespace begins a token, and any other
/// character lengthens the last token.
pub proof fn lemma_tokens_grow(s: Seq<char>, c: char)
    ensures
        is_space(c) ==> tokens(s.push(c)) == tokens(s),
        !is_space(c) && (s.len() == 0 || is_space(s.last())) ==> tokens(s.push(c)) == tokens(
            s,
        ).push(seq![c]),
        !is_space(c) && s.len() > 0 && !is_space(s.last()) ==> tokens(s).len() > 0 && tokens(
            s.push(c),
        ) == tokens(s).update(tokens(s).len() - 1, tokens(s).last().push(c)),
{
    assert(s.push(c).drop_last() =~= s);
    lemma_tokens_hold_characters(s);
}

/// The number that a lengthened run of digits writes.
proof fn lemma_digits_grow(d: Seq<char>, c: char)
    ensures
        digits_value(d.push(c)) == digits_value(d) * 10 + digit_value(c),
        all_digits(d.push(c)) == (all_digits(d) && is_digit(c)),
{
    assert(d.push(c).drop_last() =~= d);
    if all_digits(d) && is_digit(c) {
        assert forall|i: int| 0 <= i < d.push(c).len() implies is_digit(#[trigger] d.push(c)[i]) by {
            if i < d.len() {
                assert(d.push(c)[i] == d[i]);
            }
        }
    }
    if all_digits(d.push(c)) {
        assert(is_digit(d.push(c)[d.len() as int]));
        assert forall|i: int| 0 <= i < d.len() implies is_digit(#[trigger] d[i]) by {
            assert(d.push(c)[i] == d[i]);
        }
    }
}

/// What has been read of one token.
#[derive(Clone, Copy)]
struct Numeral {
    /// Whether the token can still write a number.
    alive: bool,
    /// Whether a digit has been read.
    digits: bool,
    /// The number that the digits read so far write.
    value: usize,
}

impl Numeral {
    /// Whether `self` is what reading the token `t` leaves.
    spec fn reads(&self, t: Seq<char>) -> bool {
        let d = unsigned_part(t);
        &&& self.alive == (all_digits(d) && digits_value(d) <= usize::MAX)
        &&& self.alive ==> self.value == digits_value(d) && self.digits == (d.len() > 0)
    }

    /// Whether `self` is the state of a token that has not begun: no digit
    /// has been read and no number is written.
    spec fn unread(&self) -> bool {
        !self.alive && !self.digits && self.value == 0
    }

    /// The state before a token has begun.
    fn idle() -> (numeral: Numeral)
        ensures
            numeral.unread(),
    {
        Numeral { alive: false, digits: false, value: 0 }
    }

    /// Reads the first character of a token.
    fn begin(c: char) -> (numeral: Numeral)
        ensures
            numeral.reads(seq![c]),
    {
        proof {
            assert(unsigned_part(seq![c]) =~= if c == '+' {
                Seq::<char>::empty()
            } else {
                seq![c]
            });
            lemma_digits_grow(Seq::empty(), c);
            assert(Seq::<char>::empty().push(c) =~= seq![c]);
        }
        if c == '+' {
            Numeral { alive: true, digits: false, value: 0 }
        } else if digit(c) {
            Numeral { alive: true, digits: true, value: value_of(c) }
        } else {
            Numeral { alive: false, digits: false, value: 0 }
        }
    }

    /// Reads one more character of the token `t`.
    fn extend(self, c: char, Ghost(t): Ghost<Seq<char>>) -> (numeral: Numeral)
        requires
            self.reads(t),
            t.len() > 0,
        ensures
            numeral.reads(t.push(c)),
    {
        proof {
            assert(unsigned_part(t.push(c)) =~= unsigned_part(t).push(c));
            lemma_digits_grow(unsigned_part(t), c);
        }
        if self.alive && digit(c) {
            match self.value.checked_mul(10) {
                Some(tens) => match tens.checked_add(value_of(c)) {
                    Some(value) => Numeral { alive: true, digits: true, value },
                    None => Numeral { alive: false, digits: false, value: 0 },
                },
                None => Numeral { alive: false, digits: false, value: 0 },
            }
        } else {
            Numeral { alive: false, digits: false, value: 0 }
        }
    }

    /// The number that the token `t` writes, once all of it has been read.
    fn finish(self, Ghost(t): Ghost<Seq<char>>) -> (written: Option<usize>)
        requires
            self.reads(t),
        ensures
            written == number(t),
    {
        if self.alive && self.digits {
            Some(self.value)
        } else {
            None
        }
    }
}

/// Whether `c` is whitespace.
fn space(c: char) -> (yes: bool)
    ensures
        yes == is_space(c),
{
    (c >= '\t' && c <= '\r') || c == ' ' || c == '\u{85}' || c == '\u{a0}' || c == '\u{1680}' || (c
        >= '\u{2000}' && c <= '\u{200a}') || c == '\u{2028}' || c == '\u{2029}' || c == '\u{202f}'
        || c == '\u{205f}' || c == '\u{3000}'
}

/// Whether `c` is a decimal digit.
fn digit(c: char) -> (yes: bool)
    ensures
        yes == is_digit(c),
{
    c >= '0' && c <= '9'
}

/// The number that the digit `c` stands for.
fn value_of(c: char) -> (value: usize)
    requires
        is_digit(c),
    ensures
        value == digit_value(c),
{
    (c as u32 - 0x30) as usize
}

/// Whether the scanner's state is what reading the text `seen` leaves: how
/// many tokens have begun, up to three; whether the text ends inside a
/// token; and what the first two tokens have shown, each of them unread
/// until it begins.
spec fn scanned(seen: Seq<char>, count: usize, inside: bool, first: Numeral, second: Numeral) -> bool {
    let t = tokens(seen);
    &&& count == if t.len() < 3 {
        t.len()
    } else {
        3
    }
    &&& inside == (seen.len() > 0 && !is_space(seen.last()))
    &&& if t.len() >= 1 {
        first.reads(t[0])
    } else {
        first.unread()
    }
    &&& if t.len() >= 2 {
        second.reads(t[1])
    } else {
        second.unread()
    }
}

/// The two numbers that a line holds, the row's first, where it holds two
/// numbers and nothing else but whitespace. They may lie off the board:
/// [`Move::parse`] reads a line as a move.
pub fn read_pair(line: &str) -> (pair: Option<(usize, usize)>)
    ensures
        pair == coordinates(line@),
{
    let mut count: usize = 0;
    let mut inside = false;
    let mut first = Numeral::idle();
    let mut second = Numeral::idle();
    assert(line@.take(0) =~= Seq::<char>::empty());
    for c in it: line.chars()
        invariant
            it.seq() == line@,
            scanned(line@.take(it.index() as int), count, inside, first, second),
    {
        let ghost seen = line@.take(it.index() as int);
        proof {
            assert(line@.take(it.index() + 1) =~= seen.push(c));
            lemma_tokens_grow(seen, c);
            lemma_tokens_hold_characters(seen);
        }
        if space(c) {
            inside = false;
        } else if inside {
            if count == 1 {
                first = first.extend(c, Ghost(tokens(seen)[0]));
            } else if count == 2 {
                second = second.extend(c, Ghost(tokens(seen)[1]));
            }
        } else {
            if count == 0 {
                first = Numeral::begin(c);
                count = 1;
            } else if count == 1 {
                second = Numeral::begin(c);
                count = 2;
            } else {
                count = 3;
            }
            inside = true;
        }
    }
    assert(line@.take(line@.len() as int) =~= line@);
    if count == 2 {
        let row = first.finish(Ghost(tokens(line@)[0]));
        let col = second.finish(Ghost(tokens(line@)[1]));
        match (row, col) {
            (Some(row), Some(col)) => Some((row, col)),
            _ => None,
        }
    } else {
        None
    }
}

/// The column and the row of the move that a line writes, in this order.
/// The line holds the row first, and both are no greater than two. A line
/// that writes no move is left out: [`Move::parse`] tells such a line.
pub fn process_net_input(input: &String) -> (at: (usize, usize))
    requires
        parse_move(input@) is Ok,
    ensures
        parse_move(input@) == Ok::<Move, MoveError>(Move { row: at.1, col: at.0 }),
{
    match Move::parse(input.as_str()) {
        Ok(mv) => (mv.col, mv.row),
        Err(_) => vstd::pervasive::unreached(),
    }
}

/// The text that writes `n`.
pub(crate) fn digit_text(n: usize) -> (text: &'static str)
    requires
        n < 3,
    ensures
        text@ == seq![digit_glyph(n as int)],
{
    proof {
        reveal_strlit("0");
        reveal_strlit("1");
        reveal_strlit("2");
    }
    let text = if n == 0 {
        "0"
    } else if n == 1 {
        "1"
    } else {
        "2"
    };
    assert(text@ =~= seq![digit_glyph(n as int)]);
    text
}

impl Move {
    /// Whether the move names a cell of the board.
    pub open spec fn valid(&self) -> bool {
        self.row < 3 && self.col < 3
    }

    /// The move that a line writes: the row, then the column, each of them
    /// no greater than two.
    pub fn parse(line: &str) -> (parsed: Result<Move, MoveError>)
        ensures
            parsed == parse_move(line@),
            parsed is Ok ==> parsed->Ok_0.valid(),
    {
        match read_pair(line) {
            None => Err(MoveError::Malformed),
            Some((row, col)) => {
                if row < 3 && col < 3 {
                    Ok(Move { row, col })
                } else {
                    Err(MoveError::OutOfRange)
                }
            },
        }
    }

    /// The line that carries the move to the peer.
    pub fn encode(&self) -> (line: String)
        requires
            self.valid(),
        ensures
            line@ == wire_text(self.row as int, self.col as int),
    {
        proof {
            reveal_strlit(" ");
            reveal_strlit("\n");
        }
        let mut line = String::new();
        line.append(digit_text(self.row));
        line.append(" ");
        line.append(digit_text(self.col));
        line.append("\n");
        assert(line@ =~= wire_text(self.row as int, self.col as int));
        line
    }
}

/// A move that is written to the wire and read back is the same move: the
/// line of every cell names that cell's row and column.
pub proof fn lemma_wire_round_trip(row: usize, col: usize)
    requires
        row < 3,
        col < 3,
    ensures
        coordinates(wire_text(row as int, col as int)) == Some((row, col)),
        parse_move(wire_text(row as int, col as int)) == Ok::<Move, MoveError>(Move { row, col }),
{
    let r = digit_glyph(row as int);
    let c = digit_glyph(col as int);
    let s = wire_text(row as int, col as int);
    let s0 = Seq::<char>::empty();
    lemma_tokens_grow(s0, r);
    lemma_tokens_grow(s0.push(r), ' ');
    lemma_tokens_grow(s0.push(r).push(' '), c);
    lemma_tokens_grow(s0.push(r).push(' ').push(c), '\n');
    assert(s =~= s0.push(r).push(' ').push(c).push('\n'));
    assert(tokens(s0) =~= Seq::<Seq<char>>::empty());
    assert(tokens(s) =~= seq![seq![r], seq![c]]);
    lemma_digit_token(row);
    lemma_digit_token(col);
}

/// The token of one digit writes that digit's number.
proof fn lemma_digit_token(n: usize)
    requires
        n < 3,
    ensures
        number(seq![digit_glyph(n as int)]) == Some(n),
{
    let c = digit_glyph(n as int);
    assert(unsigned_part(seq![c]) =~= seq![c]);
    lemma_digits_grow(Seq::empty(), c);
    assert(Seq::<char>::empty().push(c) =~= seq![c]);
}

} // verus!
