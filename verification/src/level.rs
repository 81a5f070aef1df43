//! Levels as text: the decoder that turns a map into spawn directives.
//!
//! A map is a sequence of lines, and a line a sequence of tokens with blanks
//! between them. The token at place `x` of line `y` says what stands on the
//! cell in column `x` of row `y`. Blank lines before the first row and after
//! the last one are passed over; every row has as many tokens as the first.

use vstd::prelude::*;
use vstd::string::StringSliceAdditionalSpecFns;
use crate::components::EntityKind;
use crate::grid::Position;

verus! {

/// One directive of a level: what to place, and on which cell.
#[derive(Clone, Copy, Debug, PartialEq, Eq, Structural)]
pub struct Spawn {
    pub position: Position,
    pub kind: EntityKind,
}

/// Why a text is not a level.
#[derive(Clone, Copy, Debug, PartialEq, Eq, Structural)]
pub enum MalformedLevel {
    /// The token at this place is none of `W . N P RB BS BB`.
    UnknownToken { row: usize, column: usize },
    /// This row has more or fewer tokens than the first row.
    RaggedRow { row: usize },
    /// The level has this many players, and not one.
    PlayerCount { found: usize },
    /// The level has more directives than a world can hold entities.
    TooLarge,
}

/// What a token stands for.
#[derive(Clone, Copy, Debug, PartialEq, Eq, Structural)]
pub enum Token {
    /// `W`: a wall.
    Wall,
    /// `.`: open floor.
    Floor,
    /// `N`: a cell that is no part of the grid.
    Nothing,
    /// `P`: the player, on open floor.
    Player,
    /// `RB`: a box.
    Box,
    /// `BS`: a spot.
    BoxSpot,
    /// `BB`: a box that stands on a spot.
    BoxOnSpot,
}

/// The line feed, which ends a line.
pub const LINE_FEED: u8 = 10;

/// The space, one of the blanks between words.
pub const SPACE: u8 = 32;

/// The tab, one of the blanks between words.
pub const TAB: u8 = 9;

/// The form feed, one of the blanks between words.
pub const FORM_FEED: u8 = 12;

/// The carriage return, one of the blanks between words.
pub const CARRIAGE_RETURN: u8 = 13;

/// The letter `W`.
pub const LETTER_W: u8 = 87;

/// The letter `N`.
pub const LETTER_N: u8 = 78;

/// The letter `P`.
pub const LETTER_P: u8 = 80;

/// The letter `R`.
pub const LETTER_R: u8 = 82;

/// The letter `B`.
pub const LETTER_B: u8 = 66;

/// The letter `S`.
pub const LETTER_S: u8 = 83;

/// The full stop.
pub const FULL_STOP: u8 = 46;

/// Whether a byte ends a piece of text: a line feed ends a line; a space, a
/// tab, a form feed or a carriage return ends a word.
pub open spec fn separates(byte: u8, by_line: bool) -> bool {
    if by_line {
        byte == LINE_FEED
    } else {
        byte == SPACE || byte == TAB || byte == FORM_FEED || byte == CARRIAGE_RETURN
    }
}

/// The pieces into which the separators cut a text, empty pieces included:
/// one piece more than there are separators.
pub open spec fn pieces(text: Seq<u8>, by_line: bool) -> Seq<Seq<u8>>
    decreases text.len(),
{
    if text.len() == 0 {
        seq![Seq::empty()]
    } else {
        let before = pieces(text.drop_last(), by_line);
        if separates(text.last(), by_line) {
            before.push(Seq::empty())
        } else {
            before.drop_last().push(before.last().push(text.last()))
        }
    }
}

/// The given pieces without the empty ones.
pub open spec fn kept(parts: Seq<Seq<u8>>) -> Seq<Seq<u8>> {
    parts.filter(|piece: Seq<u8>| piece.len() > 0)
}

/// What each of the given words stands for; `None` for one that is no token.
pub open spec fn meanings(words: Seq<Seq<u8>>) -> Seq<Option<Token>> {
    Seq::new(words.len(), |i: int| token_of(words[i]))
}

/// The tokens of a line: its pieces between blanks that are not empty, each as
/// what it stands for.
pub open spec fn line_tokens(line: Seq<u8>) -> Seq<Option<Token>> {
    meanings(kept(pieces(line, false)))
}

/// The lines of a text, each as its tokens.
pub open spec fn lines(text: Seq<u8>) -> Seq<Seq<Option<Token>>> {
    Seq::new(pieces(text, true).len(), |i: int| line_tokens(pieces(text, true)[i]))
}

/// The given lines without the blank ones at their start.
pub open spec fn without_blank_head(rows: Seq<Seq<Option<Token>>>) -> Seq<Seq<Option<Token>>>
    decreases rows.len(),
{
    if rows.len() > 0 && rows.first().len() == 0 {
        without_blank_head(rows.drop_first())
    } else {
        rows
    }
}

/// The given lines without the blank ones at their end.
pub open spec fn without_blank_tail(rows: Seq<Seq<Option<Token>>>) -> Seq<Seq<Option<Token>>>
    decreases rows.len(),
{
    if rows.len() > 0 && rows.last().len() == 0 {
        without_blank_tail(rows.drop_last())
    } else {
        rows
    }
}

/// The rows of a level: the lines of its text from the first that is not blank
/// to the last that is not blank.
pub open spec fn level_rows(text: Seq<u8>) -> Seq<Seq<Option<Token>>> {
    without_blank_tail(without_blank_head(lines(text)))
}

/// What a word stands for, if it is a token.
pub open spec fn token_of(word: Seq<u8>) -> Option<Token> {
    if word == seq![LETTER_W] {
        Some(Token::Wall)
    } else if word == seq![FULL_STOP] {
        Some(Token::Floor)
    } else if word == seq![LETTER_N] {
        Some(Token::Nothing)
    } else if word == seq![LETTER_P] {
        Some(Token::Player)
    } else if word == seq![LETTER_R, LETTER_B] {
        Some(Token::Box)
    } else if word == seq![LETTER_B, LETTER_S] {
        Some(Token::BoxSpot)
    } else if word == seq![LETTER_B, LETTER_B] {
        Some(Token::BoxOnSpot)
    } else {
        None
    }
}

/// The directives that a token on a cell gives, in order.
pub open spec fn token_spawns(token: Token, at: Position) -> Seq<Spawn> {
    match token {
        Token::Wall => seq![Spawn { position: at, kind: EntityKind::Wall }],
        Token::Floor => seq![Spawn { position: at, kind: EntityKind::Floor }],
        Token::Nothing => Seq::empty(),
        Token::Player => seq![
            Spawn { position: at, kind: EntityKind::Floor },
            Spawn { position: at, kind: EntityKind::Player },
        ],
        Token::Box => seq![Spawn { position: at, kind: EntityKind::Box }],
        Token::BoxSpot => seq![Spawn { position: at, kind: EntityKind::BoxSpot }],
        Token::BoxOnSpot => seq![
            Spawn { position: at, kind: EntityKind::Box },
            Spawn { position: at, kind: EntityKind::BoxSpot },
        ],
    }
}

/// The directives of the first `upto` tokens of row `y`, or the first token
/// among them that is unknown.
pub open spec fn row_spawns(row: Seq<Option<Token>>, y: int, upto: int) -> Result<
    Seq<Spawn>,
    MalformedLevel,
>
    decreases upto,
{
    if upto <= 0 {
        Ok(Seq::empty())
    } else {
        match row_spawns(row, y, upto - 1) {
            Err(error) => Err(error),
            Ok(before) => match row[upto - 1] {
                None => Err(
                    MalformedLevel::UnknownToken { row: y as usize, column: (upto - 1) as usize },
                ),
                Some(token) => Ok(
                    before + token_spawns(
                        token,
                        Position { x: (upto - 1) as usize, y: y as usize },
                    ),
                ),
            },
        }
    }
}

/// The directives of the first `upto` rows, or what is wrong with the first
/// row among them that is wrong: an unknown token, or else its length.
pub open spec fn grid_spawns(rows: Seq<Seq<Option<Token>>>, upto: int) -> Result<
    Seq<Spawn>,
    MalformedLevel,
>
    decreases upto,
{
    if upto <= 0 {
        Ok(Seq::empty())
    } else {
        match grid_spawns(rows, upto - 1) {
            Err(error) => Err(error),
            Ok(before) => match row_spawns(rows[upto - 1], upto - 1, rows[upto - 1].len() as int) {
                Err(error) => Err(error),
                Ok(row) => if rows[upto - 1].len() != rows[0].len() {
                    Err(MalformedLevel::RaggedRow { row: (upto - 1) as usize })
                } else {
                    Ok(before + row)
                },
            },
        }
    }
}

/// What a text decodes to: its directives row by row and, within a row, token
/// by token; or the first thing that is wrong with it.
pub open spec fn decoded(text: Seq<u8>) -> Result<Seq<Spawn>, MalformedLevel> {
    grid_spawns(level_rows(text), level_rows(text).len() as int)
}

/// Whether a result says what the text decodes to.
pub open spec fn decodes_to(text: Seq<u8>, result: Result<Vec<Spawn>, MalformedLevel>) -> bool {
    match result {
        Ok(spawns) => decoded(text) == Ok::<Seq<Spawn>, MalformedLevel>(spawns@),
        Err(error) => decoded(text) == Err::<Seq<Spawn>, MalformedLevel>(error),
    }
}

/// Whether something of this kind keeps others off its cell.
pub open spec fn occupies(kind: EntityKind) -> bool {
    kind == EntityKind::Wall || kind == EntityKind::Player || kind == EntityKind::Box
}

/// Whether no cell is given two occupants.
pub open spec fn placeable(spawns: Seq<Spawn>) -> bool {
    forall|i: int, j: int|
        0 <= i < j < spawns.len() && occupies(#[trigger] spawns[i].kind) && occupies(
            #[trigger] spawns[j].kind,
        ) ==> spawns[i].position != spawns[j].position
}

/// Whether the first cell comes no later than the second in reading order:
/// row by row and, within a row, column by column.
pub open spec fn no_later(first: Position, second: Position) -> bool {
    first.y < second.y || (first.y == second.y && first.x <= second.x)
}

/// Whether the directives name their cells in reading order.
pub open spec fn in_reading_order(spawns: Seq<Spawn>) -> bool {
    forall|i: int, j: int|
        #![trigger spawns[i], spawns[j]]
        0 <= i < j < spawns.len() ==> no_later(spawns[i].position, spawns[j].position)
}

/// What a list of byte strings holds.
pub open spec fn texts(list: Seq<Vec<u8>>) -> Seq<Seq<u8>> {
    Seq::new(list.len(), |i: int| list[i]@)
}

/// What a list of rows holds.
pub open spec fn tables(list: Seq<Vec<Option<Token>>>) -> Seq<Seq<Option<Token>>> {
    Seq::new(list.len(), |i: int| list[i]@)
}

/// Cuts a text at its separators.
fn split(text: &[u8], by_line: bool) -> (parts: Vec<Vec<u8>>)
    ensures
        texts(parts@) == pieces(text@, by_line),
{
    let mut parts: Vec<Vec<u8>> = Vec::new();
    let mut current: Vec<u8> = Vec::new();
    let mut i: usize = 0;
    while i < text.len()
        invariant
            0 <= i <= text.len(),
            pieces(text@.take(i as int), by_line) == texts(parts@).push(current@),
        decreases text.len() - i,
    {
        let byte = text[i];
        assert(text@.take(i + 1).drop_last() =~= text@.take(i as int));
        let separator = if by_line {
            byte == LINE_FEED
        } else {
            byte == SPACE || byte == TAB || byte == FORM_FEED || byte == CARRIAGE_RETURN
        };
        if separator {
            parts.push(current);
            current = Vec::new();
        } else {
            current.push(byte);
        }
        i += 1;
    }
    assert(text@.take(text.len() as int) =~= text@);
    parts.push(current);
    parts
}

/// What a word stands for, if it is a token.
fn classify(word: &Vec<u8>) -> (token: Option<Token>)
    ensures
        token == token_of(word@),
{
    if word.len() == 1 {
        let byte = word[0];
        assert(word@ =~= seq![byte]);
        if byte == LETTER_W {
            Some(Token::Wall)
        } else if byte == FULL_STOP {
            Some(Token::Floor)
        } else if byte == LETTER_N {
            Some(Token::Nothing)
        } else if byte == LETTER_P {
            Some(Token::Player)
        } else {
            None
        }
    } else if word.len() == 2 {
        let first = word[0];
        let second = word[1];
        assert(word@ =~= seq![first, second]);
        if first == LETTER_R && second == LETTER_B {
            Some(Token::Box)
        } else if first == LETTER_B && second == LETTER_S {
            Some(Token::BoxSpot)
        } else if first == LETTER_B && second == LETTER_B {
            Some(Token::BoxOnSpot)
        } else {
            None
        }
    } else {
        None
    }
}

/// The tokens of a line, each as what it stands for.
fn read_line(line: &Vec<u8>) -> (row: Vec<Option<Token>>)
    ensures
        row@ == line_tokens(line@),
{
    let parts = split(line.as_slice(), false);
    let mut row: Vec<Option<Token>> = Vec::new();
    let mut i: usize = 0;
    proof {
        reveal(Seq::filter);
    }
    while i < parts.len()
        invariant
            0 <= i <= parts.len(),
            row@ == meanings(kept(texts(parts@).take(i as int))),
        decreases parts.len() - i,
    {
        proof {
            reveal(Seq::filter);
            assert(texts(parts@).take(i + 1).drop_last() =~= texts(parts@).take(i as int));
        }
        if parts[i].len() > 0 {
            let token = classify(&parts[i]);
            row.push(token);
        }
        i += 1;
    }
    assert(texts(parts@).take(parts.len() as int) =~= texts(parts@));
    row
}

/// The lines of a text, each as its tokens.
fn read_lines(text: &[u8]) -> (rows: Vec<Vec<Option<Token>>>)
    ensures
        tables(rows@) == lines(text@),
{
    let parts = split(text, true);
    let mut rows: Vec<Vec<Option<Token>>> = Vec::new();
    let mut i: usize = 0;
    while i < parts.len()
        invariant
            0 <= i <= parts.len(),
            texts(parts@) == pieces(text@, true),
            rows.len() == i,
            forall|k: int| 0 <= k < i ==> (#[trigger] rows[k])@ == line_tokens(parts[k]@),
        decreases parts.len() - i,
    {
        let row = read_line(&parts[i]);
        rows.push(row);
        i += 1;
    }
    assert(tables(rows@) =~= lines(text@));
    rows
}

/// Where the rows of a level start: the place of the first line that is not
/// blank.
fn first_row(rows: &Vec<Vec<Option<Token>>>) -> (lo: usize)
    ensures
        lo <= rows.len(),
        without_blank_head(tables(rows@)) == tables(rows@).subrange(lo as int, rows.len() as int),
{
    let mut lo: usize = 0;
    assert(tables(rows@).subrange(0, rows.len() as int) =~= tables(rows@));
    while lo < rows.len() && rows[lo].len() == 0
        invariant
            lo <= rows.len(),
            without_blank_head(tables(rows@)) == without_blank_head(
                tables(rows@).subrange(lo as int, rows.len() as int),
            ),
        decreases rows.len() - lo,
    {
        assert(tables(rows@).subrange(lo as int, rows.len() as int).drop_first() =~= tables(
            rows@,
        ).subrange(lo + 1, rows.len() as int));
        lo += 1;
    }
    lo
}

/// Where the rows of a level end: the place after the last line that is not
/// blank.
fn last_row(rows: &Vec<Vec<Option<Token>>>, lo: usize) -> (hi: usize)
    requires
        lo <= rows.len(),
    ensures
        lo <= hi <= rows.len(),
        without_blank_tail(tables(rows@).subrange(lo as int, rows.len() as int)) == tables(
            rows@,
        ).subrange(lo as int, hi as int),
{
    let mut hi: usize = rows.len();
    while lo < hi && rows[hi - 1].len() == 0
        invariant
            lo <= hi <= rows.len(),
            without_blank_tail(tables(rows@).subrange(lo as int, rows.len() as int))
                == without_blank_tail(tables(rows@).subrange(lo as int, hi as int)),
        decreases hi - lo,
    {
        assert(tables(rows@).subrange(lo as int, hi as int).drop_last() =~= tables(rows@).subrange(
            lo as int,
            hi - 1,
        ));
        hi -= 1;
    }
    hi
}

/// Whether a cell comes before place `x` of row `y` in reading order.
pub open spec fn precedes(cell: Position, x: int, y: int) -> bool {
    cell.y < y || (cell.y == y && cell.x < x)
}

/// An error in the first rows of a level is the error of the whole level.
proof fn grid_error_stays(rows: Seq<Seq<Option<Token>>>, upto: int, later: int)
    requires
        upto <= later,
        grid_spawns(rows, upto) is Err,
    ensures
        grid_spawns(rows, later) == grid_spawns(rows, upto),
    decreases later - upto,
{
    if upto < later {
        grid_error_stays(rows, upto, later - 1);
    }
}

/// An error in the first tokens of a row is the error of the whole row.
proof fn row_error_stays(row: Seq<Option<Token>>, y: int, upto: int, later: int)
    requires
        upto <= later,
        row_spawns(row, y, upto) is Err,
    ensures
        row_spawns(row, y, later) == row_spawns(row, y, upto),
    decreases later - upto,
{
    if upto < later {
        row_error_stays(row, y, upto, later - 1);
    }
}

/// Appends the directives that a token on a cell gives.
fn push_spawns(spawns: &mut Vec<Spawn>, token: Token, at: Position)
    ensures
        final(spawns)@ == old(spawns)@ + token_spawns(token, at),
{
    match token {
        Token::Wall => {
            spawns.push(Spawn { position: at, kind: EntityKind::Wall });
        },
        Token::Floor => {
            spawns.push(Spawn { position: at, kind: EntityKind::Floor });
        },
        Token::Nothing => {},
        Token::Player => {
            spawns.push(Spawn { position: at, kind: EntityKind::Floor });
            spawns.push(Spawn { position: at, kind: EntityKind::Player });
        },
        Token::Box => {
            spawns.push(Spawn { position: at, kind: EntityKind::Box });
        },
        Token::BoxSpot => {
            spawns.push(Spawn { position: at, kind: EntityKind::BoxSpot });
        },
        Token::BoxOnSpot => {
            spawns.push(Spawn { position: at, kind: EntityKind::Box });
            spawns.push(Spawn { position: at, kind: EntityKind::BoxSpot });
        },
    }
}

/// Decodes the text of a level into its spawn directives, in reading order.
///
/// The result depends on the text alone. A text with an unknown token, or with
/// a row that is longer or shorter than the first, is refused with the first
/// such fault in reading order. What is decoded names its cells in reading
/// order, and gives no cell two occupants.
pub fn decode(text: &str) -> (result: Result<Vec<Spawn>, MalformedLevel>)
    ensures
        decodes_to(text.spec_bytes(), result),
        result is Ok ==> placeable(result->Ok_0@),
        result is Ok ==> in_reading_order(result->Ok_0@),
{
    let rows = read_lines(text.as_bytes());
    let lo = first_row(&rows);
    let hi = last_row(&rows, lo);
    let ghost level = tables(rows@).subrange(lo as int, hi as int);
    let mut spawns: Vec<Spawn> = Vec::new();
    let mut y: usize = 0;
    while y < hi - lo
        invariant
            lo <= hi <= rows.len(),
            level == tables(rows@).subrange(lo as int, hi as int),
            level == level_rows(text.spec_bytes()),
            0 <= y <= hi - lo,
            grid_spawns(level, y as int) == Ok::<Seq<Spawn>, MalformedLevel>(spawns@),
            placeable(spawns@),
            in_reading_order(spawns@),
            forall|k: int|
                0 <= k < spawns.len() ==> precedes(#[trigger] spawns[k].position, 0, y as int),
        decreases hi - lo - y,
    {
        let row = &rows[lo + y];
        let ghost above = spawns@;
        let ghost mut here = Seq::<Spawn>::empty();
        let mut x: usize = 0;
        while x < row.len()
            invariant
                0 <= x <= row.len(),
                0 <= y < level.len(),
                row@ == level[y as int],
                level == level_rows(text.spec_bytes()),
                grid_spawns(level, y as int) == Ok::<Seq<Spawn>, MalformedLevel>(above),
                spawns@ == above + here,
                row_spawns(level[y as int], y as int, x as int) == Ok::<Seq<Spawn>, MalformedLevel>(
                    here,
                ),
                placeable(spawns@),
                in_reading_order(spawns@),
                forall|k: int|
                    0 <= k < spawns.len() ==> precedes(
                        #[trigger] spawns[k].position,
                        x as int,
                        y as int,
                    ),
            decreases row.len() - x,
        {
            let at = Position { x, y };
            match row[x] {
                None => {
                    proof {
                        row_error_stays(level[y as int], y as int, x + 1, row.len() as int);
                        grid_error_stays(level, y + 1, level.len() as int);
                    }
                    return Err(MalformedLevel::UnknownToken { row: y, column: x });
                },
                Some(token) => {
                    push_spawns(&mut spawns, token, at);
                    proof {
                        here = here + token_spawns(token, at);
                    }
                },
            }
            x += 1;
        }
        if row.len() != rows[lo].len() {
            proof {
                grid_error_stays(level, y + 1, level.len() as int);
            }
            return Err(MalformedLevel::RaggedRow { row: y });
        }
        y += 1;
    }
    Ok(spawns)
}

} // verus!
