//! FEN text serialization: lossless import and export of a full
//! position.
//!
//! The text holds six space-separated fields: the eight ranks from
//! rank 8 down to rank 1, each a run of piece letters (upper case for
//! white) and empty-square counts; the side to move; the held castling
//! rights; the open en-passant target; and the two move counters.

use vstd::prelude::*;
use vstd::string::{StrSliceExecFns, StringExecFns};
use crate::board::{spec_piece_at, spec_set_piece, Board, BoardModel};
use crate::common::{Error, Result};
use crate::file::File;
use crate::game::{Game, GameModel};
use crate::piece::Piece;
use crate::side::Side;
use crate::square::Square;
use crate::state::{spec_open_files, spec_turn, st_bit, st_with_bit, State};

verus! {

broadcast use crate::square::lemma_square_bound;

// ---------------------------------------------------------------
// The printer model.
// ---------------------------------------------------------------

/// The decimal digit character of a value below ten.
pub open spec fn digit_char(d: int) -> char {
    if d == 0 {
        '0'
    } else if d == 1 {
        '1'
    } else if d == 2 {
        '2'
    } else if d == 3 {
        '3'
    } else if d == 4 {
        '4'
    } else if d == 5 {
        '5'
    } else if d == 6 {
        '6'
    } else if d == 7 {
        '7'
    } else if d == 8 {
        '8'
    } else {
        '9'
    }
}

/// The decimal digits of a number, most significant first.
pub open spec fn dec_digits(n: int) -> Seq<char>
    decreases n,
{
    if n < 0 {
        Seq::empty()
    } else if n < 10 {
        seq![digit_char(n)]
    } else {
        dec_digits(n / 10).push(digit_char(n % 10))
    }
}

/// The FEN letter of a piece: upper case for white.
pub open spec fn piece_letter(side: Side, piece: Piece) -> char {
    match side {
        Side::Black => piece.spec_char(),
        Side::White => match piece {
            Piece::Pawn => 'P',
            Piece::Knight => 'N',
            Piece::Bishop => 'B',
            Piece::Rook => 'R',
            Piece::Queen => 'Q',
            Piece::King => 'K',
        },
    }
}

/// A pending empty-square run, flushed as one digit.
pub open spec fn skip_text(skips: int) -> Seq<char> {
    if skips > 0 {
        seq![digit_char(skips)]
    } else {
        Seq::empty()
    }
}

/// The position text and pending skip count after the first `k` squares
/// in print order: rank 8 down to rank 1, files a through h.
pub open spec fn pos_acc(m: BoardModel, k: int) -> (Seq<char>, int)
    decreases k,
{
    if k <= 0 {
        (Seq::empty(), 0int)
    } else {
        let prev = pos_acc(m, k - 1);
        let rank = 7 - (k - 1) / 8;
        let file = (k - 1) % 8;
        let i = 8 * rank + file;
        let stepped: (Seq<char>, int) = match spec_piece_at(m, i as u64) {
            Some((side, piece)) => (
                prev.0 + skip_text(prev.1) + seq![piece_letter(side, piece)],
                0int,
            ),
            None => (prev.0, prev.1 + 1),
        };
        if file == 7 {
            (
                stepped.0 + skip_text(stepped.1) + if rank > 0 {
                    seq!['/']
                } else {
                    Seq::empty()
                },
                0int,
            )
        } else {
            stepped
        }
    }
}

/// The castling-rights field: 'K', 'Q', 'k' and 'q' for each held
/// right in that order, or '-' when none is held.
pub open spec fn castle_text(s: u16) -> Seq<char> {
    let t = (if st_bit(s, 9) {
        seq!['K']
    } else {
        Seq::empty()
    }) + (if st_bit(s, 8) {
        seq!['Q']
    } else {
        Seq::empty()
    }) + (if st_bit(s, 11) {
        seq!['k']
    } else {
        Seq::empty()
    }) + (if st_bit(s, 10) {
        seq!['q']
    } else {
        Seq::empty()
    });
    if t.len() == 0 {
        seq!['-']
    } else {
        t
    }
}

/// The en-passant entries of the named files, each a file letter and
/// the target rank digit.
pub open spec fn ep_chars(files: Seq<File>, rank_char: char) -> Seq<char>
    decreases files.len(),
{
    if files.len() == 0 {
        Seq::empty()
    } else {
        ep_chars(files.drop_last(), rank_char) + seq![files.last().spec_char(), rank_char]
    }
}

/// The en-passant field: the open files with the target rank of the
/// side to move, or '-' when no file is open.
pub open spec fn ep_text(s: u16) -> Seq<char> {
    let rank_char = if spec_turn(s) == Side::White {
        '6'
    } else {
        '3'
    };
    let files = spec_open_files(s, 8);
    if files.len() == 0 {
        seq!['-']
    } else {
        ep_chars(files, rank_char)
    }
}

/// The whole FEN text of a position.
pub open spec fn fen_text(g: GameModel) -> Seq<char> {
    pos_acc(g.board, 64).0 + seq![' ', spec_turn(g.state).spec_char(), ' '] + castle_text(g.state)
        + seq![' '] + ep_text(g.state) + seq![' '] + dec_digits(g.halfmove_clock as int) + seq![' ']
        + dec_digits(g.fullmove_number as int)
}

// ---------------------------------------------------------------
// The parser model.
// ---------------------------------------------------------------

/// The numeric value of a decimal digit character, or a value out of
/// range for any other character.
pub open spec fn digit_of(c: char) -> int {
    (c as u32) - 48
}

/// True for a decimal digit character.
pub open spec fn is_digit(c: char) -> bool {
    48 <= (c as u32) <= 57
}

/// True for an upper-case ASCII letter.
pub open spec fn is_upper(c: char) -> bool {
    65 <= (c as u32) <= 90
}

/// Parses the position field from offset `j`, with `rank` and `file`
/// the next square to fill and `b` the placements so far.  Exactly 64
/// squares must be covered, each rank closed by '/' and the field by a
/// space.
pub open spec fn parse_position(s: Seq<char>, j: int, rank: int, file: int, b: BoardModel) -> Result<
    (BoardModel, int),
>
    decreases s.len() - j,
{
    if j < 0 || j >= s.len() {
        Err(Error::InvalidArgument)
    } else {
        let c = s[j];
        if c == ' ' {
            if rank == 0 && file == 8 {
                Ok((b, j + 1))
            } else {
                Err(Error::InvalidArgument)
            }
        } else if c == '/' {
            if file == 8 && rank > 0 {
                parse_position(s, j + 1, rank - 1, 0, b)
            } else {
                Err(Error::InvalidArgument)
            }
        } else if is_digit(c) {
            if file + digit_of(c) <= 8 {
                parse_position(s, j + 1, rank, file + digit_of(c), b)
            } else {
                Err(Error::InvalidArgument)
            }
        } else {
            match Piece::spec_from_char(c) {
                Err(e) => Err(e),
                Ok(piece) => {
                    if file < 8 {
                        let side = if is_upper(c) {
                            Side::White
                        } else {
                            Side::Black
                        };
                        parse_position(
                            s,
                            j + 1,
                            rank,
                            file + 1,
                            spec_set_piece(b, side, piece, (8 * rank + file) as u64),
                        )
                    } else {
                        Err(Error::InvalidArgument)
                    }
                },
            }
        }
    }
}

/// Parses the castling field from offset `j`: any of the four right
/// letters or '-', closed by a space.
pub open spec fn parse_castling(s: Seq<char>, j: int, st: u16) -> Result<(u16, int)>
    decreases s.len() - j,
{
    if j < 0 || j >= s.len() {
        Err(Error::InvalidArgument)
    } else {
        let c = s[j];
        if c == ' ' {
            Ok((st, j + 1))
        } else if c == '-' {
            parse_castling(s, j + 1, st)
        } else if c == 'K' {
            parse_castling(s, j + 1, st_with_bit(st, 9, true))
        } else if c == 'Q' {
            parse_castling(s, j + 1, st_with_bit(st, 8, true))
        } else if c == 'k' {
            parse_castling(s, j + 1, st_with_bit(st, 11, true))
        } else if c == 'q' {
            parse_castling(s, j + 1, st_with_bit(st, 10, true))
        } else {
            Err(Error::InvalidArgument)
        }
    }
}

/// Parses the en-passant field from offset `j`: file letters mark open
/// files, rank digits and '-' carry no information, a space closes the
/// field.
pub open spec fn parse_ep(s: Seq<char>, j: int, st: u16) -> Result<(u16, int)>
    decreases s.len() - j,
{
    if j < 0 || j >= s.len() {
        Err(Error::InvalidArgument)
    } else {
        let c = s[j];
        if c == ' ' {
            Ok((st, j + 1))
        } else if c == '-' || is_digit(c) {
            parse_ep(s, j + 1, st)
        } else {
            match File::spec_from_char(c) {
                Err(e) => Err(e),
                Ok(file) => parse_ep(s, j + 1, st_with_bit(st, file.spec_index() as u16, true)),
            }
        }
    }
}

/// Parses a decimal number from offset `j`.  At least one digit is
/// required, the value must fit the counter width, and the number is
/// closed by a space when `need_space` holds and by the end of the
/// text otherwise.
pub open spec fn parse_number(s: Seq<char>, j: int, acc: int, got: bool, need_space: bool) -> Result<
    (u32, int),
>
    decreases s.len() - j,
{
    if j < 0 || j >= s.len() {
        if got && !need_space && j == s.len() {
            Ok((acc as u32, j))
        } else {
            Err(Error::InvalidArgument)
        }
    } else {
        let c = s[j];
        if is_digit(c) {
            let acc2 = 10 * acc + digit_of(c);
            if acc2 > 0xffff_ffff {
                Err(Error::InvalidArgument)
            } else {
                parse_number(s, j + 1, acc2, true, need_space)
            }
        } else if c == ' ' && got && need_space {
            Ok((acc as u32, j + 1))
        } else {
            Err(Error::InvalidArgument)
        }
    }
}

/// Parses a whole FEN text on top of the given placements and flags:
/// the six fields in order, single-space separated.
pub open spec fn spec_parse_fen_from(s: Seq<char>, b0: BoardModel, st0: u16) -> Result<
    (BoardModel, u16, u32, u32),
> {
    match parse_position(s, 0, 7, 0, b0) {
        Err(e) => Err(e),
        Ok((b, j1)) => {
            if j1 >= s.len() {
                Err(Error::InvalidArgument)
            } else {
                let c = s[j1];
                if c != 'w' && c != 'b' {
                    Err(Error::InvalidArgument)
                } else {
                    let side = if c == 'w' {
                        Side::White
                    } else {
                        Side::Black
                    };
                    let st1 = st_with_bit(st0, 12, side == Side::White);
                    if j1 + 1 >= s.len() || s[j1 + 1] != ' ' {
                        Err(Error::InvalidArgument)
                    } else {
                        match parse_castling(s, j1 + 2, st1) {
                            Err(e) => Err(e),
                            Ok((st2, j3)) => match parse_ep(s, j3, st2) {
                                Err(e) => Err(e),
                                Ok((st3, j4)) => match parse_number(s, j4, 0, false, true) {
                                    Err(e) => Err(e),
                                    Ok((halfmove, j5)) => match parse_number(
                                        s,
                                        j5,
                                        0,
                                        false,
                                        false,
                                    ) {
                                        Err(e) => Err(e),
                                        Ok((fullmove, _)) => Ok((b, st3, halfmove, fullmove)),
                                    },
                                },
                            },
                        }
                    }
                }
            }
        },
    }
}

// ---------------------------------------------------------------
// The executable boundary.
// ---------------------------------------------------------------

/// Relies on String::push: appends the given character to the end of
/// the string.
#[verifier::external_body]
fn push_char(s: &mut String, c: char)
    ensures
        final(s)@ == old(s)@.push(c),
{
    s.push(c)
}

/// The digit character of a value below ten.
fn digit_char_exec(d: u32) -> (r: char)
    requires
        d < 10,
    ensures
        r == digit_char(d as int),
{
    match d {
        0 => '0',
        1 => '1',
        2 => '2',
        3 => '3',
        4 => '4',
        5 => '5',
        6 => '6',
        7 => '7',
        8 => '8',
        _ => '9',
    }
}

/// Appends the decimal digits of `n`, most significant first.
fn push_digits(out: &mut Vec<char>, n: u32)
    ensures
        final(out)@ == old(out)@ + dec_digits(n as int),
    decreases n,
{
    if n >= 10 {
        push_digits(out, n / 10);
    }
    out.push(digit_char_exec(n % 10));
    proof {
        assert(out@ =~= old(out)@ + dec_digits(n as int));
    }
}

impl Game {
    /// The standard starting position in FEN text.
    pub fn fen_new_game() -> (r: &'static str)
        ensures
            r@ == "rnbqkbnr/pppppppp/8/8/8/8/PPPPPPPP/RNBQKBNR w KQkq - 0 1"@,
    {
        "rnbqkbnr/pppppppp/8/8/8/8/PPPPPPPP/RNBQKBNR w KQkq - 0 1"
    }

    /// A game built from FEN text, with the hash computed from scratch.
    pub fn new(fen: &str) -> (r: Result<Game>)
        ensures
            (r matches Ok(g) ==> (spec_parse_fen_from(fen@, crate::fen::empty_board_model(), 0)
                matches Ok(parts) && g@.board == parts.0 && g@.state == parts.1
                && g@.halfmove_clock == parts.2 && g@.fullmove_number == parts.3 && g@.zobrist
                == crate::zobrist::position_hash(parts.0, parts.1))),
            (r matches Err(e) ==> spec_parse_fen_from(fen@, crate::fen::empty_board_model(), 0)
                == Err::<(BoardModel, u16, u32, u32), Error>(e)),
    {
        let mut board = Board::empty();
        let mut state = State::zero();
        let mut halfmove_clock: u32 = 0;
        let mut fullmove_number: u32 = 0;
        match Game::apply_fen(fen, &mut board, &mut state, &mut halfmove_clock, &mut fullmove_number) {
            Ok(()) => Ok(Game::assemble(board, state, halfmove_clock, fullmove_number)),
            Err(e) => Err(e),
        }
    }

    /// Parses FEN text into the given parts: the placements are laid
    /// on top of `board`, the rights and open files on top of `state`,
    /// and the counters are overwritten.
    pub fn apply_fen(
        fen: &str,
        board: &mut Board,
        state: &mut State,
        halfmove_clock: &mut u32,
        fullmove_number: &mut u32,
    ) -> (r: Result<()>)
        ensures
            (r matches Ok(()) ==> (spec_parse_fen_from(fen@, old(board)@, old(state)@)
                matches Ok(parts) && final(board)@ == parts.0 && final(state)@ == parts.1
                && *final(halfmove_clock) == parts.2 && *final(fullmove_number) == parts.3)),
            (r matches Err(e) ==> spec_parse_fen_from(fen@, old(board)@, old(state)@) == Err::<
                (BoardModel, u16, u32, u32),
                Error,
            >(e)),
    {
        let n = fen.unicode_len();
        let j1 = match Game::parse_position_exec(fen, n, 0, 7, 0, board) {
            Ok(j) => j,
            Err(e) => {
                return Err(e);
            },
        };
        // The side to move, followed by one space.
        if j1 >= n {
            return Err(Error::InvalidArgument);
        }
        let c = fen.get_char(j1);
        if c != 'w' && c != 'b' {
            return Err(Error::InvalidArgument);
        }
        let side = if c == 'w' {
            Side::White
        } else {
            Side::Black
        };
        state.set_next_turn_side(side);
        if j1 + 1 >= n {
            return Err(Error::InvalidArgument);
        }
        if fen.get_char(j1 + 1) != ' ' {
            return Err(Error::InvalidArgument);
        }
        let j3 = match Game::parse_castling_exec(fen, n, j1 + 2, state) {
            Ok(j) => j,
            Err(e) => {
                return Err(e);
            },
        };
        let j4 = match Game::parse_ep_exec(fen, n, j3, state) {
            Ok(j) => j,
            Err(e) => {
                return Err(e);
            },
        };
        let (halfmove, j5) = match Game::parse_number_exec(fen, n, j4, 0, false, true) {
            Ok(pair) => pair,
            Err(e) => {
                return Err(e);
            },
        };
        let (fullmove, _) = match Game::parse_number_exec(fen, n, j5, 0, false, false) {
            Ok(pair) => pair,
            Err(e) => {
                return Err(e);
            },
        };
        *halfmove_clock = halfmove;
        *fullmove_number = fullmove;
        Ok(())
    }

    /// The position field: piece letters, skip digits and rank breaks.
    fn parse_position_exec(
        fen: &str,
        n: usize,
        j: usize,
        rank: u8,
        file: u8,
        board: &mut Board,
    ) -> (r: Result<usize>)
        requires
            n == fen@.len(),
            j <= n,
            rank <= 7,
            file <= 8,
        ensures
            (r matches Ok(j2) ==> (parse_position(fen@, j as int, rank as int, file as int, old(board)@)
                matches Ok(parts) && parts.0 == final(board)@ && parts.1 == j2 as int && j2
                <= n)),
            (r matches Err(e) ==> parse_position(fen@, j as int, rank as int, file as int, old(board)@)
                == Err::<(BoardModel, int), Error>(e)),
        decreases n - j,
    {
        if j >= n {
            return Err(Error::InvalidArgument);
        }
        let c = fen.get_char(j);
        if c == ' ' {
            if rank == 0 && file == 8 {
                Ok(j + 1)
            } else {
                Err(Error::InvalidArgument)
            }
        } else if c == '/' {
            if file == 8 && rank > 0 {
                Game::parse_position_exec(fen, n, j + 1, rank - 1, 0, board)
            } else {
                Err(Error::InvalidArgument)
            }
        } else if (c as u32) >= 48 && (c as u32) <= 57 {
            let d = ((c as u32) - 48) as u8;
            if file + d <= 8 {
                Game::parse_position_exec(fen, n, j + 1, rank, file + d, board)
            } else {
                Err(Error::InvalidArgument)
            }
        } else {
            match Piece::from_char(c) {
                Err(e) => Err(e),
                Ok(piece) => {
                    if file < 8 {
                        let side = if (c as u32) >= 65 && (c as u32) <= 90 {
                            Side::White
                        } else {
                            Side::Black
                        };
                        board.set_piece(side, piece, Square::from_index(8 * rank + file));
                        Game::parse_position_exec(fen, n, j + 1, rank, file + 1, board)
                    } else {
                        Err(Error::InvalidArgument)
                    }
                },
            }
        }
    }

    /// The castling-rights field.
    fn parse_castling_exec(fen: &str, n: usize, j: usize, state: &mut State) -> (r: Result<usize>)
        requires
            n == fen@.len(),
        ensures
            (r matches Ok(j2) ==> (parse_castling(fen@, j as int, old(state)@) matches Ok(parts)
                && parts.0 == final(state)@ && parts.1 == j2 as int && j2 <= n)),
            (r matches Err(e) ==> parse_castling(fen@, j as int, old(state)@) == Err::<
                (u16, int),
                Error,
            >(e)),
        decreases n - j,
    {
        if j >= n {
            return Err(Error::InvalidArgument);
        }
        let c = fen.get_char(j);
        if c == ' ' {
            Ok(j + 1)
        } else if c == '-' {
            Game::parse_castling_exec(fen, n, j + 1, state)
        } else if c == 'K' {
            state.set_king_side_castling_right(Side::White, true);
            Game::parse_castling_exec(fen, n, j + 1, state)
        } else if c == 'Q' {
            state.set_queen_side_castling_right(Side::White, true);
            Game::parse_castling_exec(fen, n, j + 1, state)
        } else if c == 'k' {
            state.set_king_side_castling_right(Side::Black, true);
            Game::parse_castling_exec(fen, n, j + 1, state)
        } else if c == 'q' {
            state.set_queen_side_castling_right(Side::Black, true);
            Game::parse_castling_exec(fen, n, j + 1, state)
        } else {
            Err(Error::InvalidArgument)
        }
    }

    /// The en-passant field.
    fn parse_ep_exec(fen: &str, n: usize, j: usize, state: &mut State) -> (r: Result<usize>)
        requires
            n == fen@.len(),
        ensures
            (r matches Ok(j2) ==> (parse_ep(fen@, j as int, old(state)@) matches Ok(parts)
                && parts.0 == final(state)@ && parts.1 == j2 as int && j2 <= n)),
            (r matches Err(e) ==> parse_ep(fen@, j as int, old(state)@) == Err::<
                (u16, int),
                Error,
            >(e)),
        decreases n - j,
    {
        if j >= n {
            return Err(Error::InvalidArgument);
        }
        let c = fen.get_char(j);
        if c == ' ' {
            Ok(j + 1)
        } else if c == '-' || ((c as u32) >= 48 && (c as u32) <= 57) {
            Game::parse_ep_exec(fen, n, j + 1, state)
        } else {
            match File::from_char(c) {
                Err(e) => Err(e),
                Ok(file) => {
                    state.set_en_passant_open(file, true);
                    Game::parse_ep_exec(fen, n, j + 1, state)
                },
            }
        }
    }

    /// A decimal counter field.
    fn parse_number_exec(fen: &str, n: usize, j: usize, acc: u32, got: bool, need_space: bool) -> (r:
        Result<(u32, usize)>)
        requires
            n == fen@.len(),
        ensures
            (r matches Ok(pair) ==> (parse_number(fen@, j as int, acc as int, got, need_space)
                matches Ok(parts) && parts.0 == pair.0 && parts.1 == pair.1 as int && pair.1
                <= n)),
            (r matches Err(e) ==> parse_number(fen@, j as int, acc as int, got, need_space)
                == Err::<(u32, int), Error>(e)),
        decreases n - j,
    {
        if j >= n {
            if got && !need_space && j == n {
                return Ok((acc, j));
            }
            return Err(Error::InvalidArgument);
        }
        let c = fen.get_char(j);
        if (c as u32) >= 48 && (c as u32) <= 57 {
            let d = (c as u32) - 48;
            if acc > (0xffff_ffffu32 - d) / 10 {
                return Err(Error::InvalidArgument);
            }
            proof {
                assert(10 * (acc as int) + d <= 0xffff_ffff) by (nonlinear_arith)
                    requires
                        acc as int <= ((0xffff_ffff - d as int) / 10),
                        0 <= d < 10,
                ;
            }
            Game::parse_number_exec(fen, n, j + 1, 10 * acc + d, true, need_space)
        } else if c == ' ' && got && need_space {
            Ok((acc, j + 1))
        } else {
            Err(Error::InvalidArgument)
        }
    }

    /// The FEN text of the position.
    pub fn fen(&self) -> (r: Result<String>)
        ensures
            r matches Ok(s) && s@ == fen_text(self@),
    {
        let mut out: Vec<char> = Vec::new();
        self.push_position(&mut out);
        out.push(' ');
        out.push(self.next_turn_side().to_char());
        out.push(' ');
        self.push_castles(&mut out);
        out.push(' ');
        self.push_ep(&mut out);
        out.push(' ');
        push_digits(&mut out, self.halfmove_clock());
        out.push(' ');
        push_digits(&mut out, self.fullmove_number());
        proof {
            assert(out@ =~= fen_text(self@));
        }
        Ok(chars_to_string(&out))
    }

    /// Appends the position field.
    fn push_position(&self, out: &mut Vec<char>)
        ensures
            final(out)@ == old(out)@ + pos_acc(self@.board, 64).0,
    {
        let ghost base = out@;
        let mut skips: u8 = 0;
        let mut k: u8 = 0;
        while k < 64
            invariant
                k <= 64,
                skips as int <= k as int % 8,
                out@ == base + pos_acc(self@.board, k as int).0,
                skips as int == pos_acc(self@.board, k as int).1,
            decreases 64 - k,
        {
            let rank = 7 - k / 8;
            let file = k % 8;
            let square = Square::from_index(8 * rank + file);
            match self.board().piece_at(square) {
                Some((side, piece)) => {
                    if skips > 0 {
                        out.push(digit_char_exec(skips as u32));
                        skips = 0;
                    }
                    let letter = match side {
                        Side::Black => piece.to_char(),
                        Side::White => match piece {
                            Piece::Pawn => 'P',
                            Piece::Knight => 'N',
                            Piece::Bishop => 'B',
                            Piece::Rook => 'R',
                            Piece::Queen => 'Q',
                            Piece::King => 'K',
                        },
                    };
                    out.push(letter);
                },
                None => {
                    skips = skips + 1;
                },
            }
            if file == 7 {
                if skips > 0 {
                    out.push(digit_char_exec(skips as u32));
                    skips = 0;
                }
                if rank > 0 {
                    out.push('/');
                }
            }
            proof {
                assert(out@ =~= base + pos_acc(self@.board, k + 1).0);
                assert(skips as int == pos_acc(self@.board, k + 1).1);
            }
            k = k + 1;
        }
    }

    /// Appends the castling-rights field.
    fn push_castles(&self, out: &mut Vec<char>)
        ensures
            final(out)@ == old(out)@ + castle_text(self@.state),
    {
        let any_castling = self.state().king_side_castling_right(Side::White)
            || self.state().queen_side_castling_right(Side::White)
            || self.state().king_side_castling_right(Side::Black)
            || self.state().queen_side_castling_right(Side::Black);
        if self.state().king_side_castling_right(Side::White) {
            out.push('K');
        }
        if self.state().queen_side_castling_right(Side::White) {
            out.push('Q');
        }
        if self.state().king_side_castling_right(Side::Black) {
            out.push('k');
        }
        if self.state().queen_side_castling_right(Side::Black) {
            out.push('q');
        }
        if !any_castling {
            out.push('-');
        }
        proof {
            assert(out@ =~= old(out)@ + castle_text(self@.state));
        }
    }

    /// Appends the en-passant field.
    fn push_ep(&self, out: &mut Vec<char>)
        ensures
            final(out)@ == old(out)@ + ep_text(self@.state),
    {
        let rank_char = match self.next_turn_side() {
            Side::White => '6',
            Side::Black => '3',
        };
        let open_files = self.state().en_passant_open_files();
        if open_files.len() == 0 {
            out.push('-');
            proof {
                assert(out@ =~= old(out)@ + ep_text(self@.state));
            }
        } else {
            let ghost ep_base = out@;
            let mut fi: usize = 0;
            while fi < open_files.len()
                invariant
                    fi <= open_files@.len(),
                    open_files@ == spec_open_files(self@.state, 8),
                    rank_char == (if spec_turn(self@.state) == Side::White {
                        '6'
                    } else {
                        '3'
                    }),
                    out@ == ep_base + ep_chars(open_files@.take(fi as int), rank_char),
                decreases open_files@.len() - fi,
            {
                proof {
                    assert(open_files@.take(fi + 1).drop_last() =~= open_files@.take(fi as int));
                }
                out.push(open_files[fi].to_char());
                out.push(rank_char);
                proof {
                    assert(out@ =~= ep_base + ep_chars(open_files@.take(fi + 1), rank_char));
                }
                fi = fi + 1;
            }
            proof {
                assert(open_files@.take(open_files@.len() as int) =~= open_files@);
                assert(out@ =~= old(out)@ + ep_text(self@.state));
            }
        }
    }
}

/// Collects characters into a string.
fn chars_to_string(chars: &Vec<char>) -> (r: String)
    ensures
        r@ == chars@,
{
    let mut text = String::from_str("");
    proof {
        reveal_strlit("");
        assert(text@ =~= chars@.take(0));
    }
    let mut i: usize = 0;
    while i < chars.len()
        invariant
            i <= chars@.len(),
            text@ == chars@.take(i as int),
        decreases chars@.len() - i,
    {
        push_char(&mut text, chars[i]);
        proof {
            assert(chars@.take(i + 1) =~= chars@.take(i as int).push(chars@[i as int]));
        }
        i = i + 1;
    }
    proof {
        assert(chars@.take(chars@.len() as int) =~= chars@);
    }
    text
}

/// The board model with no pieces.
pub open spec fn empty_board_model() -> BoardModel {
    BoardModel {
        black: 0u64,
        white: 0u64,
        kings: 0u64,
        queens: 0u64,
        rooks: 0u64,
        bishops: 0u64,
        knights: 0u64,
        pawns: 0u64,
    }
}

} // verus!
