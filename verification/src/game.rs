//! One line of the engine, and the line that answers it.

use crate::board::Board;
use crate::bot::Bot;
use crate::error::{outcome_view, DecodeError, ErrorKind, Failure};
use crate::scan::{
    chars_of, faults_inside, located, parse_decimal, split_spans, whole, Fault, Span,
};
use crate::text::{parse_unsigned, split};
use vstd::prelude::*;
use vstd::string::*;

verus! {

/// What one line of the engine says: the turn, which player this is, the bots on the arena,
/// and a payload that is handed back untouched.
#[derive(PartialEq, Eq, Debug)]
pub struct Game {
    pub board: Board,
    pub user_data: String,
    /// The current turn and the number of turns in the game.
    pub turn: (u32, u32),
    pub player_num: u8,
}

/// The mathematical value of a `Game`.
pub struct GameView {
    pub board: Seq<Bot>,
    pub user_data: Seq<char>,
    pub turn: (u32, u32),
    pub player_num: u8,
}

impl View for Game {
    type V = GameView;

    open spec fn view(&self) -> GameView {
        GameView {
            board: self.board@,
            user_data: self.user_data@,
            turn: self.turn,
            player_num: self.player_num,
        }
    }
}

/// What the game data of a line means. The text is cut at every `,`. The first three fields
/// are the current turn and the number of turns, each an unsigned numeral that fits 32
/// bits, and the player number, one that fits 8 bits; further fields are ignored. The
/// fields are read in order, and the first that is absent or not such a numeral is
/// reported: an absent one by its own kind with the whole game data, a bad one as an
/// invalid number with the field's text.
pub open spec fn decode_game_data(text: Seq<char>) -> Result<((u32, u32), u8), Failure> {
    let fields = split(text, ',');
    match parse_unsigned(fields[0], u32::MAX as nat) {
        None => Err(Failure { kind: ErrorKind::InvalidNumber, text: fields[0] }),
        Some(current) => if fields.len() < 2 {
            Err(Failure { kind: ErrorKind::MissingTotalTurns, text })
        } else {
            match parse_unsigned(fields[1], u32::MAX as nat) {
                None => Err(Failure { kind: ErrorKind::InvalidNumber, text: fields[1] }),
                Some(total) => if fields.len() < 3 {
                    Err(Failure { kind: ErrorKind::MissingPlayerNum, text })
                } else {
                    match parse_unsigned(fields[2], u8::MAX as nat) {
                        None => Err(Failure { kind: ErrorKind::InvalidNumber, text: fields[2] }),
                        Some(player) => Ok(((current as u32, total as u32), player as u8)),
                    }
                },
            }
        },
    }
}

fn parse_game_data(text: &[char], span: Span) -> (r: Result<((u32, u32), u8), Fault>)
    requires
        span.fits(text@),
    ensures
        located(r, text@) == decode_game_data(span.of(text@)),
        faults_inside(r, span),
{
    let fields = split_spans(text, span, ',');
    let current = match parse_decimal(text, fields[0], u32::MAX as u64) {
        Some(current) => current as u32,
        None => {
            return Err(Fault { kind: ErrorKind::InvalidNumber, span: fields[0] });
        },
    };
    if fields.len() < 2 {
        return Err(Fault { kind: ErrorKind::MissingTotalTurns, span });
    }
    let total = match parse_decimal(text, fields[1], u32::MAX as u64) {
        Some(total) => total as u32,
        None => {
            return Err(Fault { kind: ErrorKind::InvalidNumber, span: fields[1] });
        },
    };
    if fields.len() < 3 {
        return Err(Fault { kind: ErrorKind::MissingPlayerNum, span });
    }
    let player = match parse_decimal(text, fields[2], u8::MAX as u64) {
        Some(player) => player as u8,
        None => {
            return Err(Fault { kind: ErrorKind::InvalidNumber, span: fields[2] });
        },
    };
    Ok(((current, total), player))
}

impl Game {
    /// What a line of the engine means. The line is cut at every `#`. Fewer than three
    /// segments make a malformed game. The first segment is the game data, the second the
    /// board, and the third the user data, which is kept as it stands; segments after the
    /// third are dropped. A failure in the game data is reported before one in the board.
    pub open spec fn spec_decode(line: Seq<char>) -> Result<GameView, Failure> {
        let segments = split(line, '#');
        if segments.len() < 3 {
            Err(Failure { kind: ErrorKind::MalformedGame, text: line })
        } else {
            match decode_game_data(segments[0]) {
                Err(failure) => Err(failure),
                Ok((turn, player_num)) => match Board::spec_decode(segments[1]) {
                    Err(failure) => Err(failure),
                    Ok(board) => Ok(GameView { board, user_data: segments[2], turn, player_num }),
                },
            }
        }
    }

    /// The line that answers a game: the board's text, a `#`, and the user data as it
    /// stands. Neither the turn nor the player number is sent back.
    pub open spec fn spec_encode(game: GameView) -> Seq<char> {
        Board::spec_encode(game.board).push('#') + game.user_data
    }

    /// Reads a line of the engine.
    pub fn decode(line: &str) -> (r: Result<Game, DecodeError>)
        ensures
            outcome_view(r) == Self::spec_decode(line@),
    {
        let chars = chars_of(line);
        let text = chars.as_slice();
        let segments = split_spans(text, whole(&chars), '#');
        if segments.len() < 3 {
            return Err(Fault { kind: ErrorKind::MalformedGame, span: whole(&chars) }.report(line));
        }
        let (turn, player_num) = match parse_game_data(text, segments[0]) {
            Ok(game_data) => game_data,
            Err(fault) => {
                return Err(fault.report(line));
            },
        };
        let board = match Board::parse(text, segments[1]) {
            Ok(board) => board,
            Err(fault) => {
                return Err(fault.report(line));
            },
        };
        let user_data = String::from_str(line.substring_char(segments[2].lo, segments[2].hi));
        Ok(Game { board, user_data, turn, player_num })
    }

    /// Writes the line that answers the game.
    pub fn encode(&self) -> (s: String)
        ensures
            s@ == Self::spec_encode(self@),
    {
        proof {
            reveal_strlit("#");
        }
        let mut s = String::new();
        self.board.push_to(&mut s);
        s.append("#");
        s.append(self.user_data.as_str());
        assert("#"@ =~= seq!['#']);
        assert(s@ =~= Self::spec_encode(self@));
        s
    }
}

} // verus!
