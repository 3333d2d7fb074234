//! What holds of the codec as a whole: how the decoders and encoders relate to each other.
//! Each statement is about the specification functions, which the executable functions are
//! proved to compute.

use crate::action::Action;
use crate::board::{decode_records, entries, friendly, lemma_decode_records_failure, Board};
use crate::bot::{Bot, Team};
use crate::direction::Direction;
use crate::error::{ErrorKind, Failure};
use crate::game::{Game, GameView};
use crate::position::Position;
use crate::text::{
    decimal, digits_value, find, free_of, is_canonical, is_digit, join, lemma_decimal,
    lemma_decimal_of_canonical, lemma_find, lemma_find_unique, lemma_parse_decimal,
    lemma_split_concat, lemma_split_first, lemma_split_join, lemma_split_pieces,
    lemma_split_single, parse_unsigned, split,
};
use vstd::prelude::*;

verus! {

/// The eight direction letters fall into four pairs, and both letters of a pair mean the
/// same direction: `N` and `U`, `E` and `R`, `S` and `D`, `W` and `L`.
pub proof fn direction_synonyms()
    ensures
        Direction::spec_decode(seq!['N']) == Direction::spec_decode(seq!['U']),
        Direction::spec_decode(seq!['U']) == Ok::<_, Failure>(Direction::Up),
        Direction::spec_decode(seq!['E']) == Direction::spec_decode(seq!['R']),
        Direction::spec_decode(seq!['R']) == Ok::<_, Failure>(Direction::Right),
        Direction::spec_decode(seq!['S']) == Direction::spec_decode(seq!['D']),
        Direction::spec_decode(seq!['D']) == Ok::<_, Failure>(Direction::Down),
        Direction::spec_decode(seq!['W']) == Direction::spec_decode(seq!['L']),
        Direction::spec_decode(seq!['L']) == Ok::<_, Failure>(Direction::Left),
{
    lemma_letters_differ();
}

/// Sequences of one letter are equal only if the letters are.
proof fn lemma_letters_differ()
    ensures
        forall|a: char, b: char| a != b ==> #[trigger] seq![a] != #[trigger] seq![b],
{
    assert forall|a: char, b: char| a != b implies #[trigger] seq![a] != #[trigger] seq![b] by {
        assert(seq![a][0] == a);
    }
}

/// A direction is always written as one of `U`, `D`, `L`, `R`, never as `N`, `S`, `W` or
/// `E`, and what is written reads as the direction.
pub proof fn direction_encode_canonical(direction: Direction)
    ensures
        direction.spec_encode() == seq!['U'] || direction.spec_encode() == seq!['D']
            || direction.spec_encode() == seq!['L'] || direction.spec_encode() == seq!['R'],
        direction.spec_encode() != seq!['N'],
        direction.spec_encode() != seq!['S'],
        direction.spec_encode() != seq!['W'],
        direction.spec_encode() != seq!['E'],
        Direction::spec_decode(direction.spec_encode()) == Ok::<_, Failure>(direction),
{
    lemma_letters_differ();
}

/// An action that was written reads as the same action.
pub proof fn action_round_trip(action: Action)
    ensures
        Action::spec_decode(action.spec_encode()) == Ok::<_, Failure>(action),
{
    lemma_letters_differ();
    let token = action.spec_encode();
    match action {
        Action::Attack(direction) | Action::Move(direction) => {
            direction_encode_canonical(direction);
            let tag = token.take(1);
            let letter = direction.spec_encode();
            assert(tag.push('-') + letter == token);
            lemma_split_first(tag, letter, '-');
            lemma_split_single(letter, '-');
            assert(tag == if action is Attack { seq!['A'] } else { seq!['M'] });
        },
        Action::Defend | Action::SelfDestruct => {
            lemma_split_single(token, '-');
        },
    }
}

/// A position that was written reads as the same position.
pub proof fn position_round_trip(position: Position)
    ensures
        Position::spec_decode(position.spec_encode()) == Ok::<_, Failure>(position),
{
    let x = decimal(position.x as nat);
    let y = decimal(position.y as nat);
    let token = position.spec_encode();
    lemma_decimal(position.x as nat);
    lemma_decimal(position.y as nat);
    let at = x.len() as int;
    assert(token.take(at) == x);
    assert(token.skip(at + 1) == y);
    lemma_find_unique(token, ':', at);
    lemma_parse_decimal(position.x as nat, usize::MAX as nat);
    lemma_parse_decimal(position.y as nat, usize::MAX as nat);
}

/// Reading a position token and writing the position again gives the token back, for
/// every token `x:y` in which `x` and `y` are numerals as they are normally written, without
/// a sign or a zero in front, of numbers that fit a `usize`.
pub proof fn position_token_round_trip(x: Seq<char>, y: Seq<char>)
    requires
        is_canonical(x),
        is_canonical(y),
        digits_value(x) <= usize::MAX,
        digits_value(y) <= usize::MAX,
    ensures
        ({
            let token = x.push(':') + y;
            let position = Position { x: digits_value(x) as usize, y: digits_value(y) as usize };
            &&& Position::spec_decode(token) == Ok::<_, Failure>(position)
            &&& position.spec_encode() == token
        }),
{
    let token = x.push(':') + y;
    let at = x.len() as int;
    assert(token.take(at) == x);
    assert(token.skip(at + 1) == y);
    lemma_find_unique(token, ':', at);
    lemma_decimal_of_canonical(x);
    lemma_decimal_of_canonical(y);
}

/// The characters that an action is written with.
proof fn lemma_action_letters(action: Action)
    ensures
        free_of(action.spec_encode(), ','),
        free_of(action.spec_encode(), '#'),
{
}

/// How an entry looks: it starts with the digits of `x`, which a `:` follows, and it holds
/// neither `,` nor `#`.
proof fn lemma_entry_shape(bot: Bot)
    ensures
        bot.spec_entry().len() > decimal(bot.position.x as nat).len() >= 1,
        is_digit(bot.spec_entry()[0]),
        bot.spec_entry()[decimal(bot.position.x as nat).len() as int] == ':',
        free_of(bot.spec_entry(), ','),
        free_of(bot.spec_entry(), '#'),
{
    let x = decimal(bot.position.x as nat);
    let y = decimal(bot.position.y as nat);
    let order = bot.order().spec_encode();
    let entry = bot.spec_entry();
    lemma_decimal(bot.position.x as nat);
    lemma_decimal(bot.position.y as nat);
    lemma_action_letters(bot.order());
    assert(entry == x.push(':') + y + seq!['-'] + order);
}

/// An entry is no numeral.
proof fn lemma_entry_is_no_number(bot: Bot, max: nat)
    ensures
        parse_unsigned(bot.spec_entry(), max) is None,
{
    lemma_entry_shape(bot);
}

/// A bot record starts with its team marker: a text that starts otherwise is no record.
pub proof fn bot_record_starts_with_team(token: Seq<char>)
    requires
        token.len() == 0 || (token[0] != 'F' && token[0] != 'E'),
    ensures
        Bot::spec_decode(token) is Err,
{
    lemma_find(token, '-');
    let marker = split(token, '-')[0];
    assert(marker == token.take(find(token, '-')));
    if marker.len() == 1 {
        assert(marker[0] == token[0]);
    }
    assert(marker != seq!['F'] && marker != seq!['E']);
}

/// The text sent for a board splits at `,` into the board's entries.
proof fn lemma_split_board_text(bots: Seq<Bot>)
    requires
        entries(bots).len() >= 1,
    ensures
        split(Board::spec_encode(bots), ',') == entries(bots),
        free_of(Board::spec_encode(bots), '#'),
{
    let sent = entries(bots);
    assert forall|k: int| 0 <= k < sent.len() implies free_of(#[trigger] sent[k], ',') && free_of(
        sent[k],
        '#',
    ) by {
        lemma_entry_shape(friendly(bots)[k]);
    }
    lemma_split_join(sent, ',');
    lemma_join_free(sent, ',', '#');
}

/// A joined text holds a character other than the separator only if a piece holds it.
proof fn lemma_join_free(pieces: Seq<Seq<char>>, sep: char, c: char)
    requires
        c != sep,
        forall|k: int| 0 <= k < pieces.len() ==> free_of(#[trigger] pieces[k], c),
    ensures
        free_of(join(pieces, sep), c),
    decreases pieces.len(),
{
    if pieces.len() >= 2 {
        lemma_join_free(pieces.drop_last(), sep, c);
    }
}

/// What is sent for a board never reads as a board: the two formats differ, and an entry
/// lacks the team marker and the health that a record needs. This holds of every board,
/// with or without friendly bots, whatever their actions.
pub proof fn board_answer_is_no_board(bots: Seq<Bot>)
    ensures
        Board::spec_decode(Board::spec_encode(bots)) is Err,
{
    let text = Board::spec_encode(bots);
    let records = split(text, ',');
    if entries(bots).len() == 0 {
        lemma_find(text, ',');
    } else {
        lemma_split_board_text(bots);
        lemma_entry_shape(friendly(bots)[0]);
    }
    bot_record_starts_with_team(records[0]);
    lemma_decode_records_failure(records, 1);
}

/// What is sent for a game never reads as a line of the engine: where the answer has its
/// board, a line has its game data, and no board text is game data.
pub proof fn game_answer_is_no_line(game: GameView)
    ensures
        Game::spec_decode(Game::spec_encode(game)) is Err,
{
    let board = Board::spec_encode(game.board);
    if entries(game.board).len() == 0 {
        lemma_find(board, ',');
    } else {
        lemma_split_board_text(game.board);
        lemma_entry_is_no_number(friendly(game.board)[0], u32::MAX as nat);
    }
    lemma_split_concat(board, game.user_data, '#');
    lemma_split_single(board, '#');
    lemma_split_pieces(game.user_data, '#');
}

/// Reading a list of records succeeds exactly when every record reads, and then gives the
/// bots of the records in their order; it fails with the failure of the first record that
/// does not read.
pub proof fn records_read_in_order(records: Seq<Seq<char>>)
    ensures
        match decode_records(records) {
            Ok(bots) => {
                &&& bots.len() == records.len()
                &&& forall|k: int|
                    0 <= k < records.len() ==> Bot::spec_decode(#[trigger] records[k]) == Ok::<
                        _,
                        Failure,
                    >(bots[k])
            },
            Err(failure) => exists|k: int|
                {
                    &&& 0 <= k < records.len()
                    &&& Bot::spec_decode(#[trigger] records[k]) == Err::<Bot, _>(failure)
                    &&& forall|j: int| 0 <= j < k ==> Bot::spec_decode(#[trigger] records[j]) is Ok
                },
        },
    decreases records.len(),
{
    if records.len() > 0 {
        let front = records.drop_last();
        records_read_in_order(front);
        match decode_records(front) {
            Ok(bots) => {
                match Bot::spec_decode(records.last()) {
                    Ok(bot) => {
                        let all = bots.push(bot);
                        assert forall|k: int| 0 <= k < records.len() implies Bot::spec_decode(
                            #[trigger] records[k],
                        ) == Ok::<_, Failure>(all[k]) by {
                            if k < front.len() {
                                assert(records[k] == front[k]);
                            }
                        }
                    },
                    Err(failure) => {
                        let k = records.len() - 1;
                        assert forall|j: int| 0 <= j < k implies Bot::spec_decode(
                            #[trigger] records[j],
                        ) is Ok by {
                            assert(records[j] == front[j]);
                        }
                    },
                }
            },
            Err(failure) => {
                let k = choose|k: int|
                    {
                        &&& 0 <= k < front.len()
                        &&& Bot::spec_decode(#[trigger] front[k]) == Err::<Bot, _>(failure)
                        &&& forall|j: int| 0 <= j < k ==> Bot::spec_decode(#[trigger] front[j]) is Ok
                    };
                assert forall|j: int| 0 <= j < k implies Bot::spec_decode(
                    #[trigger] records[j],
                ) is Ok by {
                    assert(records[j] == front[j]);
                }
            },
        }
    }
}

/// A bot that was read has not been given an order.
pub proof fn decoded_bots_have_no_action(text: Seq<char>)
    requires
        Board::spec_decode(text) is Ok,
    ensures
        forall|k: int|
            0 <= k < Board::spec_decode(text)->Ok_0.len() ==> (#[trigger] Board::spec_decode(
                text,
            )->Ok_0[k]).action is None,
{
    let records = split(text, ',');
    let bots = Board::spec_decode(text)->Ok_0;
    records_read_in_order(records);
    assert forall|k: int| 0 <= k < bots.len() implies (#[trigger] bots[k]).action is None by {
        assert(Bot::spec_decode(records[k]) == Ok::<_, Failure>(bots[k]));
    }
}

/// The entries of a board on which every friendly bot defends.
pub open spec fn defending_entries(bots: Seq<Bot>) -> Seq<Seq<char>> {
    friendly(bots).map_values(|bot: Bot| bot.position.spec_encode() + seq!['-', 'D'])
}

/// Where no bot has an order, every friendly bot is sent as defending.
proof fn lemma_entries_without_orders(bots: Seq<Bot>)
    requires
        forall|k: int| 0 <= k < bots.len() ==> (#[trigger] bots[k]).action is None,
    ensures
        entries(bots) == defending_entries(bots),
{
    let ours = friendly(bots);
    assert forall|k: int| 0 <= k < ours.len() implies #[trigger] entries(bots)[k]
        == defending_entries(bots)[k] by {
        bots.lemma_filter_contains_rev(|bot: Bot| bot.team == Team::Friendly, ours[k]);
        assert(ours[k].action is None);
    }
}

/// Reading a line and writing the game as it was read does not give the line back. It
/// gives the answer in which every friendly bot of the line defends at its position, in
/// the line's order, followed by `#` and the line's user data; team markers, health,
/// enemies, the turn and the player number are not in it.
pub proof fn answer_to_decoded_line(line: Seq<char>)
    requires
        Game::spec_decode(line) is Ok,
    ensures
        ({
            let game = Game::spec_decode(line)->Ok_0;
            &&& Board::spec_decode(split(line, '#')[1]) == Ok::<_, Failure>(game.board)
            &&& game.user_data == split(line, '#')[2]
            &&& Game::spec_encode(game) == join(defending_entries(game.board), ',').push('#')
                + game.user_data
            &&& Game::spec_encode(game) != line
        }),
{
    let game = Game::spec_decode(line)->Ok_0;
    decoded_bots_have_no_action(split(line, '#')[1]);
    lemma_entries_without_orders(game.board);
    game_answer_is_no_line(game);
}

/// Segments after the third do not matter: a line with three or more segments reads the
/// same with one more segment behind it.
pub proof fn extra_segments_are_dropped(line: Seq<char>, extra: Seq<char>)
    requires
        split(line, '#').len() >= 3,
    ensures
        Game::spec_decode(line.push('#') + extra) == Game::spec_decode(line),
{
    lemma_split_concat(line, extra, '#');
}

/// The failures of a board: a record is malformed, or one of its three parts is bad.
proof fn lemma_board_failures(records: Seq<Seq<char>>)
    ensures
        decode_records(records) matches Err(failure) ==> {
            ||| failure.kind == ErrorKind::MalformedBot
            ||| failure.kind == ErrorKind::UnknownTeam
            ||| failure.kind == ErrorKind::InvalidPosition
            ||| failure.kind == ErrorKind::InvalidHealth
        },
    decreases records.len(),
{
    if records.len() > 0 {
        lemma_board_failures(records.drop_last());
    }
}

/// No line is reported to lack its current turn: a line's game data always has a first
/// field, and an empty one is an invalid number.
pub proof fn missing_turn_is_never_reported(line: Seq<char>)
    ensures
        Game::spec_decode(line) matches Err(failure) ==> failure.kind != ErrorKind::MissingTurn,
{
    lemma_board_failures(split(split(line, '#')[1], ','));
}

} // verus!
