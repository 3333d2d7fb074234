//! One robot: whose it is, where it stands, how healthy it is, and what it was told to do.

use crate::action::Action;
use crate::error::{outcome, DecodeError, ErrorKind, Failure};
use crate::position::Position;
use crate::scan::{
    chars_of, faults_inside, is_char, located, parse_decimal, split_spans, whole, Fault, Span,
};
use crate::text::{parse_unsigned, split};
use vstd::prelude::*;
use vstd::string::*;

verus! {

/// Who controls a bot.
#[derive(PartialEq, Eq, Structural, Clone, Copy, Debug)]
pub enum Team {
    Friendly,
    Enemy,
}

impl Team {
    /// What a team marker means: `F` is friendly, `E` is enemy, anything else is unknown.
    pub open spec fn spec_decode(token: Seq<char>) -> Result<Team, Failure> {
        if token == seq!['F'] {
            Ok(Team::Friendly)
        } else if token == seq!['E'] {
            Ok(Team::Enemy)
        } else {
            Err(Failure { kind: ErrorKind::UnknownTeam, text: token })
        }
    }

    pub(crate) fn parse(text: &[char], span: Span) -> (r: Result<Team, Fault>)
        requires
            span.fits(text@),
        ensures
            located(r, text@) == Self::spec_decode(span.of(text@)),
            faults_inside(r, span),
    {
        if is_char(text, span, 'F') {
            Ok(Team::Friendly)
        } else if is_char(text, span, 'E') {
            Ok(Team::Enemy)
        } else {
            Err(Fault { kind: ErrorKind::UnknownTeam, span })
        }
    }
}

/// A robot on the arena. A dead bot, with health 0, is as valid as any other.
#[derive(PartialEq, Eq, Structural, Clone, Copy, Debug)]
pub struct Bot {
    pub team: Team,
    pub position: Position,
    pub health: u8,
    /// The order for this turn. The engine sends none, so a decoded bot has none.
    pub action: Option<Action>,
}

impl Bot {
    /// What a bot record means. The record is cut at every `-` and must give exactly three
    /// parts, or it is a malformed bot. The parts are the team marker, the position and the
    /// health, a number from 0 to 255; the first part that cannot be read is reported, and
    /// an invalid health is reported with the health's own text. The bot has no action.
    pub open spec fn spec_decode(token: Seq<char>) -> Result<Bot, Failure> {
        let parts = split(token, '-');
        if parts.len() != 3 {
            Err(Failure { kind: ErrorKind::MalformedBot, text: token })
        } else {
            match Team::spec_decode(parts[0]) {
                Err(failure) => Err(failure),
                Ok(team) => match Position::spec_decode(parts[1]) {
                    Err(failure) => Err(failure),
                    Ok(position) => match parse_unsigned(parts[2], u8::MAX as nat) {
                        None => Err(Failure { kind: ErrorKind::InvalidHealth, text: parts[2] }),
                        Some(health) => Ok(
                            Bot { team, position, health: health as u8, action: None },
                        ),
                    },
                },
            }
        }
    }

    /// The action that is sent for this bot: its own, or to defend when it has none.
    pub open spec fn order(self) -> Action {
        match self.action {
            Some(action) => action,
            None => Action::Defend,
        }
    }

    /// The entry that is sent for a friendly bot: its position, a `-`, and its order. Team
    /// and health are not sent.
    pub open spec fn spec_entry(self) -> Seq<char> {
        self.position.spec_encode().push('-') + self.order().spec_encode()
    }

    pub(crate) fn parse(text: &[char], span: Span) -> (r: Result<Bot, Fault>)
        requires
            span.fits(text@),
        ensures
            located(r, text@) == Self::spec_decode(span.of(text@)),
            faults_inside(r, span),
    {
        let parts = split_spans(text, span, '-');
        if parts.len() != 3 {
            return Err(Fault { kind: ErrorKind::MalformedBot, span });
        }
        let team = match Team::parse(text, parts[0]) {
            Ok(team) => team,
            Err(fault) => {
                return Err(fault);
            },
        };
        let position = match Position::parse(text, parts[1]) {
            Ok(position) => position,
            Err(fault) => {
                return Err(fault);
            },
        };
        let health = match parse_decimal(text, parts[2], u8::MAX as u64) {
            Some(health) => health as u8,
            None => {
                return Err(Fault { kind: ErrorKind::InvalidHealth, span: parts[2] });
            },
        };
        Ok(Bot { team, position, health, action: None })
    }

    /// Reads a bot record.
    pub fn decode(token: &str) -> (r: Result<Bot, DecodeError>)
        ensures
            outcome(r) == Self::spec_decode(token@),
    {
        let text = chars_of(token);
        match Self::parse(text.as_slice(), whole(&text)) {
            Ok(bot) => Ok(bot),
            Err(fault) => Err(fault.report(token)),
        }
    }

    pub(crate) fn push_entry_to(&self, out: &mut String)
        ensures
            final(out)@ == old(out)@ + self.spec_entry(),
    {
        proof {
            reveal_strlit("-");
        }
        self.position.push_to(out);
        out.append("-");
        let order = match self.action {
            Some(action) => action,
            None => Action::default(),
        };
        order.push_to(out);
        assert("-"@ =~= seq!['-']);
        assert(final(out)@ =~= old(out)@ + self.spec_entry());
    }
}

} // verus!
