//! All the bots of a turn, in the order in which the engine listed them.

use crate::bot::{Bot, Team};
use crate::error::{outcome_view, DecodeError, Failure};
use crate::scan::{chars_of, faults_inside, located_view, split_spans, whole, Fault, Span};
use crate::text::{join, split};
use vstd::prelude::*;
use vstd::string::*;

verus! {

/// The bots of a turn. The order is the engine's; nothing forbids two bots on one place.
#[derive(PartialEq, Eq, Debug)]
pub struct Board(pub Vec<Bot>);

impl View for Board {
    type V = Seq<Bot>;

    open spec fn view(&self) -> Seq<Bot> {
        self.0@
    }
}

/// The bots that a list of records means: each record read in turn, and the failure of the
/// first record that cannot be read in place of them all.
pub open spec fn decode_records(records: Seq<Seq<char>>) -> Result<Seq<Bot>, Failure>
    decreases records.len(),
{
    if records.len() == 0 {
        Ok(Seq::empty())
    } else {
        match decode_records(records.drop_last()) {
            Err(failure) => Err(failure),
            Ok(bots) => match Bot::spec_decode(records.last()) {
                Err(failure) => Err(failure),
                Ok(bot) => Ok(bots.push(bot)),
            },
        }
    }
}

/// The friendly bots among `bots`, in their order.
pub open spec fn friendly(bots: Seq<Bot>) -> Seq<Bot> {
    bots.filter(|bot: Bot| bot.team == Team::Friendly)
}

/// The entries that are sent for `bots`: one for each friendly bot, in their order.
pub open spec fn entries(bots: Seq<Bot>) -> Seq<Seq<char>> {
    friendly(bots).map_values(|bot: Bot| bot.spec_entry())
}

/// A failure among the first records is the failure of the whole list.
pub proof fn lemma_decode_records_failure(records: Seq<Seq<char>>, n: int)
    requires
        0 <= n <= records.len(),
        decode_records(records.take(n)) is Err,
    ensures
        decode_records(records) == decode_records(records.take(n)),
    decreases records.len(),
{
    if n == records.len() {
        assert(records.take(n) == records);
    } else {
        assert(records.drop_last().take(n) == records.take(n));
        lemma_decode_records_failure(records.drop_last(), n);
    }
}

/// One more bot adds its entry if it is friendly, and nothing otherwise.
pub proof fn lemma_entries_push(bots: Seq<Bot>, bot: Bot)
    ensures
        entries(bots.push(bot)) == if bot.team == Team::Friendly {
            entries(bots).push(bot.spec_entry())
        } else {
            entries(bots)
        },
{
    bots.lemma_filter_push(bot, |bot: Bot| bot.team == Team::Friendly);
    if bot.team == Team::Friendly {
        assert(entries(bots.push(bot)) =~= entries(bots).push(bot.spec_entry()));
    }
}

impl Board {
    /// What a board text means: the text is cut at every `,` and each piece is a bot
    /// record. There is no board without a bot: the empty text is one empty record.
    pub open spec fn spec_decode(text: Seq<char>) -> Result<Seq<Bot>, Failure> {
        decode_records(split(text, ','))
    }

    /// The text that is sent for a board: the entries of its friendly bots with `,`
    /// between them, and the empty text where no bot is friendly.
    pub open spec fn spec_encode(bots: Seq<Bot>) -> Seq<char> {
        join(entries(bots), ',')
    }

    pub(crate) fn parse(text: &[char], span: Span) -> (r: Result<Board, Fault>)
        requires
            span.fits(text@),
        ensures
            located_view(r, text@) == Self::spec_decode(span.of(text@)),
            faults_inside(r, span),
    {
        let records = split_spans(text, span, ',');
        let ghost pieces = split(span.of(text@), ',');
        let mut bots: Vec<Bot> = Vec::new();
        for k in 0..records.len()
            invariant
                span.fits(text@),
                pieces == split(span.of(text@), ','),
                records.len() == pieces.len(),
                forall|j: int|
                    0 <= j < records.len() ==> (#[trigger] records[j]).inside(span)
                        && records[j].of(text@) == pieces[j],
                decode_records(pieces.take(k as int)) == Ok::<_, Failure>(bots@),
        {
            proof {
                assert(pieces.take(k + 1).drop_last() == pieces.take(k as int));
            }
            match Bot::parse(text, records[k]) {
                Ok(bot) => {
                    bots.push(bot);
                },
                Err(fault) => {
                    proof {
                        lemma_decode_records_failure(pieces, k + 1);
                    }
                    return Err(fault);
                },
            }
        }
        proof {
            assert(pieces.take(records.len() as int) == pieces);
        }
        Ok(Board(bots))
    }

    /// Reads a board text. On the first record that cannot be read the whole decode fails
    /// with that record's error.
    pub fn decode(text: &str) -> (r: Result<Board, DecodeError>)
        ensures
            outcome_view(r) == Self::spec_decode(text@),
    {
        let chars = chars_of(text);
        match Self::parse(chars.as_slice(), whole(&chars)) {
            Ok(board) => Ok(board),
            Err(fault) => Err(fault.report(text)),
        }
    }

    pub(crate) fn push_to(&self, out: &mut String)
        ensures
            final(out)@ == old(out)@ + Self::spec_encode(self@),
    {
        let ghost before = out@;
        let mut any = false;
        proof {
            assert(self@.take(0) == Seq::<Bot>::empty());
            reveal(Seq::filter);
            assert(entries(Seq::<Bot>::empty()) == Seq::<Seq<char>>::empty());
            assert(out@ == before + Seq::<char>::empty());
        }
        for k in 0..self.0.len()
            invariant
                out@ == before + join(entries(self@.take(k as int)), ','),
                any == (entries(self@.take(k as int)).len() > 0),
        {
            let bot = &self.0[k];
            let ghost seen = self@.take(k as int);
            let ghost sent = entries(seen);
            proof {
                assert(self@.take(k + 1) == seen.push(*bot));
                lemma_entries_push(seen, *bot);
            }
            if bot.team == Team::Friendly {
                proof {
                    reveal_strlit(",");
                    assert(sent.push(bot.spec_entry()).drop_last() == sent);
                }
                if any {
                    out.append(",");
                }
                bot.push_entry_to(out);
                any = true;
                assert(out@ =~= before + join(sent.push(bot.spec_entry()), ','));
            }
        }
        proof {
            assert(self@.take(self.0.len() as int) == self@);
        }
    }

    /// Writes the text that is sent for the board.
    pub fn encode(&self) -> (s: String)
        ensures
            s@ == Self::spec_encode(self@),
    {
        let mut s = String::new();
        self.push_to(&mut s);
        assert(Seq::<char>::empty() + Self::spec_encode(self@) =~= Self::spec_encode(self@));
        s
    }
}

} // verus!
