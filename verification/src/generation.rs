//! A single generation of a profile, and the parser for the textual
//! enumeration format.
//!
//! One line of enumeration output holds whitespace-separated fields
//! `<id> <date> <time>`, optionally followed by the literal marker
//! `(current)`.  [`Generation::parse`] reads one such line;
//! [`Generation::parse_many`] reads a whole enumeration, skipping blank
//! lines and stopping at the first line that fails.

use vstd::prelude::*;

use crate::text::all_digits;
use crate::text::digits_val;
use crate::text::spec_lines;
use crate::text::spec_tokens;
use crate::text::parse_u32;
use crate::text::split_lines;
use crate::text::str_eq;
use crate::text::tokenize;
use crate::text::views_of;
use crate::timestamp::Timestamp;
use crate::timestamp::chrono_datetime_of;
use crate::timestamp::parse_datetime;

verus! {

/// One snapshot of a profile.
///
/// The `id` is assigned by the snapshot manager and is the sole ordering
/// and equality key of the containers in this crate; `date` is the
/// creation time, and `current` marks the generation presently in use.
#[derive(Debug, Clone, Copy, PartialEq, Eq, Hash, Structural)]
pub struct Generation {
    /// The unique id of this generation within its profile.
    pub id: u32,
    /// The date and time this generation was created.
    pub date: Timestamp,
    /// Whether this generation is the currently active one.
    pub current: bool,
}

impl PartialOrd for Generation {
    /// Generations are ordered by id alone; timestamps never take part
    /// in the ordering.
    fn partial_cmp(&self, other: &Generation) -> (r: Option<std::cmp::Ordering>) {
        if self.id < other.id {
            Some(std::cmp::Ordering::Less)
        } else if self.id == other.id {
            Some(std::cmp::Ordering::Equal)
        } else {
            Some(std::cmp::Ordering::Greater)
        }
    }
}

impl vstd::std_specs::cmp::PartialOrdSpecImpl for Generation {
    open spec fn obeys_partial_cmp_spec() -> bool {
        true
    }

    open spec fn partial_cmp_spec(&self, other: &Generation) -> Option<std::cmp::Ordering> {
        if self.id < other.id {
            Some(std::cmp::Ordering::Less)
        } else if self.id == other.id {
            Some(std::cmp::Ordering::Equal)
        } else {
            Some(std::cmp::Ordering::Greater)
        }
    }
}

/// Why a line of enumeration output was rejected.
#[derive(Debug, Clone, Copy, PartialEq, Eq, Structural)]
pub enum ParseError {
    /// The id field is missing, is not a string of decimal digits, or
    /// does not fit in a `u32`.
    InvalidId,
    /// The date or time field is missing, or the two do not parse under
    /// the pattern `YYYY-MM-DD HH:MM:SS`.
    InvalidTimestamp,
    /// A trailing field other than the literal `(current)` is present.
    InvalidMarker,
}

/// What one line of enumeration output denotes: a generation, or the
/// first reason it is rejected.  The id is examined first, then the
/// timestamp, then the optional trailing marker; fields past a valid
/// `(current)` marker are ignored.
pub open spec fn spec_parse_line(s: Seq<char>) -> Result<Generation, ParseError> {
    let toks = spec_tokens(s);
    if toks.len() == 0 || !(toks[0].len() > 0 && all_digits(toks[0]) && digits_val(toks[0])
        <= u32::MAX) {
        Err(ParseError::InvalidId)
    } else if toks.len() < 3 || chrono_datetime_of(toks[1], toks[2]) is None {
        Err(ParseError::InvalidTimestamp)
    } else {
        let g = Generation {
            id: digits_val(toks[0]) as u32,
            date: chrono_datetime_of(toks[1], toks[2])->Some_0,
            current: toks.len() > 3,
        };
        if toks.len() == 3 {
            Ok(g)
        } else if toks[3] == "(current)"@ {
            Ok(g)
        } else {
            Err(ParseError::InvalidMarker)
        }
    }
}

/// What a whole enumeration denotes: the generations of its non-blank
/// lines in order, or the error of the first line that fails.
pub open spec fn spec_parse_lines(lines: Seq<Seq<char>>) -> Result<Seq<Generation>, ParseError>
    decreases lines.len(),
{
    if lines.len() == 0 {
        Ok(Seq::empty())
    } else if spec_tokens(lines[0]).len() == 0 {
        spec_parse_lines(lines.drop_first())
    } else {
        match spec_parse_line(lines[0]) {
            Ok(g) => match spec_parse_lines(lines.drop_first()) {
                Ok(gs) => Ok(seq![g] + gs),
                Err(e) => Err(e),
            },
            Err(e) => Err(e),
        }
    }
}

/// What a whole enumeration text denotes, line by line.
pub open spec fn spec_parse_many(s: Seq<char>) -> Result<Seq<Generation>, ParseError> {
    spec_parse_lines(spec_lines(s))
}

impl Generation {
    /// Parses one line of enumeration output.
    ///
    /// The line must hold a decimal id, a date and a time parseable as
    /// `YYYY-MM-DD HH:MM:SS`, and at most one further field, which must
    /// be the literal `(current)`.
    pub fn parse(input: &str) -> (r: Result<Generation, ParseError>)
        ensures
            r == spec_parse_line(input@),
            r is Ok ==> r->Ok_0.date.wf(),
    {
        let toks = tokenize(input);
        proof {
            assert(forall|j: int|
                0 <= j < toks@.len() ==> #[trigger] toks@[j]@ == spec_tokens(input@)[j]);
        }
        if toks.len() == 0 {
            return Err(ParseError::InvalidId);
        }
        let id = match parse_u32(toks[0]) {
            Some(v) => v,
            None => {
                return Err(ParseError::InvalidId);
            },
        };
        if toks.len() < 3 {
            return Err(ParseError::InvalidTimestamp);
        }
        let date = match parse_datetime(toks[1], toks[2]) {
            Some(d) => d,
            None => {
                return Err(ParseError::InvalidTimestamp);
            },
        };
        if toks.len() == 3 {
            Ok(Generation { id, date, current: false })
        } else if str_eq(toks[3], "(current)") {
            Ok(Generation { id, date, current: true })
        } else {
            Err(ParseError::InvalidMarker)
        }
    }

    /// Parses a whole enumeration, one generation per non-blank line.
    ///
    /// Blank lines (no fields at all) are skipped; the first line that
    /// fails decides the error, and no partial results survive it.
    pub fn parse_many(input: &str) -> (r: Result<Vec<Generation>, ParseError>)
        ensures
            r is Ok <==> spec_parse_many(input@) is Ok,
            r is Ok ==> r->Ok_0@ == spec_parse_many(input@)->Ok_0,
            r is Err ==> r->Err_0 == spec_parse_many(input@)->Err_0,
    {
        let lines = split_lines(input);
        let ghost lv = spec_lines(input@);
        proof {
            assert(forall|j: int| 0 <= j < lines@.len() ==> #[trigger] lines@[j]@ == lv[j]);
        }
        let n = lines.len();
        let mut out: Vec<Generation> = Vec::new();
        let mut i: usize = 0;
        proof {
            assert(lv.skip(0) =~= lv);
            assert(out@ =~= Seq::<Generation>::empty());
        }
        while i < n
            invariant
                i <= n,
                n == lv.len(),
                lines@.len() == lv.len(),
                forall|j: int| 0 <= j < lines@.len() ==> #[trigger] lines@[j]@ == lv[j],
                spec_parse_lines(lv) == (match spec_parse_lines(lv.skip(i as int)) {
                    Ok(gs) => Ok::<Seq<Generation>, ParseError>(out@ + gs),
                    Err(e) => Err::<Seq<Generation>, ParseError>(e),
                }),
                spec_parse_many(input@) == spec_parse_lines(lv),
            decreases n - i,
        {
            let line = lines[i];
            proof {
                assert(lv.skip(i as int)[0] == lv[i as int]);
                assert(lv.skip(i as int).drop_first() =~= lv.skip(i + 1 as int));
            }
            let toks = tokenize(line);
            if toks.len() == 0 {
                proof {
                    assert(spec_tokens(lv[i as int]).len() == 0) by {
                        assert(views_of(toks@).len() == 0);
                    }
                }
                i = i + 1;
                continue ;
            }
            proof {
                assert(spec_tokens(lv[i as int]).len() > 0) by {
                    assert(views_of(toks@).len() == toks@.len());
                }
            }
            match Generation::parse(line) {
                Ok(g) => {
                    proof {
                        assert((out@ + seq![g]) + (match spec_parse_lines(
                            lv.skip(i + 1 as int),
                        ) {
                            Ok(gs) => gs,
                            Err(_) => Seq::empty(),
                        }) =~= out@ + (seq![g] + (match spec_parse_lines(lv.skip(i + 1 as int)) {
                            Ok(gs) => gs,
                            Err(_) => Seq::empty(),
                        })));
                        assert(out@.push(g) =~= out@ + seq![g]);
                    }
                    out.push(g);
                },
                Err(e) => {
                    return Err(e);
                },
            }
            i = i + 1;
        }
        proof {
            assert(lv.skip(n as int) =~= Seq::<Seq<char>>::empty());
            assert(out@ + Seq::<Generation>::empty() =~= out@);
        }
        Ok(out)
    }
}

} // verus!
