use vstd::prelude::*;

use crate::classify::{field_text, text_field};
use crate::engine::ReadEngine;
use crate::errors::{BlockingError, Error};
use crate::json::Json;
use crate::scenario::first_char_at;
use crate::text::{chars_of, str_eq};
use vstd::string::StrSliceExecFns;

verus! {

/// The text of member `field` of the first event, from position `i` on, whose
/// kind is `kind`; `None` when there is no such event or the member is not a string.
pub open spec fn first_field_text(events: Seq<Json>, kind: Seq<char>, field: Seq<char>, i: int) -> Option<
    Seq<char>,
>
    decreases events.len() - i,
{
    if i < 0 || i >= events.len() {
        None
    } else if text_field(events[i], "msg"@) == Some(kind) {
        text_field(events[i], field)
    } else {
        first_field_text(events, kind, field, i + 1)
    }
}

impl ReadEngine {
    /// The text of member `field` of the oldest queued event of kind `kind`.
    pub fn first_field(&self, kind: &str, field: &str) -> (r: Option<String>)
        ensures
            match r {
                Some(s) => first_field_text(self.received_messages@, kind@, field@, 0) == Some(s@),
                None => first_field_text(self.received_messages@, kind@, field@, 0) is None,
            },
    {
        let mut i: usize = 0;
        while i < self.received_messages.len()
            invariant
                i <= self.received_messages@.len(),
                first_field_text(self.received_messages@, kind@, field@, 0) == first_field_text(
                    self.received_messages@,
                    kind@,
                    field@,
                    i as int,
                ),
            decreases self.received_messages@.len() - i,
        {
            let e = &self.received_messages[i];
            let is_kind = match field_text(e, "msg") {
                Some(k) => str_eq(k, kind),
                None => false,
            };
            if is_kind {
                return match field_text(e, field) {
                    Some(t) => Some(t.to_owned()),
                    None => None,
                };
            }
            i += 1;
        }
        None
    }
}

/// What to do next while starting a game, after waiting for the map.
#[derive(Debug, PartialEq, Eq, Structural)]
pub enum StartStep {
    /// The map came: the game runs.
    Started,
    /// The seed menu is up: type the seed.
    EnterSeed,
    /// A new-game menu is up: send the choice with this position
    /// (species, background, weapon).
    Choose(u8),
    /// Anything else: give up with the error.
    Stop,
}

/// The next step of starting a game, given how the wait for the map ended and
/// how many new-game choices were sent already.
pub fn start_game_step(outcome: &Result<(), Error>, choices_made: u8) -> (r: StartStep)
    ensures
        r == match outcome {
            Ok(()) => StartStep::Started,
            Err(Error::Blocking(BlockingError::SeedSelection)) => StartStep::EnterSeed,
            Err(Error::Blocking(BlockingError::NewGameChoice)) => if choices_made < 3 {
                StartStep::Choose(choices_made)
            } else {
                StartStep::Stop
            },
            Err(_) => StartStep::Stop,
        },
{
    match outcome {
        Ok(()) => StartStep::Started,
        Err(Error::Blocking(BlockingError::SeedSelection)) => StartStep::EnterSeed,
        Err(Error::Blocking(BlockingError::NewGameChoice)) => if choices_made < 3 {
            StartStep::Choose(choices_made)
        } else {
            StartStep::Stop
        },
        Err(_) => StartStep::Stop,
    }
}

/// The keys that confirm a seed: tab through the options to pregenerate the
/// dungeon first, or just enter.
pub fn seed_confirm_keys(pregenerate: bool) -> (r: &'static str)
    ensures
        r@ == if pregenerate {
            "\t\t\t \r"@
        } else {
            "\r"@
        },
{
    if pregenerate {
        "\t\t\t \r"
    } else {
        "\r"
    }
}


/// The pieces of `s[start..]` between the separators `c`.
pub open spec fn split_from(s: Seq<char>, c: char, start: int) -> Seq<Seq<char>>
    decreases s.len() - start,
{
    if start < 0 || start > s.len() {
        Seq::empty()
    } else {
        match first_char_at(s, c, start) {
            Some(i) => if start <= i < s.len() {
                seq![s.subrange(start, i)].add(split_from(s, c, i + 1))
            } else {
                Seq::empty()
            },
            None => seq![s.subrange(start, s.len() as int)],
        }
    }
}

/// The game id in a piece of the game list: what comes before the first
/// quote, without its first five characters (the `play/` of the link).
pub open spec fn game_id_in(piece: Seq<char>) -> Seq<char> {
    let upto = match first_char_at(piece, '"', 0) {
        Some(i) => piece.take(i),
        None => piece,
    };
    if upto.len() >= 5 {
        upto.skip(5)
    } else {
        Seq::empty()
    }
}

proof fn lemma_first_char_at_bounds(s: Seq<char>, c: char, i: int)
    requires
        0 <= i,
    ensures
        first_char_at(s, c, i) matches Some(j) ==> i <= j < s.len() && s[j] == c && forall|k: int|
            i <= k < j ==> s[k] != c,
        first_char_at(s, c, i) is None ==> forall|k: int| i <= k < s.len() ==> s[k] != c,
    decreases s.len() - i,
{
    if 0 <= i < s.len() && s[i] != c {
        lemma_first_char_at_bounds(s, c, i + 1);
    }
}

/// The game ids of the lobby's game list: the pieces after each `#`, each cut
/// at its first quote and stripped of its first five characters (pieces too
/// short for that give an empty id).
pub fn process_playable_game(game_list_html: &str) -> (r: Vec<String>)
    ensures
        r@.len() + 1 == split_from(game_list_html@, '#', 0).len(),
        forall|k: int| 0 <= k < r@.len() ==> (#[trigger] r@[k])@ == game_id_in(split_from(game_list_html@, '#', 0)[k + 1]),
{
    let cs = chars_of(game_list_html);
    let n = cs.len();
    let ghost s = game_list_html@;
    let mut out: Vec<String> = Vec::new();
    let mut start: usize = 0;
    let mut first = true;
    let ghost mut done: Seq<Seq<char>> = Seq::empty();
    loop
        invariant
            s == game_list_html@,
            cs@ == s,
            n == s.len(),
            start <= n,
            split_from(s, '#', 0) == done + split_from(s, '#', start as int),
            first == (done.len() == 0),
            first ==> start == 0,
            out@.len() + 1 == done.len() || (first && out@.len() == 0),
            forall|k: int| 0 <= k < out@.len() ==> (#[trigger] out@[k])@ == game_id_in(done[k + 1]),
        decreases n - start,
    {
        let mut j = start;
        while j < n && cs[j] != '#'
            invariant
                cs@ == s,
                n == s.len(),
                start <= j <= n,
                first_char_at(s, '#', start as int) == first_char_at(s, '#', j as int),
            decreases n - j,
        {
            j += 1;
        }
        proof {
            lemma_first_char_at_bounds(s, '#', start as int);
        }
        let ghost piece = s.subrange(start as int, j as int);
        if !first {
            let mut k = start;
            while k < j && cs[k] != '"'
                invariant
                    cs@ == s,
                    n == s.len(),
                    start <= k <= j <= n,
                    forall|m: int| start <= m < k ==> s[m] != '"',
                decreases j - k,
            {
                k += 1;
            }
            proof {
                lemma_first_char_at_bounds(piece, '"', 0);
                if k < j {
                    assert(piece[k - start] == '"');
                    assert(first_char_at(piece, '"', 0) == Some(k - start)) by {
                        lemma_first_char_at_unique(piece, '"', 0, k - start);
                    }
                    assert(piece.take(k - start) =~= s.subrange(start as int, k as int));
                } else {
                    assert forall|m: int| 0 <= m < piece.len() implies piece[m] != '"' by {
                        assert(piece[m] == s[start + m]);
                    }
                    assert(first_char_at(piece, '"', 0) is None) by {
                        lemma_first_char_at_none(piece, '"', 0);
                    }
                    assert(piece =~= s.subrange(start as int, k as int));
                }
            }
            let ghost upto = s.subrange(start as int, k as int);
            assert(game_id_in(piece) == if upto.len() >= 5 { upto.skip(5) } else { Seq::<char>::empty() });
            let id = if k - start >= 5 {
                let t = game_list_html.substring_char(start + 5, k);
                proof {
                    assert(upto.skip(5) =~= s.subrange(start + 5, k as int));
                }
                t.to_owned()
            } else {
                String::new()
            };
            assert(id@ == game_id_in(piece));
            let ghost before = out@;
            out.push(id);
            assert forall|m: int| 0 <= m < out@.len() implies (#[trigger] out@[m])@ == game_id_in(done.push(piece)[m + 1]) by {
                if m < before.len() {
                    assert(out@[m] == before[m]);
                    assert(done.push(piece)[m + 1] == done[m + 1]);
                } else {
                    assert(done.push(piece)[m + 1] == piece);
                }
            }
        }
        proof {
            if j < n {
                assert(split_from(s, '#', start as int) == seq![piece].add(split_from(s, '#', j + 1)));
                assert(done + split_from(s, '#', start as int) =~= done.push(piece) + split_from(s, '#', j + 1));
            } else {
                assert(split_from(s, '#', start as int) == seq![piece]);
            }
            done = done.push(piece);
        }
        if j == n {
            assert(split_from(s, '#', 0) =~= done);
            return out;
        }
        first = false;
        start = j + 1;
    }
}

proof fn lemma_first_char_at_unique(s: Seq<char>, c: char, i: int, j: int)
    requires
        0 <= i <= j < s.len(),
        s[j] == c,
        forall|k: int| i <= k < j ==> s[k] != c,
    ensures
        first_char_at(s, c, i) == Some(j),
    decreases j - i,
{
    if i < j {
        lemma_first_char_at_unique(s, c, i + 1, j);
    }
}

proof fn lemma_first_char_at_none(s: Seq<char>, c: char, i: int)
    requires
        0 <= i,
        forall|k: int| i <= k < s.len() ==> s[k] != c,
    ensures
        first_char_at(s, c, i) is None,
    decreases s.len() - i,
{
    if i < s.len() {
        lemma_first_char_at_none(s, c, i + 1);
    }
}

}
