use rand::distr::Distribution;
use vstd::prelude::*;

verus! {

/// The keys of a room's two seats, white's first, and when they were given
/// to a match.
#[derive(Clone, Copy, Debug)]
pub struct Keys {
    pub keys: [u64; 2],
    pub timestamp: u64,
}

/// How far the keys of a room are drawn.
#[derive(Clone, Copy, Debug, PartialEq, Eq, Structural)]
pub enum KeyDraws {
    /// Nothing was drawn.
    Start,
    /// White's key was drawn, and black's has to be, for the first time or
    /// again.
    White { white_key: u64 },
    /// Both keys were drawn, and nothing more has to be.
    Done { white_key: u64, black_key: u64 },
}

impl KeyDraws {
    /// What a number that is drawn next makes of it. The first one is white's
    /// key for good; the first one after it that differs is black's, and those
    /// before it are passed over.
    pub open spec fn then_drawn(self, draw: u64) -> KeyDraws {
        match self {
            KeyDraws::Start => KeyDraws::White { white_key: draw },
            KeyDraws::White { white_key } => if draw != white_key {
                KeyDraws::Done { white_key, black_key: draw }
            } else {
                KeyDraws::White { white_key }
            },
            KeyDraws::Done { .. } => self,
        }
    }

    /// What these draws make of it, one after the other.
    pub open spec fn after(self, draws: Seq<u64>) -> KeyDraws
        decreases draws.len(),
    {
        if draws.len() == 0 {
            self
        } else {
            self.after(draws.drop_last()).then_drawn(draws.last())
        }
    }

    /// These keys can come of it: there are draws that lead to them.
    pub open spec fn leads_to(self, keys: Seq<u64>) -> bool {
        exists|draws: Seq<u64>|
            #[trigger] self.after(draws) == (KeyDraws::Done {
                white_key: keys[0],
                black_key: keys[1],
            })
    }

    /// Takes the number that was drawn next.
    pub fn next(self, draw: u64) -> (drawn: KeyDraws)
        ensures
            drawn == self.then_drawn(draw),
    {
        match self {
            KeyDraws::Start => KeyDraws::White { white_key: draw },
            KeyDraws::White { white_key } => if draw != white_key {
                KeyDraws::Done { white_key, black_key: draw }
            } else {
                KeyDraws::White { white_key }
            },
            KeyDraws::Done { .. } => self,
        }
    }
}

/// `rand::Rng::sample` on the generator that `rand::rng` gives, of
/// `rand::distr::StandardUniform` through `Distribution::map`: one number is
/// drawn and handed to `go_on`, whose result is the result. Which number it is
/// is left to chance, so only what `go_on` promises for every number is
/// claimed here. Where the draws have to go on, `go_on` comes back to this
/// function, as often as it takes.
#[verifier::external_body]
fn draw_next(drawn: KeyDraws) -> (keys: [u64; 2])
    ensures
        exists|draw: u64| #[trigger] drawn.then_drawn(draw).leads_to(keys@),
{
    let draws = rand::distr::StandardUniform.map(|draw: u64| go_on(drawn, draw));
    rand::Rng::sample(&mut rand::rng(), draws)
}

/// The keys of a room, once this number was drawn: where they are complete,
/// nothing more is drawn.
pub fn go_on(drawn: KeyDraws, draw: u64) -> (keys: [u64; 2])
    ensures
        drawn.then_drawn(draw).leads_to(keys@),
        drawn.then_drawn(draw) matches KeyDraws::White { white_key } ==> keys[0] == white_key,
        drawn.then_drawn(draw) matches KeyDraws::Done { white_key, black_key } ==> keys@ == seq![
            white_key,
            black_key,
        ],
        keys[0] != keys[1] || drawn is Done,
{
    let next: KeyDraws = drawn.next(draw);
    if let KeyDraws::Done { white_key, black_key } = next {
        assert(next.after(Seq::empty()) == next);
        [white_key, black_key]
    } else {
        let keys = draw_next(next);
        proof {
            let more = choose|more: u64| #[trigger] next.then_drawn(more).leads_to(keys@);
            lemma_draws_lead_on(next, more, keys@);
            lemma_what_keys_come(next, keys@);
        }
        keys
    }
}

/// Draws the keys of a room. White's is drawn once; black's is drawn until it
/// differs from white's.
pub fn generate_chess_keys() -> (keys: [u64; 2])
    ensures
        KeyDraws::Start.leads_to(keys@),
        keys[0] != keys[1],
{
    let keys = draw_next(KeyDraws::Start);
    proof {
        let draw = choose|draw: u64| #[trigger]
            KeyDraws::Start.then_drawn(draw).leads_to(keys@);
        lemma_draws_lead_on(KeyDraws::Start, draw, keys@);
        lemma_what_keys_come(KeyDraws::Start, keys@);
    }
    keys
}

/// A draw ahead of others is a draw.
proof fn lemma_draw_ahead(drawn: KeyDraws, draw: u64, draws: Seq<u64>)
    ensures
        drawn.after(seq![draw] + draws) == drawn.then_drawn(draw).after(draws),
    decreases draws.len(),
{
    let all = seq![draw] + draws;
    if draws.len() == 0 {
        assert(all.drop_last() =~= Seq::<u64>::empty());
        assert(drawn.after(all.drop_last()) == drawn);
        assert(all.last() == draw);
    } else {
        lemma_draw_ahead(drawn, draw, draws.drop_last());
        assert(all.drop_last() =~= seq![draw] + draws.drop_last());
        assert(all.last() == draws.last());
    }
}

/// What comes of a further draw comes of what was drawn.
proof fn lemma_draws_lead_on(drawn: KeyDraws, draw: u64, keys: Seq<u64>)
    requires
        drawn.then_drawn(draw).leads_to(keys),
    ensures
        drawn.leads_to(keys),
{
    let done = KeyDraws::Done { white_key: keys[0], black_key: keys[1] };
    let draws = choose|draws: Seq<u64>| #[trigger] drawn.then_drawn(draw).after(draws) == done;
    lemma_draw_ahead(drawn, draw, draws);
    assert(drawn.after(seq![draw] + draws) == done);
}

/// White's key, once drawn, stays; what is complete stays as it is; and no
/// draws make the keys equal.
proof fn lemma_draws_keep(drawn: KeyDraws, draws: Seq<u64>)
    ensures
        drawn is Done ==> drawn.after(draws) == drawn,
        drawn matches KeyDraws::White { white_key } ==> match drawn.after(draws) {
            KeyDraws::Start => false,
            KeyDraws::White { white_key: kept } => kept == white_key,
            KeyDraws::Done { white_key: kept, black_key } => kept == white_key && black_key
                != white_key,
        },
        drawn is Start ==> (drawn.after(draws) matches KeyDraws::Done { white_key, black_key }
            ==> white_key != black_key),
    decreases draws.len(),
{
    if draws.len() > 0 {
        lemma_draws_keep(drawn, draws.drop_last());
    }
}

/// What holds of all keys that can come of the draws so far.
proof fn lemma_what_keys_come(drawn: KeyDraws, keys: Seq<u64>)
    requires
        drawn.leads_to(keys),
    ensures
        drawn matches KeyDraws::White { white_key } ==> keys[0] == white_key,
        drawn !is Done ==> keys[0] != keys[1],
{
    let done = KeyDraws::Done { white_key: keys[0], black_key: keys[1] };
    let draws = choose|draws: Seq<u64>| #[trigger] drawn.after(draws) == done;
    lemma_draws_keep(drawn, draws);
}

/// White's key is the first draw and is never drawn again. Black's is the
/// first draw that differs from it: as long as there is none, the next number
/// has to be drawn, and once there is one, no further number counts.
pub proof fn law_only_black_is_redrawn(draws: Seq<u64>, n: int)
    requires
        1 <= n < draws.len(),
        forall|i: int| 0 < i < n ==> #[trigger] draws[i] == draws[0],
        draws[n] != draws[0],
    ensures
        forall|m: int|
            1 <= m <= n ==> #[trigger] KeyDraws::Start.after(draws.take(m)) == (KeyDraws::White {
                white_key: draws[0],
            }),
        forall|m: int|
            n < m <= draws.len() ==> #[trigger] KeyDraws::Start.after(draws.take(m))
                == (KeyDraws::Done { white_key: draws[0], black_key: draws[n] }),
{
    assert forall|m: int| 1 <= m <= draws.len() implies #[trigger] KeyDraws::Start.after(
        draws.take(m),
    ) == if m <= n {
        KeyDraws::White { white_key: draws[0] }
    } else {
        KeyDraws::Done { white_key: draws[0], black_key: draws[n] }
    } by {
        lemma_draws_so_far(draws, n, m);
    }
}

/// Where the keys stand after the first draws.
proof fn lemma_draws_so_far(draws: Seq<u64>, n: int, m: int)
    requires
        1 <= n < draws.len(),
        forall|i: int| 0 < i < n ==> #[trigger] draws[i] == draws[0],
        draws[n] != draws[0],
        1 <= m <= draws.len(),
    ensures
        KeyDraws::Start.after(draws.take(m)) == if m <= n {
            KeyDraws::White { white_key: draws[0] }
        } else {
            KeyDraws::Done { white_key: draws[0], black_key: draws[n] }
        },
    decreases m,
{
    let first = draws.take(m);
    assert(first.drop_last() =~= draws.take(m - 1));
    assert(first.last() == draws[m - 1]);
    if m == 1 {
        assert(first.drop_last() =~= Seq::<u64>::empty());
        assert(KeyDraws::Start.after(first.drop_last()) == KeyDraws::Start);
    } else {
        lemma_draws_so_far(draws, n, m - 1);
    }
}

} // verus!
