//! The closed-form first guess: which candidates it is made from, and what
//! its quadratic decides.
use crate::candidate::{Candidate, CandidateView, Observable};
use crate::error::Error;
use crate::orbit::Vector3;
use crate::scalar::Scalar;
use crate::time::Duration;
use vstd::prelude::*;

verus! {

/// What one vehicle brings to the first guess.
#[derive(Clone, Copy, Debug, PartialEq, Eq, Structural)]
pub struct Sighting {
    /// Position of the vehicle, in meters
    pub position: Vector3,
    /// The preferred pseudo range, in meters
    pub range_m: Scalar,
    /// Correction of the clock on board
    pub clock: Duration,
    /// Total group delay of the vehicle, where it is known
    pub tgd: Option<Duration>,
}

/// The four sightings that the first guess is made from.
#[derive(Clone, Copy, Debug, PartialEq, Eq)]
pub struct Bancroft {
    pub sightings: [Sighting; 4],
}

/// How many roots the quadratic of the first guess has.
#[derive(Clone, Copy, Debug, PartialEq, Eq, Structural)]
pub enum Roots {
    /// Two roots: the one that stands closer to the surface of the Earth is taken
    Two,
    /// One root
    One,
}

/// The candidate can serve the first guess: its state, a pseudo range and
/// its clock correction are known.
pub open spec fn resolved(cd: CandidateView) -> bool {
    cd.orbit is Some && !cd.lacks(Observable::PseudoRange) && cd.clock_corr is Some
}

/// What `cd` brings to the first guess.
pub open spec fn sighting_of(cd: CandidateView) -> Sighting {
    Sighting {
        position: cd.orbit->0.position,
        range_m: cd.preferred()->0.pseudo_range_m->0,
        clock: cd.clock_corr->0.duration,
        tgd: cd.tgd,
    }
}

/// The candidates that can serve the first guess.
pub open spec fn serving() -> spec_fn(CandidateView) -> bool {
    |cd: CandidateView| resolved(cd)
}

/// What each candidate brings to the first guess.
pub open spec fn sighting() -> spec_fn(CandidateView) -> Sighting {
    |cd: CandidateView| sighting_of(cd)
}

/// The sightings of the candidates of `pool` that can serve the first guess, in their order.
pub open spec fn sightings(pool: Seq<CandidateView>) -> Seq<Sighting> {
    pool.filter(serving()).map_values(sighting())
}

impl Bancroft {
    /// Picks the sightings of the first guess: those of the first four
    /// candidates whose state, pseudo range and clock correction are known.
    /// It fails where fewer than four candidates can serve.
    pub fn new(pool: &Vec<Candidate>) -> (r: Result<Self, Error>)
        ensures
            sightings(crate::pool::views(pool@)).len() < 4 ==> r == Err::<Self, Error>(
                Error::BancroftError,
            ),
            pool@.len() < 4 ==> r == Err::<Self, Error>(Error::BancroftError),
            sightings(crate::pool::views(pool@)).len() >= 4 ==> (r matches Ok(guess)
                && guess.sightings@ == sightings(crate::pool::views(pool@)).subrange(0, 4)),
    {
        let n: usize = pool.len();
        let ghost all = crate::pool::views(pool@);
        let mut found: Vec<Sighting> = Vec::new();
        let mut k: usize = 0;
        assert(all.subrange(0, 0) =~= Seq::<CandidateView>::empty());
        assert(sightings(all.subrange(0, 0)) =~= Seq::<Sighting>::empty()) by {
            reveal(Seq::filter);
        }
        while k < n && found.len() < 4
            invariant
                n == pool@.len(),
                all == crate::pool::views(pool@),
                k <= n,
                found@.len() <= 4,
                found@ == sightings(all.subrange(0, k as int)),
            decreases n - k,
        {
            let cd = &pool[k];
            proof {
                reveal(Seq::filter);
                let grown = all.subrange(0, k + 1);
                assert(grown.drop_last() =~= all.subrange(0, k as int));
                assert(grown.last() == cd@);
                let before = all.subrange(0, k as int).filter(serving());
                if resolved(cd@) {
                    assert(grown.filter(serving()) == before.push(cd@));
                    assert(sightings(grown) =~= sightings(all.subrange(0, k as int)).push(
                        sighting_of(cd@),
                    ));
                } else {
                    assert(grown.filter(serving()) == before);
                }
            }
            if let Some(state) = cd.orbit {
                if let Some(o) = cd.best_snr_pseudorange() {
                    if let Some(range_m) = o.pseudo_range_m {
                        if let Some(corr) = cd.clock_corr {
                            found.push(
                                Sighting {
                                    position: state.position,
                                    range_m,
                                    clock: corr.duration,
                                    tgd: cd.tgd,
                                },
                            );
                        }
                    }
                }
            }
            k += 1;
        }
        proof {
            lemma_sightings_grow(all, k as int);
            all.lemma_filter_len(serving());
        }
        if found.len() < 4 {
            assert(all.subrange(0, n as int) =~= all);
            return Err(Error::BancroftError);
        }
        assert(found@ =~= sightings(all).subrange(0, 4));
        Ok(Bancroft { sightings: [found[0], found[1], found[2], found[3]] })
    }

    /// What the quadratic of the first guess decides. `discriminant` is
    /// its discriminant, or nothing where the matrix of the sightings could
    /// not be inverted, in which case the first guess fails. Else there are
    /// two roots where the discriminant is above zero, none where it is
    /// below, one otherwise.
    pub open spec fn decided(discriminant: Option<Scalar>) -> Result<Roots, Error> {
        match discriminant {
            None => Err(Error::BancroftError),
            Some(delta) => if (Scalar { bits: 0 }).lt_spec(delta) {
                Ok(Roots::Two)
            } else if delta.lt_spec(Scalar { bits: 0 }) {
                Err(Error::BancroftImaginarySolution)
            } else {
                Ok(Roots::One)
            },
        }
    }

    /// What the quadratic of the first guess decides, where `discriminant`
    /// is its discriminant, or nothing where the matrix of the sightings
    /// could not be inverted.
    pub fn roots(discriminant: Option<Scalar>) -> (r: Result<Roots, Error>)
        ensures
            r == Bancroft::decided(discriminant),
    {
        let delta = match discriminant {
            Some(delta) => delta,
            None => {
                return Err(Error::BancroftError);
            },
        };
        let zero = Scalar::zero();
        if zero.lt(&delta) {
            Ok(Roots::Two)
        } else if delta.lt(&zero) {
            Err(Error::BancroftImaginarySolution)
        } else {
            Ok(Roots::One)
        }
    }

    /// Of two roots, whether the first is the one to take, given how far
    /// from the surface of the Earth each one stands: it is where it stands
    /// closer.
    pub fn first_is_nearest(first: Scalar, second: Scalar) -> (r: bool)
        ensures
            r == first.lt_spec(second),
    {
        first.lt(&second)
    }
}

/// The sightings of a part of the pool are the first of the sightings of the pool.
proof fn lemma_sightings_grow(pool: Seq<CandidateView>, upto: int)
    requires
        0 <= upto <= pool.len(),
    ensures
        sightings(pool.subrange(0, upto)).len() <= sightings(pool).len(),
        sightings(pool.subrange(0, upto)) == sightings(pool).subrange(
            0,
            sightings(pool.subrange(0, upto)).len() as int,
        ),
    decreases pool.len() - upto,
{
    if upto < pool.len() {
        reveal(Seq::filter);
        let grown = pool.subrange(0, upto + 1);
        assert(grown.drop_last() =~= pool.subrange(0, upto));
        lemma_sightings_grow(pool, upto + 1);
        assert(sightings(pool.subrange(0, upto)) =~= sightings(pool).subrange(
            0,
            sightings(pool.subrange(0, upto)).len() as int,
        ));
    } else {
        assert(pool.subrange(0, upto) =~= pool);
        assert(sightings(pool) =~= sightings(pool).subrange(0, sightings(pool).len() as int));
    }
}

} // verus!
