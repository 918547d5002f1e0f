//! A polynomial commitment scheme that does no work: every commitment,
//! opening and proof is the unit value, and every operation succeeds. It
//! stands in for a real scheme where a protocol is exercised without the cost
//! of one.
use vstd::prelude::*;

verus! {

/// The security level a scheme is set up for.
#[derive(Clone, Copy, Debug, PartialEq, Eq, Structural)]
pub enum SecurityLevel {
    Conjecture100bits,
}

/// The errors of a commitment scheme. The mock scheme never returns one.
#[derive(Debug)]
pub enum Error {
    /// Parameters that the scheme cannot work with.
    InvalidPcsParam(String),
}

/// Parameters of a FRI-based scheme: the proof-of-work bits asked for at a
/// level of the strategy `S`.
pub trait PCSFriParam {
    fn get_pow_bits_by_level<S>(&self, pow_strategy: S) -> usize;
}

impl PCSFriParam for () {
    /// The unit parameters ask for one bit of proof of work at every level.
    fn get_pow_bits_by_level<S>(&self, _pow_strategy: S) -> (r: usize)
        ensures
            r == 1,
    {
        1
    }
}

/// The mock commitment scheme over the extension field `E`.
#[derive(Debug)]
pub struct MockPcs<E> {
    _marker: core::marker::PhantomData<E>,
}

impl<E> Clone for MockPcs<E> {
    fn clone(&self) -> (r: Self)
        ensures
            r == *self,
    {
        MockPcs { _marker: core::marker::PhantomData }
    }
}

impl<E> MockPcs<E> {
    /// The public parameters for polynomials of `poly_size` coefficients.
    pub fn setup(_poly_size: usize, _security_level: SecurityLevel) -> (r: Result<(), Error>)
        ensures
            r == Ok::<(), Error>(()),
    {
        Ok(())
    }

    /// The prover's and the verifier's parameters, cut from the public ones.
    pub fn trim(_param: (), _poly_size: usize) -> (r: Result<((), ()), Error>)
        ensures
            r == Ok::<((), ()), Error>(((), ())),
    {
        Ok(((), ()))
    }

    /// Commits to the columns of a matrix `rmm`.
    pub fn commit<M>(_pp: &(), _rmm: M) -> (r: Result<(), Error>)
        ensures
            r == Ok::<(), Error>(()),
    {
        Ok(())
    }

    /// Commits to the columns of several matrices at once.
    pub fn batch_commit<M>(_pp: &(), _rmms: Vec<M>) -> (r: Result<(), Error>)
        ensures
            r == Ok::<(), Error>(()),
    {
        Ok(())
    }

    /// Proves the evaluation `eval` of the committed polynomial `poly` at
    /// `point`; the transcript is left as it was.
    pub fn open<P, T>(
        _pp: &(),
        _poly: &P,
        _comm: &(),
        _point: &[E],
        _eval: &E,
        transcript: &mut T,
    ) -> (r: Result<(), Error>)
        ensures
            r == Ok::<(), Error>(()),
            *final(transcript) == *old(transcript),
    {
        Ok(())
    }

    /// Checks an evaluation proof; every proof is accepted and the transcript
    /// is left as it was.
    pub fn verify<T>(
        _vp: &(),
        _comm: &(),
        _point: &[E],
        _eval: &E,
        _proof: &(),
        transcript: &mut T,
    ) -> (r: Result<(), Error>)
        ensures
            r == Ok::<(), Error>(()),
            *final(transcript) == *old(transcript),
    {
        Ok(())
    }

    /// Writes a commitment into the transcript; the mock commitment carries
    /// nothing, so the transcript is left as it was.
    pub fn write_commitment<T>(_comm: &(), transcript: &mut T) -> (r: Result<(), Error>)
        ensures
            r == Ok::<(), Error>(()),
            *final(transcript) == *old(transcript),
    {
        Ok(())
    }

    /// The commitment without the prover's witness data.
    pub fn get_pure_commitment(_comm: &()) -> (r: ())
        ensures
            r == (),
    {
        ()
    }

    /// Proves evaluations for several committed rounds, each a list of
    /// points with the values claimed there.
    pub fn batch_open<T>(
        _pp: &(),
        _rounds: Vec<(&(), Vec<(Vec<E>, Vec<E>)>)>,
        transcript: &mut T,
    ) -> (r: Result<(), Error>)
        ensures
            r == Ok::<(), Error>(()),
            *final(transcript) == *old(transcript),
    {
        Ok(())
    }

    /// Proves the evaluations `evals` of the polynomials `polys`, all
    /// committed together, at one `point`.
    pub fn simple_batch_open<P, T>(
        _pp: &(),
        _polys: &[P],
        _comm: &(),
        _point: &[E],
        _evals: &[E],
        transcript: &mut T,
    ) -> (r: Result<(), Error>)
        ensures
            r == Ok::<(), Error>(()),
            *final(transcript) == *old(transcript),
    {
        Ok(())
    }

    /// Checks a proof for several committed rounds, each a list of
    /// (number of variables, (point, values)); every proof is accepted.
    pub fn batch_verify<T>(
        _vp: &(),
        _rounds: Vec<((), Vec<(usize, (Vec<E>, Vec<E>))>)>,
        _proof: &(),
        transcript: &mut T,
    ) -> (r: Result<(), Error>)
        ensures
            r == Ok::<(), Error>(()),
            *final(transcript) == *old(transcript),
    {
        Ok(())
    }

    /// Checks a proof of evaluations of polynomials committed together at one
    /// point; every proof is accepted.
    pub fn simple_batch_verify<T>(
        _vp: &(),
        _comm: &(),
        _point: &[E],
        _evals: &[E],
        _proof: &(),
        transcript: &mut T,
    ) -> (r: Result<(), Error>)
        ensures
            r == Ok::<(), Error>(()),
            *final(transcript) == *old(transcript),
    {
        Ok(())
    }

    /// The committed polynomials that a commitment carries: none.
    pub fn get_arc_mle_witness_from_commitment<P>(_commitment: &()) -> (r: Vec<P>)
        ensures
            r@.len() == 0,
    {
        Vec::new()
    }
}

} // verus!
