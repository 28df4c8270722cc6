//! Parse outcomes and the record of failures that a parse leaves behind.
//!
//! Every parser takes the input bytes and a position and answers with a
//! [`Progress`]: the point it reached and either the value it built or the
//! error that stopped it. Failures that the grammar recovers from (an
//! alternative that did not match, a repetition that ended) are noted in a
//! [`Master`], which keeps the failures at the furthest point reached so far.

use vstd::prelude::*;
use crate::token::ParseError;

verus! {

/// Whether a parse built a value or failed.
#[derive(Debug)]
pub enum Status<T> {
    Success(T),
    Failure(ParseError),
}

/// Where a parse ended and how.
///
/// On success `point` is where the next parser starts; on failure it is the
/// point at which the failure was detected.
#[derive(Debug)]
pub struct Progress<P, T> {
    pub point: P,
    pub status: Status<T>,
}

impl<T: View> View for Status<T> {
    type V = Status<T::V>;

    open spec fn view(&self) -> Status<T::V> {
        match self {
            Status::Success(v) => Status::Success(v@),
            Status::Failure(e) => Status::Failure(*e),
        }
    }
}

impl<T: View> View for Progress<usize, T> {
    type V = Progress<int, T::V>;

    open spec fn view(&self) -> Progress<int, T::V> {
        Progress { point: self.point as int, status: self.status@ }
    }
}

impl<P, T> Progress<P, T> {
    pub open spec fn is_success(self) -> bool {
        self.status is Success
    }

    pub open spec fn is_failure(self) -> bool {
        self.status is Failure
    }

    pub open spec fn value(self) -> T
        recommends
            self.status is Success,
    {
        self.status->Success_0
    }

    pub open spec fn error(self) -> ParseError
        recommends
            self.status is Failure,
    {
        self.status->Failure_0
    }
}

impl<T> Progress<usize, T> {
    pub fn success(point: usize, value: T) -> (r: Self)
        ensures
            r.point == point,
            r.status == Status::<T>::Success(value),
    {
        Progress { point, status: Status::Success(value) }
    }

    pub fn failure(point: usize, error: ParseError) -> (r: Self)
        ensures
            r.point == point,
            r.status == Status::<T>::Failure(error),
    {
        Progress { point, status: Status::Failure(error) }
    }
}

/// A successful outcome in the model.
pub open spec fn ok<T>(point: int, value: T) -> Progress<int, T> {
    Progress { point, status: Status::Success(value) }
}

/// A failed outcome in the model.
pub open spec fn fail<T>(point: int, error: ParseError) -> Progress<int, T> {
    Progress { point, status: Status::Failure(error) }
}

/// The failures noted so far: the furthest point at which a failure was
/// noted, and every error noted at that point, in the order noted.
pub struct Failures {
    pub point: int,
    pub kinds: Seq<ParseError>,
}

/// The record before anything has been noted.
pub open spec fn no_failures() -> Failures {
    Failures { point: 0, kinds: Seq::empty() }
}

/// Notes one failure: one further on replaces what was there, one at the same
/// point joins it, and one further back is ignored.
pub open spec fn add_failure(f: Failures, point: int, error: ParseError) -> Failures {
    if point < f.point {
        f
    } else if point > f.point {
        Failures { point, kinds: seq![error] }
    } else {
        Failures { point, kinds: f.kinds.push(error) }
    }
}

/// Notes the failure of an outcome, if it failed.
pub open spec fn note<T>(f: Failures, r: Progress<int, T>) -> Failures {
    match r.status {
        Status::Success(_) => f,
        Status::Failure(e) => add_failure(f, r.point, e),
    }
}

/// `g` keeps what `f` had noted: its point is no earlier, and at the same
/// point the failures noted in `f` still come first.
pub open spec fn keeps(f: Failures, g: Failures) -> bool {
    &&& f.point <= g.point
    &&& f.point == g.point ==> {
        &&& f.kinds.len() <= g.kinds.len()
        &&& forall|i: int| 0 <= i < f.kinds.len() ==> #[trigger] g.kinds[i] == f.kinds[i]
    }
}

/// Noting a failure keeps what was noted before.
pub proof fn lemma_add_keeps(f: Failures, point: int, error: ParseError)
    ensures
        keeps(f, add_failure(f, point, error)),
{
}

/// Keeping is a preorder.
pub proof fn lemma_keeps_preorder(f: Failures, g: Failures, h: Failures)
    ensures
        keeps(f, f),
        keeps(f, g) && keeps(g, h) ==> keeps(f, h),
{
}

/// A parse over a text of `n` bytes keeps the record within the text when it
/// started there, and leaves it as it was when it started further on: every
/// failure a parse notes lies within the text.
pub open spec fn stays_within(f: Failures, g: Failures, n: int) -> bool {
    &&& f.point <= n ==> g.point <= n
    &&& f.point > n ==> g == f
}

/// What a finished parse reports.
#[derive(Debug)]
pub enum Finished<T> {
    /// The parse succeeded, ending at `point`.
    Parsed { point: usize, value: T },
    /// The parse failed; `point` is the furthest point at which a failure
    /// was noted and `errors` are all the failures noted there.
    Failed { point: usize, errors: Vec<ParseError> },
}

/// What finishing a parse reports, in the model.
pub enum FinishedModel<T> {
    Parsed { point: int, value: T },
    Failed { point: int, errors: Seq<ParseError> },
}

impl<T: View> View for Finished<T> {
    type V = FinishedModel<T::V>;

    open spec fn view(&self) -> FinishedModel<T::V> {
        match self {
            Finished::Parsed { point, value } => FinishedModel::Parsed {
                point: *point as int,
                value: value@,
            },
            Finished::Failed { point, errors } => FinishedModel::Failed {
                point: *point as int,
                errors: errors@,
            },
        }
    }
}

/// Finishing a parse that started with the record `f` and ended with `r`:
/// a success is reported as it is; a failure is noted and then the whole
/// record is reported, and the record starts afresh.
pub open spec fn spec_finish<T>(f: Failures, r: Progress<int, T>) -> (FinishedModel<T>, Failures) {
    match r.status {
        Status::Success(v) => (FinishedModel::Parsed { point: r.point, value: v }, f),
        Status::Failure(e) => {
            let g = add_failure(f, r.point, e);
            (FinishedModel::Failed { point: g.point, errors: g.kinds }, no_failures())
        },
    }
}

/// The record of failures that a parse keeps.
pub struct Master {
    point: usize,
    kinds: Vec<ParseError>,
}

impl View for Master {
    type V = Failures;

    closed spec fn view(&self) -> Failures {
        Failures { point: self.point as int, kinds: self.kinds@ }
    }
}

impl Master {
    /// Any failure noted leaves at least one error on record.
    #[verifier::type_invariant]
    closed spec fn inv(self) -> bool {
        self.point > 0 ==> self.kinds@.len() > 0
    }

    pub fn new() -> (m: Master)
        ensures
            m@ == no_failures(),
    {
        let m = Master { point: 0, kinds: Vec::new() };
        assert(m@.kinds =~= Seq::<ParseError>::empty());
        m
    }

    /// Notes one failure.
    pub fn add(&mut self, point: usize, error: ParseError)
        ensures
            final(self)@ == add_failure(old(self)@, point as int, error),
            keeps(old(self)@, final(self)@),
    {
        proof {
            use_type_invariant(&*self);
        }
        if point < self.point {
        } else if point > self.point {
            let mut kinds: Vec<ParseError> = Vec::new();
            kinds.push(error);
            assert(kinds@ =~= seq![error]);
            *self = Master { point, kinds };
        } else {
            let mut taken = Master::new();
            std::mem::swap(&mut taken, self);
            let Master { point: at, kinds: mut kinds } = taken;
            kinds.push(error);
            *self = Master { point: at, kinds };
        }
    }

    /// Notes the failure of an outcome, if it failed.
    pub fn consume<T: View>(&mut self, r: &Progress<usize, T>)
        ensures
            final(self)@ == note(old(self)@, r@),
            keeps(old(self)@, final(self)@),
    {
        match &r.status {
            Status::Success(_) => {},
            Status::Failure(e) => self.add(r.point, *e),
        }
    }

    /// Completes a parse: on success reports it, on failure reports every
    /// failure at the furthest point noted and starts a fresh record.
    pub fn finish<T: View>(&mut self, r: Progress<usize, T>) -> (out: Finished<T>)
        ensures
            (out@, final(self)@) == spec_finish(old(self)@, r@),
            out is Failed ==> out->Failed_errors@.len() > 0 && out->Failed_point >= r.point,
    {
        match r.status {
            Status::Success(v) => Finished::Parsed { point: r.point, value: v },
            Status::Failure(e) => {
                proof {
                    use_type_invariant(&*self);
                }
                self.add(r.point, e);
                let mut noted = Master::new();
                std::mem::swap(&mut noted, self);
                proof {
                    use_type_invariant(&noted);
                }
                let Master { point, kinds } = noted;
                Finished::Failed { point, errors: kinds }
            },
        }
    }
}

} // verus!
