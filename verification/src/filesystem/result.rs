//! Results of filesystem operations, with the events they trigger.

use vstd::prelude::*;
use super::types::{ErrorCode, ExplicitEventId, Missing, WaitFor};

verus! {

/// IoResult without events
#[derive(Debug)]
pub enum IoResultPure<T> {
    /// The operation was successful
    Success(T),
    /// Repeat the io operation after the specified condition is fullfilled.
    RepeatAfter(WaitFor),
    /// An actual error
    Error(ErrorCode),
}

/// IO operation result, and associated event triggers
#[derive(Debug)]
pub struct IoResult<T> {
    pub inner: IoResultPure<T>,
    pub events: Vec<ExplicitEventId>,
}

impl<T> IoResultPure<T> {
    /// The same failure at another value type. Success has no such form.
    pub fn erase_type<N>(self) -> (r: IoResultPure<N>)
        requires
            !(self is Success),
        ensures
            self matches IoResultPure::RepeatAfter(w) ==> r == IoResultPure::<N>::RepeatAfter(w),
            self matches IoResultPure::Error(e) ==> r == IoResultPure::<N>::Error(e),
    {
        match self {
            IoResultPure::Success(_) => unreached(),
            IoResultPure::RepeatAfter(wf) => IoResultPure::RepeatAfter(wf),
            IoResultPure::Error(ec) => IoResultPure::Error(ec),
        }
    }

    /// Unwraps a result, yielding the content of Success
    pub fn unwrap(self) -> (r: T)
        requires
            self is Success,
        ensures
            self == IoResultPure::<T>::Success(r),
    {
        match self {
            IoResultPure::Success(t) => t,
            _ => unreached(),
        }
    }

    /// Unwraps a result, yielding the contents of Success
    pub fn expect(self, msg: &str) -> (r: T)
        requires
            self is Success,
        ensures
            self == IoResultPure::<T>::Success(r),
    {
        self.unwrap()
    }

    /// A success as its value; any other result as itself at the type
    /// `Missing`.
    pub fn into_result(self) -> (r: Result<T, IoResultPure<Missing>>)
        ensures
            self matches IoResultPure::Success(v) ==> r matches Ok(x) && x == v,
            self matches IoResultPure::RepeatAfter(w) ==> r matches Err(e) && e == IoResultPure::<Missing>::RepeatAfter(w),
            self matches IoResultPure::Error(c) ==> r matches Err(e) && e == IoResultPure::<Missing>::Error(c),
    {
        match self {
            IoResultPure::Success(v) => Ok(v),
            IoResultPure::RepeatAfter(w) => Err(IoResultPure::RepeatAfter(w)),
            IoResultPure::Error(c) => Err(IoResultPure::Error(c)),
        }
    }

    /// The success of `v`.
    pub fn from_ok(v: T) -> (r: Self)
        ensures
            r == IoResultPure::<T>::Success(v),
    {
        IoResultPure::Success(v)
    }

    /// A failure at this value type.
    pub fn from_error(error: IoResultPure<Missing>) -> (r: Self)
        requires
            !(error is Success),
        ensures
            error matches IoResultPure::RepeatAfter(w) ==> r == IoResultPure::<T>::RepeatAfter(w),
            error matches IoResultPure::Error(c) ==> r == IoResultPure::<T>::Error(c),
    {
        error.erase_type()
    }

    /// Whether the operation succeeded.
    pub fn is_success(&self) -> (r: bool)
        ensures
            r == self is Success,
    {
        match self {
            IoResultPure::Success(_) => true,
            _ => false,
        }
    }
}

impl<T> IoResult<T> {
    pub fn success(value: T) -> (r: Self)
        ensures
            r.inner == IoResultPure::<T>::Success(value),
            r.events@.len() == 0,
    {
        Self { inner: IoResultPure::Success(value), events: Vec::new() }
    }

    pub fn error(ecode: ErrorCode) -> (r: Self)
        ensures
            r.inner == IoResultPure::<T>::Error(ecode),
            r.events@.len() == 0,
    {
        Self { inner: IoResultPure::Error(ecode), events: Vec::new() }
    }

    pub fn repeat_after(event: WaitFor) -> (r: Self)
        ensures
            r.inner == IoResultPure::<T>::RepeatAfter(event),
            r.events@.len() == 0,
    {
        Self { inner: IoResultPure::RepeatAfter(event), events: Vec::new() }
    }

    pub fn is_success(&self) -> (r: bool)
        ensures
            r == self.inner is Success,
    {
        self.inner.is_success()
    }

    /// Whether the event list is empty.
    pub fn has_events(&self) -> (r: bool)
        ensures
            r == (self.events@.len() == 0),
    {
        self.events.len() == 0
    }

    /// Applies `f` to a success value, keeping failures and events.
    pub fn map<N, F: FnOnce(T) -> N>(self, f: F) -> (r: IoResult<N>)
        requires
            self.inner matches IoResultPure::Success(v) ==> f.requires((v,)),
        ensures
            r.events@ == self.events@,
            self.inner matches IoResultPure::Success(v) ==> (r.inner matches IoResultPure::Success(
                n,
            ) && f.ensures((v,), n)),
            self.inner matches IoResultPure::RepeatAfter(w) ==> r.inner
                == IoResultPure::<N>::RepeatAfter(w),
            self.inner matches IoResultPure::Error(e) ==> r.inner == IoResultPure::<N>::Error(e),
    {
        IoResult {
            inner: match self.inner {
                IoResultPure::Success(v) => IoResultPure::Success(f(v)),
                IoResultPure::RepeatAfter(wf) => IoResultPure::RepeatAfter(wf),
                IoResultPure::Error(ec) => IoResultPure::Error(ec),
            },
            events: self.events,
        }
    }

    /// The same failure at another value type, with the same events.
    pub fn erase_type<N>(self) -> (r: IoResult<N>)
        requires
            !(self.inner is Success),
        ensures
            r.events@ == self.events@,
            self.inner matches IoResultPure::RepeatAfter(w) ==> r.inner
                == IoResultPure::<N>::RepeatAfter(w),
            self.inner matches IoResultPure::Error(e) ==> r.inner == IoResultPure::<N>::Error(e),
    {
        IoResult { inner: self.inner.erase_type(), events: self.events }
    }

    /// Adds an event to trigger.
    pub fn with_event(self, event: ExplicitEventId) -> (r: Self)
        ensures
            r.inner == self.inner,
            r.events@ == self.events@.push(event),
    {
        let mut s = self;
        s.events.push(event);
        s
    }

    /// Adds events to trigger, in order.
    pub fn with_events(self, events: Vec<ExplicitEventId>) -> (r: Self)
        ensures
            r.inner == self.inner,
            r.events@ == self.events@ + events@,
    {
        let mut s = self;
        let mut more = events;
        s.events.append(&mut more);
        s
    }

    /// Splits the result from its events.
    pub fn separate_events(self) -> (r: (IoResultPure<T>, Vec<ExplicitEventId>))
        ensures
            r.0 == self.inner,
            r.1@ == self.events@,
    {
        (self.inner, self.events)
    }

    /// Unwraps a result without events, yielding the content of Success
    pub fn unwrap(self) -> (r: T)
        requires
            self.events@.len() == 0,
            self.inner is Success,
        ensures
            self.inner == IoResultPure::<T>::Success(r),
    {
        self.inner.unwrap()
    }

    /// Unwraps a result without events, yielding the contents of Success
    pub fn expect(self, msg: &str) -> (r: T)
        requires
            self.events@.len() == 0,
            self.inner is Success,
        ensures
            self.inner == IoResultPure::<T>::Success(r),
    {
        self.inner.unwrap()
    }

    /// The result of an operation that triggered no events.
    pub fn expect_events(self, msg: &str) -> (r: IoResultPure<T>)
        requires
            self.events@.len() == 0,
        ensures
            r == self.inner,
    {
        self.inner
    }

    /// A success as its value and events; any other result as itself, with
    /// its events, at the type `Missing`.
    pub fn into_result(self) -> (r: Result<(T, Vec<ExplicitEventId>), IoResult<Missing>>)
        ensures
            self.inner matches IoResultPure::Success(v) ==> r matches Ok(x) && x.0 == v && x.1@ == self.events@,
            self.inner matches IoResultPure::RepeatAfter(w) ==> r matches Err(e) && e.inner == IoResultPure::<Missing>::RepeatAfter(w) && e.events@ == self.events@,
            self.inner matches IoResultPure::Error(c) ==> r matches Err(e) && e.inner == IoResultPure::<Missing>::Error(c) && e.events@ == self.events@,
    {
        match self.inner {
            IoResultPure::Success(v) => Ok((v, self.events)),
            IoResultPure::RepeatAfter(w) => Err(IoResult { inner: IoResultPure::RepeatAfter(w), events: self.events }),
            IoResultPure::Error(c) => Err(IoResult { inner: IoResultPure::Error(c), events: self.events }),
        }
    }

    /// The success of a value, with events.
    pub fn from_ok(ok: (T, Vec<ExplicitEventId>)) -> (r: Self)
        ensures
            r.inner == IoResultPure::<T>::Success(ok.0),
            r.events@ == ok.1@,
    {
        IoResult { inner: IoResultPure::Success(ok.0), events: ok.1 }
    }

    /// A failure, with its events, at this value type.
    pub fn from_error(error: IoResult<Missing>) -> (r: Self)
        requires
            !(error.inner is Success),
        ensures
            r.events@ == error.events@,
            error.inner matches IoResultPure::RepeatAfter(w) ==> r.inner == IoResultPure::<T>::RepeatAfter(w),
            error.inner matches IoResultPure::Error(c) ==> r.inner == IoResultPure::<T>::Error(c),
    {
        error.erase_type()
    }

    /// The result without events.
    pub fn from_pure(inner: IoResultPure<T>) -> (r: Self)
        ensures
            r.inner == inner,
            r.events@.len() == 0,
    {
        IoResult { inner, events: Vec::new() }
    }
}

} // verus!
