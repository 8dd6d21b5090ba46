//! A value that can be taken once.

use crate::host_api::error::{api_error, consumed_error, consumed_text, ApiError, ErrorCode};
use vstd::prelude::*;

verus! {

/// A value that is there until it is taken.
#[derive(Debug)]
pub struct OneShot<T> {
    inner: Option<T>,
}

impl<T> View for OneShot<T> {
    type V = Option<T>;

    closed spec fn view(&self) -> Option<T> {
        self.inner
    }
}

/// The error says that an object of this type is used up.
pub open spec fn says_consumed(e: ApiError, owner: Seq<char>) -> bool {
    e@ == api_error(ErrorCode::Consumed, consumed_text(owner))
}

impl<T> OneShot<T> {
    /// A value that is there.
    pub fn new(value: T) -> (s: OneShot<T>)
        ensures
            s@ == Some(value),
    {
        OneShot { inner: Some(value) }
    }

    /// Takes the value, or reports that it was taken. Afterwards it is not there.
    pub fn take(&mut self, owner: &str) -> (r: Result<T, ApiError>)
        ensures
            match r {
                Ok(value) => old(self)@ == Some(value),
                Err(e) => old(self)@ is None && says_consumed(e, owner@),
            },
            final(self)@ is None,
    {
        match self.inner.take() {
            Some(value) => Ok(value),
            None => Err(consumed_error(owner)),
        }
    }

    /// Lends the value for a change, or reports that it was taken.
    pub fn get_mut(&mut self, owner: &str) -> (r: Result<&mut T, ApiError>)
        ensures
            match r {
                Ok(value) => old(self)@ == Some(*value) && final(self)@ == Some(*final(value)),
                Err(e) => old(self)@ is None && final(self)@ is None && says_consumed(
                    e,
                    owner@,
                ),
            },
    {
        match &mut self.inner {
            Some(value) => Ok(value),
            None => Err(consumed_error(owner)),
        }
    }

    /// Lends the value, or reports that it was taken.
    pub fn get(&self, owner: &str) -> (r: Result<&T, ApiError>)
        ensures
            match r {
                Ok(value) => self@ == Some(*value),
                Err(e) => self@ is None && says_consumed(e, owner@),
            },
    {
        match &self.inner {
            Some(value) => Ok(value),
            None => Err(consumed_error(owner)),
        }
    }

    /// Drops the value, if it is still there.
    pub fn dispose(&mut self)
        ensures
            final(self)@ is None,
    {
        self.inner = None;
    }
}

} // verus!
