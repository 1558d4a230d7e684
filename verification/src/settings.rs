//! The parameters in force. The control channel delivers whole records; the
//! newest record replaces the one in force, and no field of the old record
//! survives in it.

use vstd::prelude::*;

verus! {

/// A record that is replaced as a whole by each newer one.
pub struct Latest<T> {
    current: T,
}

impl<T> View for Latest<T> {
    type V = T;

    closed spec fn view(&self) -> T {
        self.current
    }
}

impl<T> Latest<T> {
    /// Starts with `initial` in force.
    pub fn new(initial: T) -> (latest: Latest<T>)
        ensures
            latest@ == initial,
    {
        Latest { current: initial }
    }

    /// The record in force.
    pub fn get(&self) -> (current: &T)
        ensures
            *current == self@,
    {
        &self.current
    }

    /// Takes what the channel delivered: a record replaces the one in force,
    /// and where nothing came the record in force stays.
    pub fn offer(&mut self, incoming: Option<T>)
        ensures
            final(self)@ == match incoming {
                Some(record) => record,
                None => old(self)@,
            },
    {
        match incoming {
            Some(record) => {
                self.current = record;
            },
            None => {},
        }
    }
}

} // verus!
