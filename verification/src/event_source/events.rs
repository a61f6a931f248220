//! The registry itself.

use crate::event_source::errors::RegisterError;
use crate::text::same_text;
use vstd::prelude::*;

verus! {

/// The handlers that were registered, each under the name of its event.
/// No name is registered twice.
pub struct EventSource<H> {
    events: Vec<(String, H)>,
}

/// The names of the entries, in their order.
pub open spec fn names_of<H>(entries: Seq<(String, H)>) -> Seq<Seq<char>> {
    Seq::new(entries.len(), |i: int| entries[i].0@)
}

impl<H> EventSource<H> {
    #[verifier::type_invariant]
    spec fn is_valid(self) -> bool {
        names_of(self.events@).no_duplicates()
    }

    /// The names that are registered, in the order of their registration.
    pub closed spec fn names(&self) -> Seq<Seq<char>> {
        names_of(self.events@)
    }

    /// The handlers that are registered, in the order of their
    /// registration: the handler at an index belongs to the name there.
    pub closed spec fn handlers(&self) -> Seq<H> {
        Seq::new(self.events@.len(), |i: int| self.events@[i].1)
    }

    /// A registry without handlers.
    pub fn new() -> (r: Self)
        ensures
            r.names() == Seq::<Seq<char>>::empty(),
            r.handlers() == Seq::<H>::empty(),
    {
        let events: Vec<(String, H)> = Vec::new();
        assert(names_of(events@) =~= Seq::<Seq<char>>::empty());
        let r = Self { events };
        assert(r.handlers() =~= Seq::<H>::empty());
        r
    }

    /// How many handlers are registered.
    pub fn len(&self) -> (r: usize)
        ensures
            r == self.names().len(),
    {
        self.events.len()
    }

    /// Whether a handler is registered under the name.
    pub fn contains(&self, event_name: &str) -> (r: bool)
        ensures
            r == self.names().contains(event_name@),
    {
        let n = self.events.len();
        let mut i: usize = 0;
        while i < n
            invariant
                n == self.events.len(),
                i <= n,
                forall|j: int| 0 <= j < i ==> self.names()[j] != event_name@,
            decreases n - i,
        {
            if same_text(self.events[i].0.as_str(), event_name) {
                assert(self.names()[i as int] == event_name@);
                return true;
            }
            i += 1;
        }
        false
    }

    /// Registers the handler under the name of its event, unless the name
    /// is taken: then the registry stays as it is.
    pub fn register_event(&mut self, event_name: &str, event_fn: H) -> (r: Result<
        bool,
        RegisterError,
    >)
        ensures
            match r {
                Ok(added) => {
                    &&& added
                    &&& !old(self).names().contains(event_name@)
                    &&& final(self).names() == old(self).names().push(event_name@)
                    &&& final(self).handlers() == old(self).handlers().push(event_fn)
                },
                Err(RegisterError::EventExist) => {
                    &&& old(self).names().contains(event_name@)
                    &&& final(self).names() == old(self).names()
                    &&& final(self).handlers() == old(self).handlers()
                },
            },
    {
        if self.contains(event_name) {
            return Err(RegisterError::EventExist);
        }
        proof {
            use_type_invariant(&*self);
        }
        let mut events: Vec<(String, H)> = Vec::new();
        assert(names_of(events@) =~= Seq::<Seq<char>>::empty());
        std::mem::swap(&mut self.events, &mut events);
        let ghost before = events@;
        events.push((event_name.to_owned(), event_fn));
        assert(names_of(events@) =~= names_of(before).push(event_name@));
        assert(names_of(events@).no_duplicates());
        std::mem::swap(&mut self.events, &mut events);
        assert(self.handlers() =~= old(self).handlers().push(event_fn));
        Ok(true)
    }
}

} // verus!
