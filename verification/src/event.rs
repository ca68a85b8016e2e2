use vstd::prelude::*;

use crate::text::{literal, push_str};

verus! {

/// An event that tickets are sold for.
#[derive(Debug)]
pub struct Event {
    pub name: String,
    pub venue: String,
}

impl Clone for Event {
    /// A copy of the event, with the same name and venue.
    fn clone(&self) -> (res: Event)
        ensures
            res.name@ == self.name@,
            res.venue@ == self.venue@,
    {
        Event { name: self.name.clone(), venue: self.venue.clone() }
    }
}

impl Event {
    /// The display text of the event: its name, a comma, then its venue.
    pub fn to_string(&self) -> (s: String)
        ensures
            s@ == self.name@ + ","@ + self.venue@,
    {
        let mut s = literal(self.name.as_str());
        push_str(&mut s, ",");
        push_str(&mut s, self.venue.as_str());
        s
    }
}

} // verus!
