//! What the user has typed into the dialog that adds a location.

use vstd::prelude::*;
use crate::text::{has_text, trimmed};

verus! {

/// A location that is being entered: the name it goes by and the path of its
/// directory, each as far as it has been typed.
pub struct Location {
    name: Option<String>,
    path: Option<String>,
}

impl Location {
    /// The name as typed so far.
    pub closed spec fn name_typed(&self) -> Option<Seq<char>> {
        match self.name {
            Some(name) => Some(name@),
            None => None,
        }
    }

    /// The path as typed so far.
    pub closed spec fn path_typed(&self) -> Option<Seq<char>> {
        match self.path {
            Some(path) => Some(path@),
            None => None,
        }
    }

    /// Whether the location can be added: a name and a path have been
    /// typed, and each is more than white space.
    pub open spec fn is_valid(&self) -> bool {
        &&& self.name_typed() matches Some(name)
        &&& self.path_typed() matches Some(path)
        &&& trimmed(name).len() > 0
        &&& trimmed(path).len() > 0
    }

    /// A location of which nothing has been typed yet.
    pub fn new() -> (location: Self)
        ensures
            location.name_typed() is None,
            location.path_typed() is None,
    {
        Location { name: None, path: None }
    }

    /// Whether the location can be added.
    pub fn valid(&self) -> (ok: bool)
        ensures
            ok == self.is_valid(),
    {
        match &self.name {
            Some(name) => match &self.path {
                Some(path) => has_text(name.as_str()) && has_text(path.as_str()),
                None => false,
            },
            None => false,
        }
    }

    /// The name and the path as they were typed, where the location can be
    /// added.
    pub fn values(&self) -> (pair: Option<(String, String)>)
        ensures
            self.is_valid() ==> (pair matches Some((name, path)) && Some(name@)
                == self.name_typed() && Some(path@) == self.path_typed()),
            !self.is_valid() ==> pair is None,
    {
        if self.valid() {
            match &self.name {
                Some(name) => match &self.path {
                    Some(path) => {
                        return Some((name.clone(), path.clone()));
                    },
                    None => {},
                },
                None => {},
            }
        }
        None
    }

    /// Takes what has been typed as the name.
    pub fn set_name(&mut self, name: &str)
        ensures
            final(self).name_typed() == Some(name@),
            final(self).path_typed() == old(self).path_typed(),
    {
        self.name = Some(name.to_string());
    }

    /// Takes what has been typed as the path.
    pub fn set_path(&mut self, path: &str)
        ensures
            final(self).path_typed() == Some(path@),
            final(self).name_typed() == old(self).name_typed(),
    {
        self.path = Some(path.to_string());
    }
}

} // verus!
