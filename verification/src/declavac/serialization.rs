//! A value kept together with its JSON serialization.
use vstd::prelude::*;

verus! {

/// A value and the JSON text it serializes to; the text is always there.
#[derive(Debug)]
pub struct Jsoned<T> {
    data: T,
    serialized: Option<String>,
}

impl<T> Jsoned<T> {
    #[verifier::type_invariant]
    spec fn serialized_present(self) -> bool {
        self.serialized is Some
    }

    pub closed spec fn data_view(&self) -> T {
        self.data
    }

    pub closed spec fn json_view(&self) -> Seq<char> {
        self.serialized->0@
    }

    /// The value with the outcome of serializing it: a failed serialization passes its error on.
    pub fn new<E>(data: T, serialized: Result<String, E>) -> (r: Result<Jsoned<T>, E>)
        ensures
            match serialized {
                Ok(s) => r matches Ok(j) && j.data_view() == data && j.json_view() == s@,
                Err(e) => r matches Err(f) && f == e,
            },
    {
        match serialized {
            Ok(s) => Ok(Jsoned { data, serialized: Some(s) }),
            Err(e) => Err(e),
        }
    }

    pub fn data(&self) -> (r: &T)
        ensures
            *r == self.data_view(),
    {
        &self.data
    }

    /// The JSON text of the value; it is always there.
    pub fn json(&self) -> (r: Option<&str>)
        ensures
            r matches Some(s) && s@ == self.json_view(),
    {
        proof {
            use_type_invariant(self);
        }
        match &self.serialized {
            Some(s) => Some(s.as_str()),
            None => None,
        }
    }

    /// Replaces the value by `data`, with the outcome of serializing it: on success the text
    /// follows the value; on failure the error is passed on and the text of the old value stays.
    pub fn update<E>(&mut self, data: T, serialized: Result<String, E>) -> (r: Result<(), E>)
        ensures
            final(self).data_view() == data,
            match serialized {
                Ok(s) => r is Ok && final(self).json_view() == s@,
                Err(e) => r matches Err(f) && f == e && final(self).json_view() == old(
                    self,
                ).json_view(),
            },
    {
        proof {
            use_type_invariant(&*self);
        }
        self.data = data;
        self.serialize(serialized)
    }

    /// Takes the outcome of serializing the value again: on success the text is replaced.
    pub fn serialize<E>(&mut self, serialized: Result<String, E>) -> (r: Result<(), E>)
        ensures
            final(self).data_view() == old(self).data_view(),
            match serialized {
                Ok(s) => r is Ok && final(self).json_view() == s@,
                Err(e) => r matches Err(f) && f == e && final(self).json_view() == old(
                    self,
                ).json_view(),
            },
    {
        proof {
            use_type_invariant(&*self);
        }
        match serialized {
            Ok(s) => {
                self.serialized = Some(s);
                Ok(())
            },
            Err(e) => Err(e),
        }
    }
}

} // verus!
