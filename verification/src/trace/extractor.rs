//! Reading a trace context out of the headers of a request.

use crate::util::header::{
    get_text, header_entries, header_keys, header_name_text, header_text, names,
};
use crate::util::text::opt_bytes;
use http::header::HeaderMap;
use vstd::prelude::*;
use vstd::string::StringSliceAdditionalSpecFns;

verus! {

/// The headers of a request as a propagator reads them.
pub struct HeaderExtractor<'a>(pub &'a HeaderMap);

impl<'a> HeaderExtractor<'a> {
    /// The first value under `key` as text; nothing if there is no such
    /// header or its value is not printable ASCII.
    pub fn get(&self, key: &str) -> (value: Option<&'a str>)
        ensures
            opt_bytes(value) == get_text(header_entries(*self.0), key.spec_bytes()),
    {
        header_text(self.0, key)
    }

    /// The names of the headers, each once, in the order of the map.
    pub fn keys(&self) -> (keys: Vec<&'a str>)
        ensures
            keys@.len() == header_entries(*self.0).len(),
            forall|i: int| 0 <= i < keys@.len() ==> (#[trigger] keys@[i])@ == names(header_entries(*self.0))[i],
    {
        let found = header_keys(self.0);
        let mut keys: Vec<&'a str> = Vec::new();
        let mut i: usize = 0;
        while i < found.len()
            invariant
                0 <= i <= found@.len(),
                found@.len() == header_entries(*self.0).len(),
                forall|j: int|
                    0 <= j < found@.len() ==> header_name_text(*#[trigger] found@[j]) == header_entries(
                        *self.0,
                    )[j].0,
                keys@.len() == i,
                forall|j: int| 0 <= j < i ==> (#[trigger] keys@[j])@ == header_entries(*self.0)[j].0,
            decreases found@.len() - i,
        {
            keys.push(found[i].as_str());
            i += 1;
        }
        keys
    }
}

} // verus!
