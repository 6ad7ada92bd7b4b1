//! F-key macro bindings.

use vstd::prelude::*;

use crate::string_map::StringMap;

verus! {

/// Macro bindings: key name (such as `F2`) to command.
pub struct MacroManager {
    bindings: StringMap,
}

impl MacroManager {
    /// The bindings, as a map from key name to command.
    pub closed spec fn bindings_of(&self) -> Map<Seq<char>, Seq<char>> {
        self.bindings.map_view()
    }

    pub fn new(bindings: StringMap) -> (m: Self)
        ensures
            m.bindings_of() == bindings.map_view(),
    {
        MacroManager { bindings }
    }

    /// The command bound to `key`, such as `"F2"`.
    pub fn get(&self, key: &str) -> (r: Option<&str>)
        ensures
            r matches Some(c) ==> self.bindings_of().contains_key(key@) && self.bindings_of()[key@]
                == c@,
            r is None ==> !self.bindings_of().contains_key(key@),
    {
        self.bindings.get(key)
    }

    /// Replace all bindings.
    pub fn update(&mut self, bindings: StringMap)
        ensures
            final(self).bindings_of() == bindings.map_view(),
    {
        self.bindings = bindings;
    }
}

} // verus!
