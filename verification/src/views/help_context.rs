//! Which help topic belongs to which help context, so F1 can show the topic
//! of whatever has the focus.
use vstd::prelude::*;
use std::collections::HashMap;

verus! {

broadcast use vstd::std_specs::hash::group_hash_axioms, vstd::string::group_string_axioms;

/// A help context id.
pub type HelpContextId = u16;

/// The context of views without help.
pub const HC_NO_CONTEXT: u16 = 0;

/// The help topic of each registered context.
pub struct HelpContext {
    map: HashMap<u16, String>,
}

impl HelpContext {
    /// The topic id of each registered context.
    pub closed spec fn spec_map(&self) -> Map<u16, Seq<char>> {
        self.map@.map_values(|s: String| s@)
    }

    /// No contexts registered.
    pub fn new() -> (c: Self)
        ensures
            c.spec_map() == Map::<u16, Seq<char>>::empty(),
    {
        let c = HelpContext { map: HashMap::new() };
        assert(c.spec_map() =~= Map::<u16, Seq<char>>::empty());
        c
    }

    /// Give context `context_id` the topic `topic_id`, replacing an earlier one.
    pub fn register(&mut self, context_id: u16, topic_id: &str)
        ensures
            final(self).spec_map() == old(self).spec_map().insert(context_id, topic_id@),
    {
        self.map.insert(context_id, topic_id.to_string());
        assert(self.spec_map() =~= old(self).spec_map().insert(context_id, topic_id@));
    }

    /// The topic of context `context_id`, if it is registered.
    pub fn get_topic(&self, context_id: u16) -> (r: Option<&str>)
        ensures
            match r {
                Some(t) => self.spec_map().contains_key(context_id) && t@ == self.spec_map()[context_id],
                None => !self.spec_map().contains_key(context_id),
            },
    {
        match self.map.get(&context_id) {
            Some(s) => Some(s.as_str()),
            None => None,
        }
    }

    /// Whether context `context_id` is registered.
    pub fn has_context(&self, context_id: u16) -> (b: bool)
        ensures
            b == self.spec_map().contains_key(context_id),
    {
        self.map.contains_key(&context_id)
    }

    /// Forget context `context_id`; returns whether it was registered.
    pub fn unregister(&mut self, context_id: u16) -> (was: bool)
        ensures
            was == old(self).spec_map().contains_key(context_id),
            final(self).spec_map() == old(self).spec_map().remove(context_id),
    {
        let r = self.map.remove(&context_id);
        assert(self.spec_map() =~= old(self).spec_map().remove(context_id));
        r.is_some()
    }

    /// Forget every context.
    pub fn clear(&mut self)
        ensures
            final(self).spec_map() == Map::<u16, Seq<char>>::empty(),
    {
        self.map.clear();
        assert(self.spec_map() =~= Map::<u16, Seq<char>>::empty());
    }

    /// The number of registered contexts.
    pub fn count(&self) -> (n: usize)
        ensures
            n == self.spec_map().dom().len(),
    {
        assert(self.spec_map().dom() =~= self.map@.dom());
        self.map.len()
    }
}

impl Default for HelpContext {
    fn default() -> (c: Self)
        ensures
            c.spec_map() == Map::<u16, Seq<char>>::empty(),
    {
        HelpContext::new()
    }
}

} // verus!
