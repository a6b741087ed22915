//! Plugins: the trait their authors implement, and the registry that keeps them
//! in registration order.
use vstd::prelude::*;

verus! {

/// A plugin as the registry sees it: a name and a description. What a plugin does
/// with a message runs asynchronously and belongs to the host that drives it.
pub trait Plugin {
    fn name(&self) -> &str;

    fn description(&self) -> (r: &str)
        default_ensures
            r@ == Seq::<char>::empty(),
    {
        proof {
            reveal_strlit("");
        }
        ""
    }
}

/// The registered plugins, in registration order.
pub struct PluginManager<P> {
    pub plugins: Vec<P>,
}

impl<P> PluginManager<P> {
    pub fn new() -> (r: PluginManager<P>)
        ensures
            r.plugins@.len() == 0,
    {
        PluginManager { plugins: Vec::new() }
    }

    /// Adds `plugin` after those registered before it.
    pub fn register(&mut self, plugin: P)
        ensures
            final(self).plugins@ == old(self).plugins@.push(plugin),
    {
        self.plugins.push(plugin);
    }

    /// The registered plugins, in registration order.
    pub fn list(&self) -> (r: Vec<&P>)
        ensures
            r@.len() == self.plugins@.len(),
            forall|i: int| 0 <= i < r@.len() ==> *r@[i] == self.plugins@[i],
    {
        let mut out: Vec<&P> = Vec::new();
        let mut i: usize = 0;
        while i < self.plugins.len()
            invariant
                i <= self.plugins@.len(),
                out@.len() == i,
                forall|j: int| 0 <= j < i ==> *out@[j] == self.plugins@[j],
            decreases self.plugins.len() - i,
        {
            out.push(&self.plugins[i]);
            i = i + 1;
        }
        out
    }

    pub fn is_empty(&self) -> (r: bool)
        ensures
            r == (self.plugins@.len() == 0),
    {
        self.plugins.len() == 0
    }
}

impl<P> Default for PluginManager<P> {
    fn default() -> (r: PluginManager<P>)
        ensures
            r.plugins@.len() == 0,
    {
        PluginManager::new()
    }
}

} // verus!
