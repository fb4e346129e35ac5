//! The registry of driver plugins: each plugin registers by name when it
//! initialises, and kernel subsystems list or count them.
use vstd::prelude::*;

verus! {

/// A registered driver plugin.
#[derive(Clone, Copy, Debug)]
pub struct PluginEntry {
    pub name: &'static str,
}

/// The registered plugins, in registration order.
pub struct PluginRegistry {
    entries: Vec<PluginEntry>,
}

impl View for PluginRegistry {
    type V = Seq<PluginEntry>;

    closed spec fn view(&self) -> Seq<PluginEntry> {
        self.entries@
    }
}

impl PluginRegistry {
    /// A registry with no plugin.
    pub fn new() -> (r: Self)
        ensures
            r@ == Seq::<PluginEntry>::empty(),
    {
        PluginRegistry { entries: Vec::new() }
    }

    /// Register a plugin by name, after those already registered.
    pub fn register(&mut self, name: &'static str)
        ensures
            final(self)@ == old(self)@.push(PluginEntry { name }),
    {
        self.entries.push(PluginEntry { name });
    }

    /// The registered plugins, in registration order.
    pub fn iter(&self) -> (r: Vec<PluginEntry>)
        ensures
            r@ == self@,
    {
        let mut out: Vec<PluginEntry> = Vec::new();
        let mut i: usize = 0;
        while i < self.entries.len()
            invariant
                i <= self.entries@.len(),
                out@ == self.entries@.subrange(0, i as int),
            decreases self.entries@.len() - i,
        {
            out.push(self.entries[i]);
            i += 1;
            assert(out@ =~= self.entries@.subrange(0, i as int));
        }
        assert(self.entries@.subrange(0, i as int) =~= self.entries@);
        out
    }

    /// Number of registered plugins.
    pub fn count(&self) -> (r: usize)
        ensures
            r == self@.len(),
    {
        self.entries.len()
    }
}

/// Registering a plugin adds one to the count and puts the plugin last in
/// the listing, after the earlier ones in their order.
pub proof fn lemma_register_appends(before: Seq<PluginEntry>, name: &'static str)
    ensures
        before.push(PluginEntry { name }).len() == before.len() + 1,
        before.push(PluginEntry { name }).last() == (PluginEntry { name }),
        before.push(PluginEntry { name }).subrange(0, before.len() as int) == before,
{
    assert(before.push(PluginEntry { name }).subrange(0, before.len() as int) =~= before);
}

} // verus!
