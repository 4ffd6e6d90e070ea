//! A loaded plugin: its description, the hooks it really exports, and
//! the live instance behind them.

use vstd::prelude::*;
use crate::plugin::hooks::PluginMetadata;
use crate::text::same_text;

verus! {

/// One hook of a plugin and the exported function that implements it.
#[derive(Clone)]
pub struct HookBinding {
    pub hook: String,
    pub function: String,
}

/// A loaded plugin.
#[derive(Clone)]
pub struct Plugin {
    /// What the plugin says about itself.
    pub metadata: PluginMetadata,
    /// The plugin's id: the stem of the file it was loaded from.
    pub id: String,
    /// The declared hooks that the module really exports.
    pub functions: Vec<HookBinding>,
    /// The live instance.
    pub instance: wasmer::Instance,
}

/// The exported function that implements a hook, by convention.
pub open spec fn hook_function_name(hook: Seq<char>) -> Seq<char> {
    "hook_"@ + hook
}

/// The function bound to `hook` in a list of bindings: that of the first
/// binding for the hook.
pub open spec fn bound_function(bindings: Seq<HookBinding>, hook: Seq<char>) -> Option<Seq<char>>
    decreases bindings.len(),
{
    if bindings.len() == 0 {
        None
    } else if bindings[0].hook@ == hook {
        Some(bindings[0].function@)
    } else {
        bound_function(bindings.drop_first(), hook)
    }
}

/// Every binding follows the naming convention.
pub open spec fn bindings_conventional(bindings: Seq<HookBinding>) -> bool {
    forall|i: int|
        0 <= i < bindings.len() ==> (#[trigger] bindings[i]).function@ == hook_function_name(
            bindings[i].hook@,
        )
}

pub proof fn lemma_bound_function_conventional(bindings: Seq<HookBinding>, hook: Seq<char>)
    requires
        bindings_conventional(bindings),
    ensures
        bound_function(bindings, hook) is Some ==> bound_function(bindings, hook) == Some(
            hook_function_name(hook),
        ),
    decreases bindings.len(),
{
    if bindings.len() > 0 && bindings[0].hook@ != hook {
        let rest = bindings.drop_first();
        assert forall|i: int| 0 <= i < rest.len() implies (#[trigger] rest[i]).function@
            == hook_function_name(rest[i].hook@) by {
            assert(rest[i] == bindings[i + 1]);
        }
        lemma_bound_function_conventional(rest, hook);
    }
}

/// A hook that is bound is the hook of some binding.
pub proof fn lemma_bound_function_witness(bindings: Seq<HookBinding>, hook: Seq<char>)
    requires
        bound_function(bindings, hook) is Some,
    ensures
        exists|k: int| 0 <= k < bindings.len() && (#[trigger] bindings[k]).hook@ == hook,
    decreases bindings.len(),
{
    if bindings[0].hook@ != hook {
        let rest = bindings.drop_first();
        lemma_bound_function_witness(rest, hook);
        let k = choose|k: int| 0 <= k < rest.len() && (#[trigger] rest[k]).hook@ == hook;
        assert(bindings[k + 1] == rest[k]);
    }
}

/// A hook that some binding names is bound.
pub proof fn lemma_bound_function_found(bindings: Seq<HookBinding>, hook: Seq<char>, k: int)
    requires
        0 <= k < bindings.len(),
        bindings[k].hook@ == hook,
    ensures
        bound_function(bindings, hook) is Some,
    decreases bindings.len(),
{
    if bindings[0].hook@ != hook {
        let rest = bindings.drop_first();
        assert(rest[k - 1] == bindings[k]);
        lemma_bound_function_found(rest, hook, k - 1);
    }
}

impl Plugin {
    /// The hook bindings, as plain data.
    pub open spec fn bindings(self) -> Seq<HookBinding> {
        self.functions@
    }

    /// The exported function that serves `hook`, if the plugin has one.
    pub open spec fn function_for(self, hook: Seq<char>) -> Option<Seq<char>> {
        bound_function(self.bindings(), hook)
    }

    /// A plugin is well formed when its bindings follow the naming
    /// convention.
    pub open spec fn wf(self) -> bool {
        bindings_conventional(self.bindings())
    }

    /// Puts a plugin record together.
    pub(crate) fn assemble(
        metadata: PluginMetadata,
        id: String,
        functions: Vec<HookBinding>,
        instance: wasmer::Instance,
    ) -> (p: Plugin)
        ensures
            p.metadata == metadata,
            p.id == id,
            p.bindings() == functions@,
            p.instance == instance,
    {
        Plugin { metadata, id, functions, instance }
    }

    /// The name of the exported function that serves `hook`.  In a well
    /// formed plugin that is the function named after the hook.
    pub fn lookup(&self, hook: &str) -> (r: Option<String>)
        ensures
            match r {
                Some(f) => self.function_for(hook@) == Some(f@) && (self.wf() ==> f@
                    == hook_function_name(hook@)),
                None => self.function_for(hook@) is None,
            },
    {
        proof {
            if self.wf() {
                lemma_bound_function_conventional(self.functions@, hook@);
            }
        }
        let mut i: usize = 0;
        assert(self.functions@.subrange(0, self.functions.len() as int) =~= self.functions@);
        while i < self.functions.len()
            invariant
                i <= self.functions.len(),
                bound_function(self.functions@, hook@) == bound_function(
                    self.functions@.subrange(i as int, self.functions.len() as int),
                    hook@,
                ),
            decreases self.functions.len() - i,
        {
            let ghost rest = self.functions@.subrange(i as int, self.functions.len() as int);
            assert(rest[0] == self.functions@[i as int]);
            assert(rest.drop_first() =~= self.functions@.subrange(
                i as int + 1,
                self.functions.len() as int,
            ));
            if same_text(self.functions[i].hook.as_str(), hook) {
                return Some(self.functions[i].function.clone());
            }
            i = i + 1;
        }
        None
    }

    /// Whether the plugin serves `hook`.
    pub fn has_hook(&self, hook: &str) -> (r: bool)
        ensures
            r == self.function_for(hook@) is Some,
    {
        self.lookup(hook).is_some()
    }
}

} // verus!
