//! The plugin manager: loads plugin files into the sandbox, keeps the
//! table of active plugins and routes hook invocations.

use vstd::prelude::*;
use crate::order::{insert_sorted, strictly_sorted};
use crate::plugin::engine::{
    compile_module,
    compiled_imports,
    exported_functions,
    import_views,
    instance_key,
    instantiate,
    module_import_names,
    module_imports,
    new_store,
    no_imports,
    store_key,
    ImportName,
};
use crate::plugin::error::{failure_of, message_of, PluginError, PluginFailure};
use crate::plugin::hooks::PluginMetadata;
use crate::plugin::marshal::{
    declares,
    described_from,
    invoke_plugin_function,
    invoked,
    load_plugin_metadata,
};
use crate::plugin::paths::{is_wasm_file, plugin_id_of, spec_is_wasm_file, spec_plugin_id};
use crate::plugin::record::{hook_function_name, Plugin};
use crate::plugin::sandbox::{
    check_imports,
    default_allow_list,
    default_allowed,
    first_refused,
    import_text,
    names_allowed,
};
use crate::plugin::table::{
    empty_table,
    table_contents,
    table_get,
    table_insert,
    table_keys,
    table_new,
    table_remove,
};
use crate::text::{holds_text, texts};

verus! {

/// Up to how many pages a plugin's memory is reserved in full from the
/// start.  None: every memory takes only what it uses.
pub const STATIC_MEMORY_PAGES: u32 = 0;

/// How many bytes of guard follow a plugin's memory.
pub const MEMORY_GUARD_BYTES: u64 = 65536;

/// A plugin file as read from the plugin directory.
pub struct PluginFile {
    pub path: String,
    pub bytes: Vec<u8>,
}

/// The plugin host's state.
pub struct PluginManager {
    /// The directory the plugins come from.
    pub plugin_dir: String,
    /// The engine store that every instance lives in.
    pub store: wasmer::Store,
    /// The active plugins, by id.
    pub plugins: dashmap::DashMap<String, Plugin>,
    /// The imports that a plugin may ask of the host.
    pub allowed_imports: Vec<ImportName>,
}

/// Compiles module bytes and instantiates them inside the sandbox: a
/// module is admitted only if every import of it is on the allow-list.
fn instantiate_sandboxed(
    store: &mut wasmer::Store,
    allowed: &Vec<ImportName>,
    bytes: &Vec<u8>,
) -> (r: Result<wasmer::Instance, PluginError>)
    ensures
        sandboxed(import_views(allowed@), compiled_imports(*old(store), bytes@), r),
        store_key(*final(store)) == store_key(*old(store)),
        r matches Ok(instance) ==> instance_key(instance) == store_key(*old(store)),
{
    let module = match compile_module(store, bytes) {
        Ok(m) => m,
        Err(e) => {
            return Err(PluginError::WasmCompileError(e));
        },
    };
    admit_module(store, allowed, &module)
}

/// What instantiating module bytes inside the sandbox comes to, given
/// the allow-list and what compiling the bytes comes to.  Bytes that the
/// engine refuses are a `WasmCompileError`.  A module with an import that
/// is not on the allow-list is a `WasmImportError` that names the first
/// such import.  Any other module is instantiated, or fails with
/// `WasmInstantiationError`.
pub open spec fn sandboxed(
    allowed: Seq<(Seq<char>, Seq<char>)>,
    compiled: Option<Seq<(Seq<char>, Seq<char>)>>,
    r: Result<wasmer::Instance, PluginError>,
) -> bool {
    match compiled {
        None => r matches Err(PluginError::WasmCompileError(_)),
        Some(names) => if names_allowed(allowed, names) {
            r is Ok || r matches Err(PluginError::WasmInstantiationError(_))
        } else {
            r matches Err(PluginError::WasmImportError(what)) && exists|i: int|
                #![auto]
                first_refused(allowed, names, i) && what@ == import_text(names[i])
        },
    }
}

/// Whether a failure is one that asking an instance for its metadata
/// can end in.
pub open spec fn metadata_refusal(inner: PluginFailure) -> bool {
    inner is FunctionNotFound || inner is WasmExecutionError || inner is MetadataError
        || inner is SerializationError
}

/// The failure of a load whose instance did not give its metadata: a
/// `MetadataError` that carries the message of what went wrong.
pub fn metadata_failure(inner: &PluginError) -> (e: PluginError)
    ensures
        failure_of(e) == PluginFailure::MetadataError(inner.message_text()),
{
    PluginError::MetadataError(inner.message())
}

/// Whether a record is what its instance says of itself: the metadata
/// stood as text in the plugin's memory, and a hook is bound exactly when
/// the metadata declares it and the instance exports its function.
pub open spec fn self_described(plugin: Plugin) -> bool {
    &&& described_from(plugin.instance, plugin.metadata)
    &&& forall|hook: Seq<char>| #[trigger]
        plugin.function_for(hook) is Some <==> declares(plugin.metadata.hooks@, hook)
            && exported_functions(plugin.instance).contains(hook_function_name(hook))
}

/// What loading a plugin file comes to, given the allow-list, what
/// compiling the file's bytes comes to and the table of active plugins
/// before and after.
///
/// A path without a plugin id is an `InvalidPluginFile`.  Bytes that the
/// engine refuses are a `WasmCompileError`.  A module with an import that
/// is not on the allow-list is a `WasmImportError`, which names the first
/// such import.  Any other module is instantiated; where
/// that fails the error is a `WasmInstantiationError`, and where the
/// instance does not give its metadata it is a `MetadataError` with the
/// message of what went wrong.  Each failure leaves the table as it was.
/// Otherwise the record is filed under the id, in place of what was
/// there.
pub open spec fn plugin_loaded(
    path: Seq<char>,
    allowed: Seq<(Seq<char>, Seq<char>)>,
    compiled: Option<Seq<(Seq<char>, Seq<char>)>>,
    before: Map<Seq<char>, Plugin>,
    after: Map<Seq<char>, Plugin>,
    r: Result<Plugin, PluginError>,
) -> bool {
    match r {
        Ok(plugin) => {
            &&& spec_plugin_id(path) == Some(plugin.id@)
            &&& compiled matches Some(names)
            &&& names_allowed(allowed, names)
            &&& plugin.wf()
            &&& self_described(plugin)
            &&& after == before.insert(plugin.id@, plugin)
        },
        Err(e) => after == before && match e {
            PluginError::InvalidPluginFile(what) => spec_plugin_id(path) is None && what@ == path,
            PluginError::WasmCompileError(_) => spec_plugin_id(path) is Some && compiled is None,
            PluginError::WasmImportError(what) => {
                &&& spec_plugin_id(path) is Some
                &&& compiled matches Some(names)
                &&& exists|i: int|
                    #![auto]
                    first_refused(allowed, names, i) && what@ == import_text(names[i])
            },
            PluginError::WasmInstantiationError(_) => {
                &&& spec_plugin_id(path) is Some
                &&& compiled matches Some(names)
                &&& names_allowed(allowed, names)
            },
            PluginError::MetadataError(what) => {
                &&& spec_plugin_id(path) is Some
                &&& compiled matches Some(names)
                &&& names_allowed(allowed, names)
                &&& exists|inner: PluginFailure|
                    #![auto]
                    metadata_refusal(inner) && what@ == message_of(inner)
            },
            _ => false,
        },
    }
}

/// Instantiates a compiled module inside the sandbox.
///
/// A module with an import that is not on the allow-list is refused with
/// `WasmImportError`, which names the first such import as
/// `namespace::name`; it is never instantiated.  Any other module is
/// instantiated, and a failure of that is a `WasmInstantiationError`.
pub fn admit_module(
    store: &mut wasmer::Store,
    allowed: &Vec<ImportName>,
    module: &wasmer::Module,
) -> (r: Result<wasmer::Instance, PluginError>)
    ensures
        store_key(*final(store)) == store_key(*old(store)),
        match r {
            Ok(instance) => names_allowed(import_views(allowed@), module_import_names(*module))
                && instance_key(instance) == store_key(*old(store)),
            Err(PluginError::WasmImportError(what)) => exists|i: int|
                #![auto]
                first_refused(import_views(allowed@), module_import_names(*module), i) && what@
                    == import_text(module_import_names(*module)[i]),
            Err(PluginError::WasmInstantiationError(_)) => names_allowed(
                import_views(allowed@),
                module_import_names(*module),
            ),
            Err(_) => false,
        },
{
    let imports = module_imports(module);
    match check_imports(allowed, &imports) {
        Ok(_) => {},
        Err(e) => {
            return Err(e);
        },
    }
    // No WASI implementation is linked for this engine, so the host has no
    // function to offer yet: a module that needs an admitted import fails to
    // instantiate.
    let offered = no_imports();
    match instantiate(store, module, &offered) {
        Ok(instance) => Ok(instance),
        Err(e) => Err(PluginError::WasmInstantiationError(e)),
    }
}

impl PluginManager {
    /// The table of active plugins: for each id at most one record.
    pub open spec fn table(self) -> Map<Seq<char>, Plugin> {
        table_contents(self.plugins)
    }

    /// Every active record is filed under its own id, is well formed,
    /// and its instance lives in the manager's store.
    pub open spec fn wf(self) -> bool {
        forall|id: Seq<char>| #[trigger]
            self.table().dom().contains(id) ==> self.table()[id].id@ == id
                && self.table()[id].wf() && instance_key(self.table()[id].instance)
                == store_key(self.store)
    }

    /// The allow-list of imports, as pairs of a namespace and a name.
    pub open spec fn allowed(self) -> Seq<(Seq<char>, Seq<char>)> {
        import_views(self.allowed_imports@)
    }

    /// A manager for the given plugin directory, with no plugin loaded
    /// and the default allow-list.
    pub fn new(plugin_dir: &str) -> (manager: PluginManager)
        ensures
            manager.table() == empty_table(),
            manager.plugin_dir@ == plugin_dir@,
            manager.allowed() == default_allowed(),
            manager.wf(),
    {
        PluginManager::with_allow_list(plugin_dir, default_allow_list())
    }

    /// A manager for the given plugin directory, with no plugin loaded
    /// and the given allow-list.
    pub fn with_allow_list(plugin_dir: &str, allowed_imports: Vec<ImportName>) -> (manager:
        PluginManager)
        ensures
            manager.table() == empty_table(),
            manager.plugin_dir@ == plugin_dir@,
            manager.allowed_imports == allowed_imports,
            manager.wf(),
    {
        PluginManager {
            plugin_dir: plugin_dir.to_owned(),
            store: new_store(STATIC_MEMORY_PAGES, MEMORY_GUARD_BYTES),
            plugins: table_new(),
            allowed_imports,
        }
    }

    /// Loads the plugin file at `path`, whose contents are `bytes`, and
    /// makes it the active plugin of its id.
    ///
    /// The id is the stem of the file name.  On success the new record
    /// replaces the active record of that id, if there was one, and
    /// nothing else changes.  On failure the table is left as it was, so a
    /// plugin that was active stays active.
    pub fn load_plugin(&mut self, path: &str, bytes: &Vec<u8>) -> (r: Result<Plugin, PluginError>)
        requires
            old(self).wf(),
        ensures
            final(self).wf(),
            final(self).plugin_dir == old(self).plugin_dir,
            final(self).allowed_imports == old(self).allowed_imports,
            store_key(final(self).store) == store_key(old(self).store),
            plugin_loaded(
                path@,
                old(self).allowed(),
                compiled_imports(old(self).store, bytes@),
                old(self).table(),
                final(self).table(),
                r,
            ),
    {
        let id = match plugin_id_of(path) {
            Some(id) => id,
            None => {
                return Err(PluginError::InvalidPluginFile(path.to_owned()));
            },
        };
        let instance = match instantiate_sandboxed(&mut self.store, &self.allowed_imports, bytes) {
            Ok(instance) => instance,
            Err(e) => {
                assert(self.table() == old(self).table());
                return Err(e);
            },
        };
        let key = id.clone();
        let filed = id.clone();
        let plugin = match load_plugin_metadata(&mut self.store, instance, id) {
            Ok(p) => p,
            Err(inner) => {
                assert(self.table() == old(self).table());
                assert(metadata_refusal(failure_of(inner)));
                assert(inner.message_text() == message_of(failure_of(inner)));
                return Err(metadata_failure(&inner));
            },
        };
        let ghost loaded = plugin;
        let ghost before = self.table();
        assert(before == old(self).table());
        table_insert(&mut self.plugins, key, plugin);
        assert(self.table() == before.insert(loaded.id@, loaded));
        assert forall|k: Seq<char>| #[trigger] self.table().dom().contains(k) implies self.table()[k].id@
            == k && self.table()[k].wf() && instance_key(self.table()[k].instance) == store_key(
            self.store,
        ) by {
            if k != loaded.id@ {
                assert(before.dom().contains(k));
            }
        }
        match table_get(&self.plugins, filed.as_str()) {
            Some(active) => Ok(active),
            None => {
                assert(false);
                Err(PluginError::Internal(filed))
            },
        }
    }

    /// Drops the active record of `id`.  Says whether there was one.
    pub fn unload_plugin(&mut self, id: &str) -> (removed: bool)
        requires
            old(self).wf(),
        ensures
            final(self).wf(),
            final(self).plugin_dir == old(self).plugin_dir,
            final(self).allowed_imports == old(self).allowed_imports,
            final(self).store == old(self).store,
            removed == old(self).table().dom().contains(id@),
            final(self).table() == old(self).table().remove(id@),
    {
        let ghost before = self.table();
        let removed = table_remove(&mut self.plugins, id);
        assert forall|k: Seq<char>| #[trigger] self.table().dom().contains(k) implies self.table()[k].id@
            == k && self.table()[k].wf() && instance_key(self.table()[k].instance) == store_key(
            self.store,
        ) by {
            assert(before.dom().contains(k));
        }
        removed.is_some()
    }

    /// Invokes the function that serves hook `function` in the active
    /// plugin `plugin_name`, with `payload` as input.
    ///
    /// An id without an active plugin is `PluginNotFound`, and nothing is
    /// touched.  Otherwise the plugin of that id is invoked.  The table of
    /// plugins is not changed.
    pub fn invoke(&mut self, plugin_name: &str, function: &str, payload: &str) -> (r: Result<
        String,
        PluginError,
    >)
        requires
            old(self).wf(),
        ensures
            final(self).wf(),
            final(self).plugins == old(self).plugins,
            final(self).plugin_dir == old(self).plugin_dir,
            final(self).allowed_imports == old(self).allowed_imports,
            store_key(final(self).store) == store_key(old(self).store),
            if old(self).table().dom().contains(plugin_name@) {
                invoked(
                    old(self).table()[plugin_name@],
                    function@,
                    payload@,
                    old(self).store,
                    final(self).store,
                    r,
                )
            } else {
                r matches Err(PluginError::PluginNotFound(m)) && m@ == plugin_name@
                    && final(self).store == old(self).store
            },
    {
        let plugin = match table_get(&self.plugins, plugin_name) {
            Some(p) => p,
            None => {
                return Err(PluginError::PluginNotFound(plugin_name.to_owned()));
            },
        };
        assert(self.table().dom().contains(plugin_name@));
        assert(plugin == self.table()[plugin_name@]);
        let ghost table = self.table();
        let r = invoke_plugin_function(&mut self.store, &plugin, function, payload);
        assert forall|k: Seq<char>| #[trigger] self.table().dom().contains(k) implies self.table()[k].id@
            == k && self.table()[k].wf() && instance_key(self.table()[k].instance) == store_key(
            self.store,
        ) by {
            assert(table.dom().contains(k));
        }
        r
    }

    /// The ids of the active plugins, in ascending order.
    pub fn plugin_ids(&self) -> (ids: Vec<String>)
        ensures
            strictly_sorted(texts(ids@)),
            forall|k: Seq<char>| #[trigger]
                texts(ids@).contains(k) <==> self.table().dom().contains(k),
    {
        let keys = table_keys(&self.plugins);
        let mut ids: Vec<String> = Vec::new();
        let mut i: usize = 0;
        while i < keys.len()
            invariant
                i <= keys.len(),
                strictly_sorted(texts(ids@)),
                forall|k: Seq<char>| #[trigger]
                    texts(ids@).contains(k) <==> texts(keys@).subrange(0, i as int).contains(k),
            decreases keys.len() - i,
        {
            let ghost done = texts(keys@).subrange(0, i as int);
            let ghost next = texts(keys@).subrange(0, i as int + 1);
            assert(next =~= done.push(keys@[i as int]@));
            assert forall|k: Seq<char>| #[trigger] next.contains(k) <==> (k == keys@[i as int]@
                || done.contains(k)) by {
                if done.contains(k) {
                    let j = choose|j: int| 0 <= j < done.len() && done[j] == k;
                    assert(next[j] == k);
                }
                if k == keys@[i as int]@ {
                    assert(next[i as int] == k);
                }
            }
            insert_sorted(&mut ids, keys[i].clone());
            i = i + 1;
        }
        assert(texts(keys@).subrange(0, keys@.len() as int) =~= texts(keys@));
        ids
    }

    /// The ids of the active plugins that serve `hook`, in ascending
    /// order: the order in which the hook is run.
    pub fn plugins_serving(&self, hook: &str) -> (ids: Vec<String>)
        ensures
            strictly_sorted(texts(ids@)),
            forall|k: Seq<char>| #[trigger]
                texts(ids@).contains(k) <==> (self.table().dom().contains(k)
                    && self.table()[k].function_for(hook@) is Some),
    {
        let all = self.plugin_ids();
        let mut ids: Vec<String> = Vec::new();
        let mut i: usize = 0;
        while i < all.len()
            invariant
                i <= all.len(),
                strictly_sorted(texts(ids@)),
                forall|k: Seq<char>| #[trigger]
                    texts(all@).contains(k) <==> self.table().dom().contains(k),
                forall|k: Seq<char>| #[trigger]
                    texts(ids@).contains(k) <==> (texts(all@).subrange(0, i as int).contains(k)
                        && self.table()[k].function_for(hook@) is Some),
            decreases all.len() - i,
        {
            let ghost done = texts(all@).subrange(0, i as int);
            let ghost next = texts(all@).subrange(0, i as int + 1);
            assert(next =~= done.push(all@[i as int]@));
            assert forall|k: Seq<char>| #[trigger] next.contains(k) <==> (k == all@[i as int]@
                || done.contains(k)) by {
                if done.contains(k) {
                    let j = choose|j: int| 0 <= j < done.len() && done[j] == k;
                    assert(next[j] == k);
                }
                if k == all@[i as int]@ {
                    assert(next[i as int] == k);
                }
            }
            assert(texts(all@)[i as int] == all@[i as int]@);
            assert(texts(all@).contains(all@[i as int]@));
            match table_get(&self.plugins, all[i].as_str()) {
                Some(plugin) => {
                    if plugin.has_hook(hook) {
                        insert_sorted(&mut ids, all[i].clone());
                    }
                },
                None => {},
            }
            i = i + 1;
        }
        assert(texts(all@).subrange(0, all@.len() as int) =~= texts(all@));
        ids
    }

    /// The metadata of the active plugins, in ascending order of id.
    pub fn list_plugins(&self) -> (list: Vec<PluginMetadata>)
        ensures
            exists|ids: Seq<Seq<char>>|
                {
                    &&& strictly_sorted(ids)
                    &&& forall|k: Seq<char>| #[trigger]
                        ids.contains(k) <==> self.table().dom().contains(k)
                    &&& #[trigger] ids.len() == list@.len()
                    &&& forall|i: int|
                        0 <= i < ids.len() ==> (#[trigger] list@[i]) == self.table()[ids[i]].metadata
                },
    {
        let ids = self.plugin_ids();
        let mut list: Vec<PluginMetadata> = Vec::new();
        let mut i: usize = 0;
        while i < ids.len()
            invariant
                i <= ids.len(),
                list@.len() == i,
                forall|k: Seq<char>| #[trigger]
                    texts(ids@).contains(k) <==> self.table().dom().contains(k),
                forall|j: int|
                    0 <= j < i ==> (#[trigger] list@[j]) == self.table()[texts(ids@)[j]].metadata,
            decreases ids.len() - i,
        {
            assert(texts(ids@)[i as int] == ids@[i as int]@);
            assert(texts(ids@).contains(ids@[i as int]@));
            match table_get(&self.plugins, ids[i].as_str()) {
                Some(plugin) => {
                    list.push(plugin.metadata);
                },
                None => {
                    assert(false);
                },
            }
            i = i + 1;
        }
        assert(texts(ids@).len() == list@.len());
        list
    }

    /// Scans the plugin directory again, given the files that are in it.
    ///
    /// Every WebAssembly module file among `files` is loaded; a file that
    /// fails to load changes nothing, so a plugin that was active stays
    /// active as it was.  Then every active plugin whose file is no longer
    /// there is dropped.  Says how many files loaded: each file either
    /// loaded or did not, a file that loaded is a module file whose plugin
    /// is active afterwards, and a plugin that is active afterwards and was
    /// not before comes from a file that loaded.
    pub fn reload_all_plugins(&mut self, files: &Vec<PluginFile>) -> (loaded: usize)
        requires
            old(self).wf(),
        ensures
            final(self).wf(),
            final(self).plugin_dir == old(self).plugin_dir,
            final(self).allowed_imports == old(self).allowed_imports,
            store_key(final(self).store) == store_key(old(self).store),
            loaded <= files.len(),
            exists|outcomes: Seq<bool>|
                #![auto]
                reloaded(files@, old(self).table(), final(self).table(), outcomes) && loaded
                    == count_set(outcomes),
            forall|k: Seq<char>| #[trigger]
                final(self).table().dom().contains(k) ==> has_file(files@, k),
            forall|k: Seq<char>| #[trigger]
                old(self).table().dom().contains(k) && has_file(files@, k) ==> final(self).table().dom().contains(k),
    {
        let mut loaded: usize = 0;
        let mut scanned: Vec<String> = Vec::new();
        let ghost mut outcomes: Seq<bool> = Seq::empty();
        let mut i: usize = 0;
        while i < files.len()
            invariant
                i <= files.len(),
                loaded <= i,
                outcomes.len() == i,
                loaded == count_set(outcomes),
                forall|j: int|
                    0 <= j < i && #[trigger] outcomes[j] ==> file_active(files@[j], self.table()),
                forall|k: Seq<char>| #[trigger]
                    self.table().dom().contains(k) ==> old(self).table().dom().contains(k)
                        || loaded_from(files@, outcomes, k),
                self.wf(),
                self.plugin_dir == old(self).plugin_dir,
                self.allowed_imports == old(self).allowed_imports,
                store_key(self.store) == store_key(old(self).store),
                forall|k: Seq<char>| #[trigger]
                    texts(scanned@).contains(k) <==> has_file(files@.subrange(0, i as int), k),
                forall|k: Seq<char>| #[trigger]
                    old(self).table().dom().contains(k) ==> self.table().dom().contains(k),
                forall|k: Seq<char>| #[trigger]
                    self.table().dom().contains(k) ==> old(self).table().dom().contains(k)
                        || texts(scanned@).contains(k),
            decreases files.len() - i,
        {
            let ghost done = files@.subrange(0, i as int);
            let ghost next = files@.subrange(0, i as int + 1);
            let ghost seen = texts(scanned@);
            assert forall|k: Seq<char>| #[trigger] seen.contains(k) <==> has_file(done, k) by {}
            let ghost path = files@[i as int].path@;
            let ghost added = if spec_is_wasm_file(path) {
                spec_plugin_id(path)
            } else {
                None
            };
            let ghost entered = self.table();
            let ghost earlier = outcomes;
            let ghost mut success = false;
            if is_wasm_file(files[i].path.as_str()) {
                match plugin_id_of(files[i].path.as_str()) {
                    Some(id) => {
                        scanned.push(id);
                        assert(texts(scanned@) =~= seen.push(id@));
                    },
                    None => {},
                }
                let ghost before = self.table();
                match self.load_plugin(files[i].path.as_str(), &files[i].bytes) {
                    Ok(plugin) => {
                        loaded = loaded + 1;
                        proof {
                            success = true;
                        }
                        assert(texts(scanned@).last() == plugin.id@);
                        assert forall|k: Seq<char>| #[trigger]
                            self.table().dom().contains(k) implies old(self).table().dom().contains(
                            k,
                        ) || texts(scanned@).contains(k) by {
                            if k == plugin.id@ {
                                assert(texts(scanned@)[scanned@.len() - 1] == k);
                            } else {
                                assert(before.dom().contains(k));
                                if seen.contains(k) {
                                    let j = choose|j: int| 0 <= j < seen.len() && seen[j] == k;
                                    assert(texts(scanned@)[j] == k);
                                }
                            }
                        }
                    },
                    Err(_) => {
                        assert forall|k: Seq<char>| #[trigger]
                            self.table().dom().contains(k) implies old(self).table().dom().contains(
                            k,
                        ) || texts(scanned@).contains(k) by {
                            if seen.contains(k) {
                                let j = choose|j: int| 0 <= j < seen.len() && seen[j] == k;
                                assert(texts(scanned@)[j] == k);
                            }
                        }
                    },
                }
            }
            proof {
                outcomes = earlier.push(success);
                assert(outcomes.drop_last() =~= earlier);
                assert forall|k: Seq<char>| #[trigger] entered.dom().contains(k) implies self.table().dom().contains(
                    k,
                ) by {}
                assert forall|j: int| 0 <= j < i + 1 && #[trigger] outcomes[j] implies file_active(
                    files@[j],
                    self.table(),
                ) by {
                    if j < i {
                        assert(earlier[j]);
                        assert(file_active(files@[j], entered));
                    }
                }
                assert forall|k: Seq<char>| #[trigger]
                    self.table().dom().contains(k) implies old(self).table().dom().contains(k)
                    || loaded_from(files@, outcomes, k) by {
                    if entered.dom().contains(k) {
                        if !old(self).table().dom().contains(k) {
                            let j = choose|j: int|
                                0 <= j < earlier.len() && j < files@.len() && earlier[j]
                                    && spec_plugin_id(files@[j].path@) == Some(k);
                            assert(outcomes[j]);
                        }
                    } else {
                        assert(outcomes[i as int]);
                        assert(spec_plugin_id(files@[i as int].path@) == Some(k));
                    }
                }
                assert(texts(scanned@) == match added {
                    Some(id) => seen.push(id),
                    None => seen,
                });
                assert(next[i as int] == files@[i as int]);
                assert forall|k: Seq<char>| #[trigger]
                    texts(scanned@).contains(k) <==> has_file(next, k) by {
                    if has_file(next, k) {
                        let j = choose|j: int|
                            0 <= j < next.len() && spec_is_wasm_file((#[trigger] next[j]).path@)
                                && spec_plugin_id(next[j].path@) == Some(k);
                        if j < i {
                            assert(done[j] == next[j]);
                            assert(has_file(done, k));
                            assert(seen.contains(k));
                            let m = choose|m: int| 0 <= m < seen.len() && seen[m] == k;
                            assert(texts(scanned@)[m] == k);
                        } else {
                            assert(texts(scanned@)[scanned@.len() - 1] == k);
                        }
                    }
                    if texts(scanned@).contains(k) {
                        let m = choose|m: int|
                            0 <= m < texts(scanned@).len() && texts(scanned@)[m] == k;
                        if m < seen.len() {
                            assert(seen[m] == k);
                            assert(seen.contains(k));
                            assert(has_file(done, k));
                            let j = choose|j: int|
                                0 <= j < done.len() && spec_is_wasm_file((#[trigger] done[j]).path@)
                                    && spec_plugin_id(done[j].path@) == Some(k);
                            assert(next[j] == done[j]);
                        } else {
                            assert(next[i as int] == files@[i as int]);
                            assert(spec_is_wasm_file(next[i as int].path@));
                        }
                    }
                }
            }
            i = i + 1;
        }
        assert(files@.subrange(0, files@.len() as int) =~= files@);
        let active = self.plugin_ids();
        let ghost middle = self.table();
        let mut k: usize = 0;
        while k < active.len()
            invariant
                k <= active@.len(),
                outcomes.len() == files@.len(),
                loaded == count_set(outcomes),
                forall|j: int|
                    0 <= j < files@.len() && #[trigger] outcomes[j] ==> file_active(
                        files@[j],
                        middle,
                    ),
                forall|id: Seq<char>| #[trigger]
                    middle.dom().contains(id) ==> old(self).table().dom().contains(id)
                        || loaded_from(files@, outcomes, id),
                self.wf(),
                self.plugin_dir == old(self).plugin_dir,
                self.allowed_imports == old(self).allowed_imports,
                store_key(self.store) == store_key(old(self).store),
                forall|id: Seq<char>| #[trigger]
                    texts(scanned@).contains(id) <==> has_file(files@, id),
                forall|id: Seq<char>| #[trigger]
                    texts(active@).contains(id) <==> middle.dom().contains(id),
                forall|id: Seq<char>| #[trigger]
                    self.table().dom().contains(id) ==> middle.dom().contains(id),
                forall|id: Seq<char>| #[trigger]
                    middle.dom().contains(id) && has_file(files@, id) ==> self.table().dom().contains(
                        id,
                    ),
                forall|j: int|
                    0 <= j < k ==> !self.table().dom().contains(#[trigger] texts(active@)[j])
                        || has_file(files@, texts(active@)[j]),
            decreases active@.len() - k,
        {
            assert(texts(active@)[k as int] == active@[k as int]@);
            if !holds_text(&scanned, active[k].as_str()) {
                self.unload_plugin(active[k].as_str());
            }
            k = k + 1;
        }
        proof {
            assert forall|id: Seq<char>| #[trigger]
                self.table().dom().contains(id) implies has_file(files@, id) by {
                assert(middle.dom().contains(id));
                assert(texts(active@).contains(id));
                let j = choose|j: int| 0 <= j < texts(active@).len() && texts(active@)[j] == id;
                assert(!self.table().dom().contains(texts(active@)[j]) || has_file(
                    files@,
                    texts(active@)[j],
                ));
            }
            assert forall|j: int| 0 <= j < files@.len() && #[trigger] outcomes[j] implies file_active(
                files@[j],
                self.table(),
            ) by {
                assert(file_active(files@[j], middle));
                assert(has_file(files@, spec_plugin_id(files@[j].path@)->0));
            }
            assert forall|id: Seq<char>| #[trigger]
                self.table().dom().contains(id) implies old(self).table().dom().contains(id)
                || loaded_from(files@, outcomes, id) by {
                assert(middle.dom().contains(id));
            }
            assert(reloaded(files@, old(self).table(), self.table(), outcomes));
        }
        loaded
    }
}

/// How many flags of a list are set.
pub open spec fn count_set(flags: Seq<bool>) -> nat
    decreases flags.len(),
{
    if flags.len() == 0 {
        0
    } else if flags.last() {
        count_set(flags.drop_last()) + 1
    } else {
        count_set(flags.drop_last())
    }
}

/// Whether a file is a module file whose plugin is active in a table.
pub open spec fn file_active(file: PluginFile, table: Map<Seq<char>, Plugin>) -> bool {
    spec_is_wasm_file(file.path@) && spec_plugin_id(file.path@) is Some && table.dom().contains(
        spec_plugin_id(file.path@)->0,
    )
}

/// Whether the plugin of the given id comes from one of the files that
/// loaded.
pub open spec fn loaded_from(files: Seq<PluginFile>, outcomes: Seq<bool>, id: Seq<char>) -> bool {
    exists|j: int|
        0 <= j < outcomes.len() && j < files.len() && #[trigger] outcomes[j] && spec_plugin_id(
            files[j].path@,
        ) == Some(id)
}

/// What a scan of the plugin directory comes to, given for each file
/// whether it loaded: a file that loaded is a module file whose plugin is
/// active afterwards, and a plugin that is active afterwards was active
/// before or comes from a file that loaded.
pub open spec fn reloaded(
    files: Seq<PluginFile>,
    before: Map<Seq<char>, Plugin>,
    after: Map<Seq<char>, Plugin>,
    outcomes: Seq<bool>,
) -> bool {
    &&& outcomes.len() == files.len()
    &&& forall|j: int|
        0 <= j < files.len() && #[trigger] outcomes[j] ==> file_active(files[j], after)
    &&& forall|id: Seq<char>| #[trigger]
        after.dom().contains(id) ==> before.dom().contains(id) || loaded_from(files, outcomes, id)
}

/// Whether a list of files holds a WebAssembly module file for the plugin
/// of the given id.
pub open spec fn has_file(files: Seq<PluginFile>, id: Seq<char>) -> bool {
    exists|i: int|
        0 <= i < files.len() && spec_is_wasm_file((#[trigger] files[i]).path@) && spec_plugin_id(
            files[i].path@,
        ) == Some(id)
}

} // verus!
