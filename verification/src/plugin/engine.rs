//! The WebAssembly engine, as far as the plugin host needs it.
//!
//! Everything here is trusted: each function wraps one operation of the
//! engine.  What a module does when called is its own business, so the
//! contracts promise nothing about what a call answers.
//!
//! Every instance, function and memory lives in the store it was made
//! in, and the engine refuses to touch one through another store.  Each
//! store therefore has a key, each object the key of its store, and the
//! functions that reach into a store require the keys to agree.

use vstd::prelude::*;
use vstd::utf8::{decode_utf8, valid_utf8};

verus! {

#[verifier::external_type_specification]
#[verifier::external_body]
pub struct ExStore(wasmer::Store);

#[verifier::external_type_specification]
#[verifier::external_body]
pub struct ExModule(wasmer::Module);

#[verifier::external_type_specification]
#[verifier::external_body]
pub struct ExInstance(wasmer::Instance);

#[verifier::external_type_specification]
#[verifier::external_body]
pub struct ExImports(wasmer::Imports);

#[verifier::external_type_specification]
#[verifier::external_body]
pub struct ExFunction(wasmer::Function);

#[verifier::external_type_specification]
#[verifier::external_body]
pub struct ExMemory(wasmer::Memory);

/// The key of a store: what tells it from every other store.
pub uninterp spec fn store_key(store: wasmer::Store) -> int;

/// The key of the store an instance lives in.
pub uninterp spec fn instance_key(instance: wasmer::Instance) -> int;

/// The key of the store a function lives in.
pub uninterp spec fn function_key(function: wasmer::Function) -> int;

/// The key of the store a memory lives in.
pub uninterp spec fn memory_key(memory: wasmer::Memory) -> int;

/// The names under which an instance exports a function.
pub uninterp spec fn exported_functions(instance: wasmer::Instance) -> Set<Seq<char>>;

/// The names under which an instance exports a memory.
pub uninterp spec fn exported_memories(instance: wasmer::Instance) -> Set<Seq<char>>;

/// `Clone` for `wasmer::Instance`: another handle to the same instance,
/// in the same store and with the same exports.
pub assume_specification[ <wasmer::Instance as Clone>::clone ](instance: &wasmer::Instance) -> (copy: wasmer::Instance)
    ensures
        instance_key(copy) == instance_key(*instance),
        exported_functions(copy) == exported_functions(*instance),
        exported_memories(copy) == exported_memories(*instance),
;

/// One import that a module declares: the namespace and the name in it.
pub struct ImportName {
    pub module: String,
    pub name: String,
}

/// `wasmer::Store::new` over `wasmer::Engine::default` with
/// `BaseTunables`: a store with the default compiler, in which a memory
/// of more than `static_pages` pages is allocated by its actual size,
/// with `guard_bytes` of guard behind it.
#[verifier::external_body]
pub(crate) fn new_store(static_pages: u32, guard_bytes: u64) -> wasmer::Store {
    let mut engine = wasmer::Engine::default();
    let tunables = wasmer::sys::BaseTunables {
        static_memory_bound: wasmer::Pages(static_pages),
        static_memory_offset_guard_size: guard_bytes,
        dynamic_memory_offset_guard_size: guard_bytes,
    };
    wasmer::sys::NativeEngineExt::set_tunables(&mut engine, tunables);
    wasmer::Store::new(engine)
}

/// What compiling module bytes with a store's engine comes to: the
/// imports of the compiled module, or nothing where the engine refuses
/// the bytes.
pub uninterp spec fn compiled_imports(store: wasmer::Store, bytes: Seq<u8>) -> Option<Seq<(Seq<char>, Seq<char>)>>;

/// The imports of the module that a compilation gave, if it gave one.
pub open spec fn imports_of(compiled: Result<wasmer::Module, String>) -> Option<
    Seq<(Seq<char>, Seq<char>)>,
> {
    match compiled {
        Ok(module) => Some(module_import_names(module)),
        Err(_) => None,
    }
}

/// `wasmer::Module::new`: compiles module bytes (binary or text format)
/// with the store's engine.  The error is the engine's message.
#[verifier::external_body]
pub(crate) fn compile_module(store: &wasmer::Store, bytes: &Vec<u8>) -> (compiled: Result<
    wasmer::Module,
    String,
>)
    ensures
        imports_of(compiled) == compiled_imports(*store, bytes@),
{
    wasmer::Module::new(store, bytes.as_slice()).map_err(|e| e.to_string())
}

/// What a module imports: for each import the namespace and the name in
/// it, in the order of the module's bytes.
pub uninterp spec fn module_import_names(module: wasmer::Module) -> Seq<(Seq<char>, Seq<char>)>;

/// The imports of a list as pairs of a namespace and a name.
pub open spec fn import_views(imports: Seq<ImportName>) -> Seq<(Seq<char>, Seq<char>)> {
    imports.map_values(|i: ImportName| (i.module@, i.name@))
}

/// `wasmer::Module::imports`: the imports the module declares, in the
/// order of the module's bytes.
#[verifier::external_body]
pub(crate) fn module_imports(module: &wasmer::Module) -> (imports: Vec<ImportName>)
    ensures
        import_views(imports@) == module_import_names(*module),
{
    module.imports().map(
        |i| ImportName { module: i.module().to_string(), name: i.name().to_string() },
    ).collect()
}

/// `wasmer::Imports::new`: an import object that offers nothing.
#[verifier::external_body]
pub(crate) fn no_imports() -> wasmer::Imports {
    wasmer::Imports::new()
}

/// `wasmer::Instance::new`: instantiates a module against an import
/// object.  Fails where an import is missing or of the wrong type, or
/// where the start function traps; the error is the engine's message.
/// The store stays the store it was, and the instance lives in it.
#[verifier::external_body]
pub(crate) fn instantiate(
    store: &mut wasmer::Store,
    module: &wasmer::Module,
    imports: &wasmer::Imports,
) -> (r: Result<wasmer::Instance, String>)
    ensures
        store_key(*final(store)) == store_key(*old(store)),
        r matches Ok(instance) ==> instance_key(instance) == store_key(*old(store)),
{
    wasmer::Instance::new(store, module, imports).map_err(|e| e.to_string())
}

/// `Exports::get_function`: the exported function of that name, if the
/// instance exports one.  It lives in the instance's store.
#[verifier::external_body]
pub(crate) fn exported_function(instance: &wasmer::Instance, name: &str) -> (f: Option<
    wasmer::Function,
>)
    ensures
        f is Some <==> exported_functions(*instance).contains(name@),
        f matches Some(function) ==> function_key(function) == instance_key(*instance),
{
    instance.exports.get_function(name).ok().cloned()
}

/// `Exports::get_memory`: the exported memory of that name, if the
/// instance exports one.  It lives in the instance's store.
#[verifier::external_body]
pub(crate) fn exported_memory(instance: &wasmer::Instance, name: &str) -> (m: Option<
    wasmer::Memory,
>)
    ensures
        m is Some <==> exported_memories(*instance).contains(name@),
        m matches Some(memory) ==> memory_key(memory) == instance_key(*instance),
{
    instance.exports.get_memory(name).ok().cloned()
}

/// `wasmer::Function::call` with 32-bit integer arguments.  Each result
/// is given as `Some` where it is a 32-bit integer and `None` otherwise.
/// A trap, or arguments that do not fit the function's type, give the
/// engine's message as the error.  The call lasts as long as the module's
/// code runs.  The function must live in `store`, which stays the store
/// it was.
#[verifier::external_body]
pub(crate) fn call_function(
    store: &mut wasmer::Store,
    function: &wasmer::Function,
    args: &Vec<i32>,
) -> (r: Result<Vec<Option<i32>>, String>)
    requires
        function_key(*function) == store_key(*old(store)),
    ensures
        store_key(*final(store)) == store_key(*old(store)),
{
    let params: Vec<wasmer::Value> = args.iter().map(|a| wasmer::Value::I32(*a)).collect();
    match function.call(store, &params) {
        Ok(values) => Ok(values.iter().map(|v| v.i32()).collect()),
        Err(e) => Err(e.to_string()),
    }
}

/// What a memory holds in a store: its bytes, from the first to the last
/// of its current size.
pub uninterp spec fn memory_bytes(store: wasmer::Store, memory: wasmer::Memory) -> Seq<u8>;

/// The `len` bytes of `bytes` from `offset` on, where that range lies
/// inside `bytes`.
pub open spec fn region_of(bytes: Seq<u8>, offset: int, len: int) -> Option<Seq<u8>> {
    if 0 <= offset && 0 <= len && offset + len <= bytes.len() {
        Some(bytes.subrange(offset, offset + len))
    } else {
        None
    }
}

/// `bytes` with `data` written over it from `offset` on, where that range
/// lies inside `bytes`; `bytes` as it is otherwise.
pub open spec fn written(bytes: Seq<u8>, offset: int, data: Seq<u8>) -> Seq<u8> {
    if 0 <= offset && offset + data.len() <= bytes.len() {
        bytes.subrange(0, offset) + data + bytes.subrange(offset + data.len(), bytes.len() as int)
    } else {
        bytes
    }
}

/// The bytes of an optional buffer.
pub open spec fn buffer_view(buffer: Option<Vec<u8>>) -> Option<Seq<u8>> {
    match buffer {
        Some(v) => Some(v@),
        None => None,
    }
}

/// `MemoryView::data_size`: the current size of a memory, in bytes.
/// The memory must live in `store`.
#[verifier::external_body]
pub(crate) fn memory_size(store: &wasmer::Store, memory: &wasmer::Memory) -> (size: u64)
    requires
        memory_key(*memory) == store_key(*store),
    ensures
        size == memory_bytes(*store, *memory).len(),
{
    memory.view(store).data_size()
}

/// `MemoryView::read`: the `len` bytes of the memory from `offset` on, or
/// `None` where that range is not inside the memory.  The memory must
/// live in `store`.
#[verifier::external_body]
pub(crate) fn memory_read(
    store: &wasmer::Store,
    memory: &wasmer::Memory,
    offset: u64,
    len: usize,
) -> (r: Option<Vec<u8>>)
    requires
        memory_key(*memory) == store_key(*store),
    ensures
        buffer_view(r) == region_of(memory_bytes(*store, *memory), offset as int, len as int),
{
    let mut buf = vec![0u8; len];
    memory.view(store).read(offset, &mut buf).ok().map(|_| buf)
}

/// `MemoryView::write`: copies `data` into the memory at `offset`, and
/// says so.  Where the range is not inside the memory, nothing is
/// written and the answer is `false`.  The store is taken as changed,
/// since what its memory holds changes; it stays the store it was.  The
/// memory must live in it.
#[verifier::external_body]
pub(crate) fn memory_write(
    store: &mut wasmer::Store,
    memory: &wasmer::Memory,
    offset: u64,
    data: &Vec<u8>,
) -> (done: bool)
    requires
        memory_key(*memory) == store_key(*old(store)),
    ensures
        store_key(*final(store)) == store_key(*old(store)),
        done == (offset + data@.len() <= memory_bytes(*old(store), *memory).len()),
        memory_bytes(*final(store), *memory) == written(
            memory_bytes(*old(store), *memory),
            offset as int,
            data@,
        ),
{
    memory.view(&*store).write(offset, data.as_slice()).is_ok()
}

/// `String::from_utf8`: the text that the bytes encode, where they are
/// valid UTF-8.
#[verifier::external_body]
pub(crate) fn utf8_text(bytes: Vec<u8>) -> (r: Option<String>)
    ensures
        r is Some <==> valid_utf8(bytes@),
        r matches Some(s) ==> s@ == decode_utf8(bytes@),
{
    String::from_utf8(bytes).ok()
}

} // verus!
