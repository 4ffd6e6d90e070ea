//! Passing text in and out of a plugin's linear memory.
//!
//! A plugin is handed its payload in a region it allocated itself, and
//! answers with a pointer and a length.  Both numbers come from foreign
//! code: they are checked against the memory's size before anything is
//! read or written.

use vstd::prelude::*;
use vstd::utf8::{decode_utf8, encode_utf8, valid_utf8};
use crate::json::{
    json_elements,
    json_member,
    json_parse,
    json_reading,
    json_text,
    json_tree,
    list_view,
    lookup_list,
    lookup_text,
    spec_text,
    text_view,
    JsonTree,
};
use crate::plugin::engine::{
    call_function,
    exported_function,
    exported_functions,
    exported_memories,
    exported_memory,
    instance_key,
    memory_bytes,
    memory_key,
    memory_read,
    memory_size,
    memory_write,
    region_of,
    store_key,
    utf8_text,
    written,
};
use crate::plugin::error::{failure_of, PluginError, PluginFailure};
use crate::plugin::hooks::PluginMetadata;
use crate::plugin::record::{
    bindings_conventional,
    bound_function,
    hook_function_name,
    lemma_bound_function_conventional,
    lemma_bound_function_found,
    lemma_bound_function_witness,
    HookBinding,
    Plugin,
};
use crate::text::{concat, concat3, same_text};

verus! {

/// A 32-bit WebAssembly integer read as an unsigned number.
pub open spec fn unsigned(x: i32) -> int {
    if x >= 0 {
        x as int
    } else {
        x + 0x1_0000_0000
    }
}

/// An unsigned 32-bit number as the WebAssembly integer with the same bits.
pub open spec fn signed(x: u32) -> int {
    if x <= 0x7fff_ffff {
        x as int
    } else {
        x - 0x1_0000_0000
    }
}

pub fn to_unsigned(x: i32) -> (r: u32)
    ensures
        r == unsigned(x),
{
    if x >= 0 {
        x as u32
    } else {
        let wide: i64 = x as i64 + 4294967296i64;
        wide as u32
    }
}

pub fn to_signed(x: u32) -> (r: i32)
    ensures
        r == signed(x),
{
    if x <= 0x7fff_ffff {
        x as i32
    } else {
        let wide: i64 = x as i64 - 4294967296i64;
        wide as i32
    }
}

/// The first result of a call, where there is one and it is a 32-bit
/// integer.
pub open spec fn spec_first_value(values: Seq<Option<i32>>) -> Option<int> {
    if values.len() >= 1 && values[0] is Some {
        Some(unsigned(values[0]->0))
    } else {
        None
    }
}

/// The first two results of a call, where both are 32-bit integers.
pub open spec fn spec_value_pair(values: Seq<Option<i32>>) -> Option<(int, int)> {
    if values.len() >= 2 && values[0] is Some && values[1] is Some {
        Some((unsigned(values[0]->0), unsigned(values[1]->0)))
    } else {
        None
    }
}

pub fn first_value(values: &Vec<Option<i32>>) -> (r: Option<u32>)
    ensures
        match r {
            Some(p) => spec_first_value(values@) == Some(p as int),
            None => spec_first_value(values@) is None,
        },
{
    if values.len() >= 1 {
        match values[0] {
            Some(p) => Some(to_unsigned(p)),
            None => None,
        }
    } else {
        None
    }
}

pub fn value_pair(values: &Vec<Option<i32>>) -> (r: Option<(u32, u32)>)
    ensures
        match r {
            Some((p, l)) => spec_value_pair(values@) == Some((p as int, l as int)),
            None => spec_value_pair(values@) is None,
        },
{
    if values.len() >= 2 {
        match (values[0], values[1]) {
            (Some(p), Some(l)) => Some((to_unsigned(p), to_unsigned(l))),
            _ => None,
        }
    } else {
        None
    }
}

/// Whether the region of `len` bytes at `ptr` lies inside a memory of
/// `size` bytes.
pub fn in_bounds(ptr: u32, len: u32, size: u64) -> (r: bool)
    ensures
        r == (ptr + len <= size),
{
    ptr as u64 + len as u64 <= size
}

/// The text that a region's bytes hold.  Bytes that are not valid UTF-8
/// are a `SerializationError`.
pub fn decode_region(bytes: Vec<u8>) -> (r: Result<String, PluginError>)
    ensures
        match r {
            Ok(s) => valid_utf8(bytes@) && s@ == decode_utf8(bytes@),
            Err(PluginError::SerializationError(m)) => !valid_utf8(bytes@) && m@
                == "UTF-8 inválido"@,
            Err(_) => false,
        },
{
    match utf8_text(bytes) {
        Some(s) => Ok(s),
        None => Err(PluginError::SerializationError("UTF-8 inválido".to_owned())),
    }
}

/// Reads the text in the region `(ptr, len)` of a memory.  A region that
/// reaches past the end of the memory is a `WasmExecutionError`, and is
/// never read.  The memory must live in `store`.
pub fn read_region(store: &wasmer::Store, memory: &wasmer::Memory, ptr: u32, len: u32) -> (r: Result<
    String,
    PluginError,
>)
    requires
        memory_key(*memory) == store_key(*store),
    ensures
        match r {
            Ok(text) => region_of(memory_bytes(*store, *memory), ptr as int, len as int)
                matches Some(region) && valid_utf8(region) && text@ == decode_utf8(region),
            Err(PluginError::WasmExecutionError(m)) => region_of(
                memory_bytes(*store, *memory),
                ptr as int,
                len as int,
            ) is None && m@ == "Região fora dos limites da memória"@,
            Err(PluginError::SerializationError(m)) => region_of(
                memory_bytes(*store, *memory),
                ptr as int,
                len as int,
            ) matches Some(region) && !valid_utf8(region) && m@ == "UTF-8 inválido"@,
            Err(_) => false,
        },
{
    let size = memory_size(store, memory);
    if !in_bounds(ptr, len, size) {
        return Err(
            PluginError::WasmExecutionError("Região fora dos limites da memória".to_owned()),
        );
    }
    match memory_read(store, memory, ptr as u64, len as usize) {
        Some(bytes) => decode_region(bytes),
        None => Err(
            PluginError::WasmExecutionError("Região fora dos limites da memória".to_owned()),
        ),
    }
}

/// Copies `data` into the region at `ptr`.  A region that reaches past the
/// end of the memory is a `WasmExecutionError`, and nothing is written.
/// The memory must live in `store`.
pub fn write_region(store: &mut wasmer::Store, memory: &wasmer::Memory, ptr: u32, data: &Vec<u8>) -> (r:
    Result<(), PluginError>)
    requires
        data.len() <= 0x7fff_ffff,
        memory_key(*memory) == store_key(*old(store)),
    ensures
        store_key(*final(store)) == store_key(*old(store)),
        match r {
            Ok(_) => ptr + data@.len() <= memory_bytes(*old(store), *memory).len(),
            Err(PluginError::WasmExecutionError(m)) => ptr + data@.len() > memory_bytes(
                *old(store),
                *memory,
            ).len() && m@ == "Região fora dos limites da memória"@,
            Err(_) => false,
        },
        memory_bytes(*final(store), *memory) == written(
            memory_bytes(*old(store), *memory),
            ptr as int,
            data@,
        ),
{
    let size = memory_size(store, memory);
    if !in_bounds(ptr, data.len() as u32, size) {
        return Err(
            PluginError::WasmExecutionError("Região fora dos limites da memória".to_owned()),
        );
    }
    if !memory_write(store, memory, ptr as u64, data) {
        return Err(
            PluginError::WasmExecutionError("Região fora dos limites da memória".to_owned()),
        );
    }
    Ok(())
}

/// The arguments of a plugin's `alloc`: the number of bytes asked for.
pub fn alloc_arguments(len: u32) -> (args: Vec<i32>)
    ensures
        args@.len() == 1,
        args@[0] as int == signed(len),
{
    let mut args: Vec<i32> = Vec::new();
    args.push(to_signed(len));
    args
}

/// The arguments of a hook function, and of a plugin's `dealloc`: the
/// pointer to a region and its length.
pub fn hook_arguments(ptr: u32, len: u32) -> (args: Vec<i32>)
    ensures
        args@.len() == 2,
        args@[0] as int == signed(ptr),
        args@[1] as int == signed(len),
{
    let mut args: Vec<i32> = Vec::new();
    args.push(to_signed(ptr));
    args.push(to_signed(len));
    args
}

/// Hands a region back to the plugin, where it exports `dealloc`.  What
/// `dealloc` does with it is the plugin's; the store stays the store it
/// was.
fn release(store: &mut wasmer::Store, instance: &wasmer::Instance, ptr: u32, len: u32)
    requires
        instance_key(*instance) == store_key(*old(store)),
    ensures
        store_key(*final(store)) == store_key(*old(store)),
        !exported_functions(*instance).contains("dealloc"@) ==> *final(store) == *old(store),
{
    match exported_function(instance, "dealloc") {
        Some(dealloc) => {
            let args = hook_arguments(ptr, len);
            let _ = call_function(store, &dealloc, &args);
        },
        None => {},
    }
}

/// What a call of a hook function came to: the region `(ptr, len)` of the
/// answer.  A failed call carries the engine's message; results that are
/// not two 32-bit integers are malformed.  Both are `WasmExecutionError`.
pub fn answer_region(call: Result<Vec<Option<i32>>, String>) -> (r: Result<
    (u32, u32),
    PluginError,
>)
    ensures
        match r {
            Ok((p, l)) => call is Ok && spec_value_pair(call->Ok_0@) == Some((p as int, l as int)),
            Err(PluginError::WasmExecutionError(m)) => match call {
                Ok(values) => spec_value_pair(values@) is None && m@
                    == "Retorno de função inválido"@,
                Err(e) => m@ == e@,
            },
            Err(_) => false,
        },
{
    match call {
        Ok(values) => match value_pair(&values) {
            Some(pair) => Ok(pair),
            None => Err(PluginError::WasmExecutionError("Retorno de função inválido".to_owned())),
        },
        Err(e) => Err(PluginError::WasmExecutionError(e)),
    }
}

/// What a call of `alloc` came to: the pointer to the new region.
pub fn allocated_pointer(call: Result<Vec<Option<i32>>, String>) -> (r: Result<u32, PluginError>)
    ensures
        match r {
            Ok(p) => call is Ok && spec_first_value(call->Ok_0@) == Some(p as int),
            Err(PluginError::WasmExecutionError(m)) => match call {
                Ok(values) => spec_first_value(values@) is None && m@
                    == "Falha na alocação de memória"@,
                Err(e) => m@ == e@,
            },
            Err(_) => false,
        },
{
    match call {
        Ok(values) => match first_value(&values) {
            Some(p) => Ok(p),
            None => Err(PluginError::WasmExecutionError("Falha na alocação de memória".to_owned())),
        },
        Err(e) => Err(PluginError::WasmExecutionError(e)),
    }
}

/// What the call of `get_metadata` came to: the region of the metadata
/// text.  A failed call is a `WasmExecutionError`; results that are not
/// two 32-bit integers are a `MetadataError`.
pub fn metadata_region(call: Result<Vec<Option<i32>>, String>) -> (r: Result<
    (u32, u32),
    PluginError,
>)
    ensures
        match r {
            Ok((p, l)) => call is Ok && spec_value_pair(call->Ok_0@) == Some((p as int, l as int)),
            Err(PluginError::WasmExecutionError(m)) => call is Err && m@ == call->Err_0@,
            Err(PluginError::MetadataError(m)) => call is Ok && spec_value_pair(call->Ok_0@)
                is None && m@ == "Retorno de metadados inválido"@,
            Err(_) => false,
        },
{
    match call {
        Ok(values) => match value_pair(&values) {
            Some(pair) => Ok(pair),
            None => Err(PluginError::MetadataError("Retorno de metadados inválido".to_owned())),
        },
        Err(e) => Err(PluginError::WasmExecutionError(e)),
    }
}

/// The text in the region `(ptr, len)` of some bytes, where the region
/// lies inside them and is valid UTF-8.
pub open spec fn region_text(bytes: Seq<u8>, ptr: int, len: int) -> Option<Seq<char>> {
    match region_of(bytes, ptr, len) {
        Some(region) => if valid_utf8(region) {
            Some(decode_utf8(region))
        } else {
            None
        },
        None => None,
    }
}

/// Whether a text stands in some region of a memory of the given
/// instance, as the store holding it may be at some moment.
pub open spec fn answered_from(instance: wasmer::Instance, text: Seq<char>) -> bool {
    exists|at: wasmer::Store, memory: wasmer::Memory, ptr: u32, len: u32|
        memory_key(memory) == instance_key(instance) && store_key(at) == instance_key(instance)
            && #[trigger] region_text(memory_bytes(at, memory), ptr as int, len as int) == Some(
            text,
        )
}

/// Why an invocation ends before any of the plugin's code is run, if it
/// does: the hook is not served, the payload does not fit a region, or
/// the plugin exports no `alloc`.  The first that holds counts.
pub open spec fn refused_early(plugin: Plugin, hook: Seq<char>, payload: Seq<char>) -> Option<
    PluginFailure,
> {
    if plugin.function_for(hook) is None {
        Some(PluginFailure::FunctionNotFound(hook + " em "@ + plugin.id@))
    } else if encode_utf8(payload).len() > 0x7fff_ffff {
        Some(PluginFailure::WasmExecutionError("Payload grande demais"@))
    } else if !exported_functions(plugin.instance).contains("alloc"@) {
        Some(PluginFailure::FunctionNotFound("alloc"@))
    } else {
        None
    }
}

/// What invoking a hook of a plugin comes to.
///
/// Where the invocation is refused before any of the plugin's code is
/// run, the result is that refusal and the store is untouched.  Otherwise
/// `alloc` is called and the rest is up to the plugin: an answer is a
/// text that stood in the plugin's memory; a `FunctionNotFound` names the
/// hook's function, which the plugin then does not export; any other
/// failure is a `WasmExecutionError` or a `SerializationError`.
pub open spec fn invoked(
    plugin: Plugin,
    hook: Seq<char>,
    payload: Seq<char>,
    before: wasmer::Store,
    after: wasmer::Store,
    r: Result<String, PluginError>,
) -> bool {
    &&& store_key(after) == store_key(before)
    &&& match refused_early(plugin, hook, payload) {
        Some(failure) => r is Err && failure_of(r->Err_0) == failure && after == before,
        None => match r {
            Ok(text) => answered_from(plugin.instance, text@),
            Err(PluginError::FunctionNotFound(m)) => plugin.function_for(hook) == Some(m@)
                && !exported_functions(plugin.instance).contains(m@),
            Err(PluginError::WasmExecutionError(_)) => true,
            Err(PluginError::SerializationError(m)) => m@ == "UTF-8 inválido"@,
            Err(_) => false,
        },
    }
}

/// Where the name of a hook's function begins with the hook itself, a
/// blank in it has a blank five places before it, down to the first five
/// places.
proof fn lemma_blank_walks_down(hook: Seq<char>, name: Seq<char>, at: int)
    requires
        name == "hook_"@ + hook,
        forall|i: int| 0 <= i < hook.len() ==> #[trigger] name[i] == hook[i],
        0 <= at <= hook.len(),
        name[at] == ' ',
    ensures
        name[at % 5] == ' ',
    decreases at,
{
    reveal_strlit("hook_");
    if at >= 5 {
        assert("hook_"@.len() == 5);
        assert(name[at] == hook[at - 5]);
        assert(name[at - 5] == hook[at - 5]);
        lemma_blank_walks_down(hook, name, at - 5);
    }
}

/// The report of an unserved hook is not the name of the hook's
/// function, nor `alloc`.
pub proof fn lemma_report_is_no_function(hook: Seq<char>, id: Seq<char>)
    ensures
        hook + " em "@ + id != hook_function_name(hook),
        hook + " em "@ + id != "alloc"@,
{
    reveal_strlit(" em ");
    reveal_strlit("alloc");
    reveal_strlit("hook_");
    let report = hook + " em "@ + id;
    let blank = hook.len() as int;
    assert(report[blank] == " em "@[0]);
    assert(report[blank] == ' ');
    if report == "alloc"@ {
        assert(report.len() == 5);
        assert(blank <= 1);
        assert("alloc"@[0] == 'a' && "alloc"@[1] == 'l');
    }
    if report == hook_function_name(hook) {
        assert forall|i: int| 0 <= i < hook.len() implies #[trigger] report[i] == hook[i] by {}
        lemma_blank_walks_down(hook, report, blank);
        let first = blank % 5;
        assert(report[first] == "hook_"@[first]);
    }
}

/// A `FunctionNotFound` that names the hook and the plugin comes only
/// where the plugin does not serve the hook.
pub proof fn lemma_unserved_report(
    plugin: Plugin,
    hook: Seq<char>,
    payload: Seq<char>,
    before: wasmer::Store,
    after: wasmer::Store,
    r: Result<String, PluginError>,
)
    requires
        plugin.wf(),
        invoked(plugin, hook, payload, before, after, r),
        r matches Err(PluginError::FunctionNotFound(m)) && m@ == hook + " em "@ + plugin.id@,
    ensures
        plugin.function_for(hook) is None,
{
    lemma_report_is_no_function(hook, plugin.id@);
    lemma_bound_function_conventional(plugin.bindings(), hook);
}

/// Invokes the function that serves `hook` in a plugin, with `payload` as
/// its input, and returns the plugin's answer.
///
/// The payload is copied into a region that the plugin's `alloc` hands
/// out; the hook function gets that region and answers with another,
/// which is checked against the memory's size, read and decoded.  Both
/// regions are given back through `dealloc` where the plugin exports it.
///
/// A hook that the plugin does not serve is a `FunctionNotFound` that
/// names the hook and the plugin.  The plugin must live in `store`.
pub fn invoke_plugin_function(
    store: &mut wasmer::Store,
    plugin: &Plugin,
    hook: &str,
    payload: &str,
) -> (r: Result<String, PluginError>)
    requires
        instance_key(plugin.instance) == store_key(*old(store)),
    ensures
        invoked(*plugin, hook@, payload@, *old(store), *final(store), r),
{
    let function_name = match plugin.lookup(hook) {
        Some(name) => name,
        None => {
            return Err(
                PluginError::FunctionNotFound(concat3(hook, " em ", plugin.id.as_str())),
            );
        },
    };
    let data = payload.as_bytes_vec();
    if data.len() > 0x7fff_ffff {
        return Err(PluginError::WasmExecutionError("Payload grande demais".to_owned()));
    }
    let len: u32 = data.len() as u32;
    let alloc = match exported_function(&plugin.instance, "alloc") {
        Some(f) => f,
        None => {
            return Err(PluginError::FunctionNotFound("alloc".to_owned()));
        },
    };
    let alloc_args = alloc_arguments(len);
    let ptr = match allocated_pointer(call_function(store, &alloc, &alloc_args)) {
        Ok(p) => p,
        Err(e) => {
            return Err(e);
        },
    };
    let memory = match exported_memory(&plugin.instance, "memory") {
        Some(m) => m,
        None => {
            return Err(PluginError::WasmExecutionError("Memória não encontrada".to_owned()));
        },
    };
    match write_region(store, &memory, ptr, &data) {
        Ok(_) => {},
        Err(e) => {
            release(store, &plugin.instance, ptr, len);
            return Err(e);
        },
    }
    let hook_fn = match exported_function(&plugin.instance, function_name.as_str()) {
        Some(f) => f,
        None => {
            release(store, &plugin.instance, ptr, len);
            return Err(PluginError::FunctionNotFound(function_name));
        },
    };
    let hook_args = hook_arguments(ptr, len);
    let (answer_ptr, answer_len) = match answer_region(call_function(store, &hook_fn, &hook_args)) {
        Ok(region) => region,
        Err(e) => {
            release(store, &plugin.instance, ptr, len);
            return Err(e);
        },
    };
    let answer = read_region(store, &memory, answer_ptr, answer_len);
    let ghost at = *store;
    release(store, &plugin.instance, ptr, len);
    if answer.is_ok() {
        release(store, &plugin.instance, answer_ptr, answer_len);
        proof {
            assert(region_text(
                memory_bytes(at, memory),
                answer_ptr as int,
                answer_len as int,
            ) == Some(answer->Ok_0@));
        }
    }
    answer
}

/// The metadata that five parsed fields make.  Every field is required:
/// a missing or ill-typed one is a `SerializationError`.
pub fn metadata_from_fields(
    name: Option<String>,
    version: Option<String>,
    author: Option<String>,
    description: Option<String>,
    declared: Option<Vec<Option<String>>>,
) -> (r: Result<PluginMetadata, PluginError>)
    ensures
        match r {
            Ok(m) => {
                &&& name == Some(m.name)
                &&& version == Some(m.version)
                &&& author == Some(m.author)
                &&& description == Some(m.description)
                &&& declared is Some
                &&& m.hooks@.len() == declared->0@.len()
                &&& forall|i: int| 0 <= i < m.hooks@.len() ==> declared->0@[i] == Some(m.hooks@[i])
            },
            Err(e) => {
                &&& e is SerializationError
                &&& (name is None || version is None || author is None || description is None
                    || declared is None || exists|i: int|
                    0 <= i < declared->0@.len() && declared->0@[i] is None)
            },
        },
{
    match (name, version, author, description, declared) {
        (Some(name), Some(version), Some(author), Some(description), Some(items)) => {
            let mut hooks: Vec<String> = Vec::new();
            let mut i: usize = 0;
            while i < items.len()
                invariant
                    i <= items.len(),
                    declared == Some(items),
                    hooks@.len() == i,
                    forall|j: int| 0 <= j < i ==> items@[j] == Some(hooks@[j]),
                decreases items.len() - i,
            {
                match &items[i] {
                    Some(h) => {
                        hooks.push(h.clone());
                    },
                    None => {
                        assert(declared->0@[i as int] is None);
                        return Err(
                            PluginError::SerializationError(
                                "Campo 'hooks' inválido nos metadados".to_owned(),
                            ),
                        );
                    },
                }
                i = i + 1;
            }
            Ok(PluginMetadata { name, version, author, description, hooks })
        },
        _ => Err(PluginError::SerializationError("Metadados incompletos".to_owned())),
    }
}

fn text_member(document: &serde_json::Value, key: &str) -> (text: Option<String>)
    ensures
        text_view(text) == lookup_text(json_tree(*document), key@),
{
    match json_member(document, key) {
        Some(member) => json_text(&member),
        None => None,
    }
}

fn text_list_member(document: &serde_json::Value, key: &str) -> (list: Option<Vec<Option<String>>>)
    ensures
        list_view(list) == lookup_list(json_tree(*document), key@),
{
    let member = match json_member(document, key) {
        Some(m) => m,
        None => {
            return None;
        },
    };
    let items = match json_elements(&member) {
        Some(items) => items,
        None => {
            return None;
        },
    };
    let mut texts: Vec<Option<String>> = Vec::new();
    let mut i: usize = 0;
    while i < items.len()
        invariant
            i <= items.len(),
            texts@.len() == i,
            forall|j: int|
                0 <= j < i ==> text_view(#[trigger] texts@[j]) == spec_text(json_tree(items@[j])),
        decreases items.len() - i,
    {
        texts.push(json_text(&items[i]));
        i += 1;
    }
    proof {
        let listed = lookup_list(json_tree(*document), key@)->0;
        assert(list_view(Some(texts))->0 =~= listed);
    }
    Some(texts)
}

/// Whether a document holds all that a plugin must say of itself: the
/// text members `name`, `version`, `author` and `description`, and the
/// array member `hooks` with nothing but strings in it.
pub open spec fn metadata_complete(contents: JsonTree) -> bool {
    &&& lookup_text(contents, "name"@) is Some
    &&& lookup_text(contents, "version"@) is Some
    &&& lookup_text(contents, "author"@) is Some
    &&& lookup_text(contents, "description"@) is Some
    &&& lookup_list(contents, "hooks"@) matches Some(hooks)
    &&& forall|i: int| 0 <= i < hooks.len() ==> (#[trigger] hooks[i]) is Some
}

/// Whether a metadata is what a complete document says.
pub open spec fn metadata_matches(metadata: PluginMetadata, contents: JsonTree) -> bool {
    &&& lookup_text(contents, "name"@) == Some(metadata.name@)
    &&& lookup_text(contents, "version"@) == Some(metadata.version@)
    &&& lookup_text(contents, "author"@) == Some(metadata.author@)
    &&& lookup_text(contents, "description"@) == Some(metadata.description@)
    &&& lookup_list(contents, "hooks"@) matches Some(hooks)
    &&& hooks.len() == metadata.hooks@.len()
    &&& forall|i: int|
        0 <= i < hooks.len() ==> (#[trigger] hooks[i]) == Some(metadata.hooks@[i]@)
}

/// Reads a plugin's metadata from its JSON text: an object with the text
/// members `name`, `version`, `author` and `description` and the array of
/// texts `hooks`.  Further members do not matter.  Text that is not
/// well-formed JSON, and a document that lacks one of the members or has
/// it with another type, are a `SerializationError`.
pub fn parse_metadata(text: &str) -> (r: Result<PluginMetadata, PluginError>)
    ensures
        match r {
            Ok(metadata) => json_reading(text@) matches Some(contents) && metadata_complete(
                contents,
            ) && metadata_matches(metadata, contents),
            Err(PluginError::SerializationError(_)) => match json_reading(text@) {
                Some(contents) => !metadata_complete(contents),
                None => true,
            },
            Err(_) => false,
        },
{
    let document = match json_parse(text) {
        Some(d) => d,
        None => {
            return Err(PluginError::SerializationError("JSON inválido".to_owned()));
        },
    };
    let name = text_member(&document, "name");
    let version = text_member(&document, "version");
    let author = text_member(&document, "author");
    let description = text_member(&document, "description");
    let declared = text_list_member(&document, "hooks");
    let ghost listed = list_view(declared);
    let r = metadata_from_fields(name, version, author, description, declared);
    proof {
        if r is Ok {
            let metadata = r->Ok_0;
            let hooks = listed->0;
            assert forall|i: int| 0 <= i < hooks.len() implies (#[trigger] hooks[i]) == Some(
                metadata.hooks@[i]@,
            ) by {
                assert(declared->0@[i] == Some(metadata.hooks@[i]));
            }
        } else if declared is Some && name is Some && version is Some && author is Some
            && description is Some {
            let i = choose|i: int| 0 <= i < declared->0@.len() && declared->0@[i] is None;
            assert(listed->0[i] is None);
        }
    }
    r
}

/// Whether a list of hooks holds the given hook.
pub open spec fn declares(hooks: Seq<String>, hook: Seq<char>) -> bool {
    exists|i: int| 0 <= i < hooks.len() && (#[trigger] hooks[i])@ == hook
}

/// Whether one of the first `n` hooks of a list is the given hook and
/// has its function exported.
pub open spec fn offered(hooks: Seq<String>, exported: Seq<bool>, n: int, hook: Seq<char>) -> bool {
    exists|j: int| 0 <= j < n && (#[trigger] hooks[j])@ == hook && exported[j]
}

/// Whether some binding of a list is for the given hook.
pub open spec fn binds(bindings: Seq<HookBinding>, hook: Seq<char>) -> bool {
    exists|k: int| 0 <= k < bindings.len() && (#[trigger] bindings[k]).hook@ == hook
}

/// Binds each declared hook whose function is exported to that function,
/// `hook_` and the hook's name, in the order of the declaration.
/// `exported` says of each declared hook whether its function is there.
pub fn bind_hooks(hooks: &Vec<String>, exported: &Vec<bool>) -> (functions: Vec<HookBinding>)
    requires
        exported@.len() == hooks@.len(),
    ensures
        bindings_conventional(functions@),
        forall|hook: Seq<char>| #[trigger]
            bound_function(functions@, hook) is Some <==> offered(
                hooks@,
                exported@,
                hooks@.len() as int,
                hook,
            ),
{
    let mut functions: Vec<HookBinding> = Vec::new();
    let mut i: usize = 0;
    while i < hooks.len()
        invariant
            i <= hooks.len(),
            exported@.len() == hooks@.len(),
            bindings_conventional(functions@),
            forall|k: int|
                0 <= k < functions@.len() ==> offered(
                    hooks@,
                    exported@,
                    i as int,
                    (#[trigger] functions@[k]).hook@,
                ),
            forall|j: int|
                0 <= j < i && exported@[j] ==> binds(functions@, (#[trigger] hooks@[j])@),
        decreases hooks.len() - i,
    {
        let ghost before = functions@;
        if exported[i] {
            let hook = hooks[i].clone();
            let function = concat("hook_", hook.as_str());
            functions.push(HookBinding { hook, function });
            assert(functions@[before.len() as int].hook@ == hooks@[i as int]@);
        }
        proof {
            assert forall|k: int| 0 <= k < functions@.len() implies offered(
                hooks@,
                exported@,
                i + 1,
                (#[trigger] functions@[k]).hook@,
            ) by {
                if k < before.len() {
                    assert(functions@[k] == before[k]);
                    let j = choose|j: int|
                        0 <= j < i && (#[trigger] hooks@[j])@ == before[k].hook@ && exported@[j];
                    assert(hooks@[j]@ == functions@[k].hook@ && exported@[j]);
                } else {
                    assert(hooks@[i as int]@ == functions@[k].hook@ && exported@[i as int]);
                }
            }
            assert forall|j: int| 0 <= j < i + 1 && exported@[j] implies binds(
                functions@,
                (#[trigger] hooks@[j])@,
            ) by {
                if j < i {
                    let k = choose|k: int|
                        0 <= k < before.len() && (#[trigger] before[k]).hook@ == hooks@[j]@;
                    assert(functions@[k] == before[k]);
                } else {
                    assert(functions@[before.len() as int].hook@ == hooks@[j]@);
                }
            }
        }
        i = i + 1;
    }
    proof {
        assert forall|hook: Seq<char>| #[trigger]
            bound_function(functions@, hook) is Some <==> offered(
                hooks@,
                exported@,
                hooks@.len() as int,
                hook,
            ) by {
            if bound_function(functions@, hook) is Some {
                lemma_bound_function_witness(functions@, hook);
                let k = choose|k: int|
                    0 <= k < functions@.len() && (#[trigger] functions@[k]).hook@ == hook;
                assert(offered(hooks@, exported@, hooks@.len() as int, functions@[k].hook@));
            }
            if offered(hooks@, exported@, hooks@.len() as int, hook) {
                let j = choose|j: int|
                    0 <= j < hooks@.len() && (#[trigger] hooks@[j])@ == hook && exported@[j];
                assert(binds(functions@, hooks@[j]@));
                let k = choose|k: int|
                    0 <= k < functions@.len() && (#[trigger] functions@[k]).hook@ == hook;
                lemma_bound_function_found(functions@, hook, k);
            }
        }
    }
    functions
}

/// Whether a metadata is what a text says: the text is a JSON object
/// that holds all that a plugin must say of itself, and the metadata is
/// made of just that.
pub open spec fn described(text: Seq<char>, metadata: PluginMetadata) -> bool {
    json_reading(text) matches Some(contents) && metadata_complete(contents) && metadata_matches(
        metadata,
        contents,
    )
}

/// Whether a metadata is what some text in a memory of the instance
/// says.
pub open spec fn described_from(instance: wasmer::Instance, metadata: PluginMetadata) -> bool {
    exists|text: Seq<char>| #[trigger]
        answered_from(instance, text) && described(text, metadata)
}

/// What asking an instance for its metadata comes to.
///
/// An instance that does not export `get_metadata` is refused with
/// `FunctionNotFound`, and the store is untouched.  Otherwise the
/// function is called and the rest is up to the plugin.  A record has
/// the given id and instance, a metadata that a text in the plugin's
/// memory describes, and binds a hook exactly when the metadata declares
/// it and the instance exports its function.  A missing memory is a
/// `MetadataError`.
pub open spec fn metadata_loaded(
    instance: wasmer::Instance,
    id: String,
    before: wasmer::Store,
    after: wasmer::Store,
    r: Result<Plugin, PluginError>,
) -> bool {
    &&& store_key(after) == store_key(before)
    &&& if !exported_functions(instance).contains("get_metadata"@) {
        r matches Err(PluginError::FunctionNotFound(m)) && m@ == "get_metadata"@ && after
            == before
    } else {
        match r {
            Ok(plugin) => {
                &&& plugin.id == id
                &&& plugin.instance == instance
                &&& plugin.wf()
                &&& described_from(instance, plugin.metadata)
                &&& forall|hook: Seq<char>| #[trigger]
                    plugin.function_for(hook) is Some <==> declares(plugin.metadata.hooks@, hook)
                        && exported_functions(instance).contains(hook_function_name(hook))
            },
            Err(PluginError::WasmExecutionError(_)) => true,
            Err(PluginError::MetadataError(m)) => m@ == "Retorno de metadados inválido"@ || (m@
                == "Memória não encontrada"@ && !exported_memories(instance).contains(
                "memory"@,
            )),
            Err(PluginError::SerializationError(_)) => true,
            Err(_) => false,
        }
    }
}

/// Asks a fresh instance for its metadata and binds the hooks it
/// declares.
///
/// The instance must export `get_metadata`, which returns the region of
/// the metadata text in the exported memory `memory`.  Each declared hook
/// `H` is bound to the exported function `hook_H` where the instance
/// exports one; a declared hook without such a function stays unbound.
/// The instance must live in `store`.
pub fn load_plugin_metadata(store: &mut wasmer::Store, instance: wasmer::Instance, id: String) -> (r:
    Result<Plugin, PluginError>)
    requires
        instance_key(instance) == store_key(*old(store)),
    ensures
        metadata_loaded(instance, id, *old(store), *final(store), r),
{
    let get_metadata = match exported_function(&instance, "get_metadata") {
        Some(f) => f,
        None => {
            return Err(PluginError::FunctionNotFound("get_metadata".to_owned()));
        },
    };
    let no_args: Vec<i32> = Vec::new();
    let (ptr, len) = match metadata_region(call_function(store, &get_metadata, &no_args)) {
        Ok(region) => region,
        Err(e) => {
            return Err(e);
        },
    };
    let memory = match exported_memory(&instance, "memory") {
        Some(m) => m,
        None => {
            return Err(PluginError::MetadataError("Memória não encontrada".to_owned()));
        },
    };
    let text = match read_region(store, &memory, ptr, len) {
        Ok(t) => t,
        Err(e) => {
            return Err(e);
        },
    };
    proof {
        assert(region_text(memory_bytes(*store, memory), ptr as int, len as int) == Some(text@));
        assert(answered_from(instance, text@));
    }
    let metadata = match parse_metadata(text.as_str()) {
        Ok(m) => m,
        Err(e) => {
            return Err(e);
        },
    };
    assert(described(text@, metadata));
    let mut exported: Vec<bool> = Vec::new();
    let mut i: usize = 0;
    while i < metadata.hooks.len()
        invariant
            i <= metadata.hooks.len(),
            exported@.len() == i,
            forall|j: int|
                0 <= j < i ==> (#[trigger] exported@[j]) == exported_functions(instance).contains(
                    hook_function_name(metadata.hooks@[j]@),
                ),
        decreases metadata.hooks.len() - i,
    {
        let function = concat("hook_", metadata.hooks[i].as_str());
        exported.push(exported_function(&instance, function.as_str()).is_some());
        i = i + 1;
    }
    let functions = bind_hooks(&metadata.hooks, &exported);
    let ghost declared = metadata.hooks@;
    let plugin = Plugin::assemble(metadata, id, functions, instance);
    proof {
        assert forall|hook: Seq<char>| #[trigger]
            plugin.function_for(hook) is Some <==> declares(plugin.metadata.hooks@, hook)
                && exported_functions(instance).contains(hook_function_name(hook)) by {
            if plugin.function_for(hook) is Some {
                assert(offered(declared, exported@, declared.len() as int, hook));
                let j = choose|j: int|
                    0 <= j < declared.len() && (#[trigger] declared[j])@ == hook && exported@[j];
                assert(declares(declared, hook));
            }
            if declares(declared, hook) && exported_functions(instance).contains(
                hook_function_name(hook),
            ) {
                let j = choose|j: int| 0 <= j < declared.len() && (#[trigger] declared[j])@ == hook;
                assert(exported@[j]);
                assert(offered(declared, exported@, declared.len() as int, hook));
            }
        }
    }
    Ok(plugin)
}

} // verus!
