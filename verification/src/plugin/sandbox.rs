//! What a plugin may import.  The sandbox denies a plugin the host's
//! files, sockets and environment.  What it may ask of the host stands on
//! an allow-list of imports, each a namespace and a name in it; a module
//! that imports anything else is refused before it is instantiated.

use vstd::prelude::*;
use crate::plugin::engine::{import_views, ImportName};
use crate::plugin::error::PluginError;
use crate::text::{concat3, same_text};

verus! {

/// Whether an allow-list holds the import of the given namespace and
/// name.
pub open spec fn import_allowed(
    allowed: Seq<(Seq<char>, Seq<char>)>,
    module: Seq<char>,
    name: Seq<char>,
) -> bool {
    exists|k: int| 0 <= k < allowed.len() && #[trigger] allowed[k] == (module, name)
}

/// Whether every import of a list is on an allow-list.
pub open spec fn names_allowed(
    allowed: Seq<(Seq<char>, Seq<char>)>,
    names: Seq<(Seq<char>, Seq<char>)>,
) -> bool {
    forall|i: int|
        0 <= i < names.len() ==> import_allowed(allowed, (#[trigger] names[i]).0, names[i].1)
}

/// Whether the import at `i` is the first of a list that is not on an
/// allow-list.
pub open spec fn first_refused(
    allowed: Seq<(Seq<char>, Seq<char>)>,
    names: Seq<(Seq<char>, Seq<char>)>,
    i: int,
) -> bool {
    &&& 0 <= i < names.len()
    &&& !import_allowed(allowed, names[i].0, names[i].1)
    &&& forall|j: int| 0 <= j < i ==> import_allowed(allowed, (#[trigger] names[j]).0, names[j].1)
}

/// How an import is named in an error: `namespace::name`.
pub open spec fn import_text(import: (Seq<char>, Seq<char>)) -> Seq<char> {
    import.0 + "::"@ + import.1
}

/// The allow-list of a host that is given no other: the two functions of
/// WASI preview 1 through which a plugin reads the variables that the
/// host shares with it.
pub open spec fn default_allowed() -> Seq<(Seq<char>, Seq<char>)> {
    seq![
        ("wasi_snapshot_preview1"@, "environ_sizes_get"@),
        ("wasi_snapshot_preview1"@, "environ_get"@),
    ]
}

/// The default allow-list admits the two functions that read the shared
/// variables and nothing else: no import of another namespace, and none
/// of the functions of WASI preview 1 that reach files or sockets.
pub proof fn lemma_default_allowed(module: Seq<char>, name: Seq<char>)
    ensures
        import_allowed(default_allowed(), module, name) <==> module == "wasi_snapshot_preview1"@
            && (name == "environ_sizes_get"@ || name == "environ_get"@),
{
    let list = default_allowed();
    if module == "wasi_snapshot_preview1"@ && name == "environ_sizes_get"@ {
        assert(list[0] == (module, name));
    }
    if module == "wasi_snapshot_preview1"@ && name == "environ_get"@ {
        assert(list[1] == (module, name));
    }
}

/// The allow-list of a host that is given no other.
pub fn default_allow_list() -> (list: Vec<ImportName>)
    ensures
        import_views(list@) == default_allowed(),
{
    let mut list: Vec<ImportName> = Vec::new();
    list.push(
        ImportName {
            module: "wasi_snapshot_preview1".to_owned(),
            name: "environ_sizes_get".to_owned(),
        },
    );
    list.push(
        ImportName { module: "wasi_snapshot_preview1".to_owned(), name: "environ_get".to_owned() },
    );
    assert(import_views(list@) =~= default_allowed());
    list
}

/// Whether an allow-list holds an import.
pub fn is_import_allowed(allowed: &Vec<ImportName>, import: &ImportName) -> (r: bool)
    ensures
        r == import_allowed(import_views(allowed@), import.module@, import.name@),
{
    let ghost list = import_views(allowed@);
    let mut k: usize = 0;
    while k < allowed.len()
        invariant
            k <= allowed.len(),
            list == import_views(allowed@),
            forall|j: int| 0 <= j < k ==> #[trigger] list[j] != (import.module@, import.name@),
        decreases allowed.len() - k,
    {
        assert(list[k as int] == (allowed@[k as int].module@, allowed@[k as int].name@));
        if same_text(allowed[k].module.as_str(), import.module.as_str()) && same_text(
            allowed[k].name.as_str(),
            import.name.as_str(),
        ) {
            return true;
        }
        k = k + 1;
    }
    false
}

/// Admits a module by its imports.  The module is refused with
/// `WasmImportError`, naming the first offending import as
/// `namespace::name`, exactly when some import is not on the allow-list.
pub fn check_imports(allowed: &Vec<ImportName>, imports: &Vec<ImportName>) -> (r: Result<
    (),
    PluginError,
>)
    ensures
        match r {
            Ok(_) => names_allowed(import_views(allowed@), import_views(imports@)),
            Err(PluginError::WasmImportError(what)) => exists|i: int|
                #![auto]
                first_refused(import_views(allowed@), import_views(imports@), i) && what@
                    == import_text(import_views(imports@)[i]),
            Err(_) => false,
        },
{
    let ghost list = import_views(allowed@);
    let ghost names = import_views(imports@);
    let mut i: usize = 0;
    while i < imports.len()
        invariant
            i <= imports.len(),
            list == import_views(allowed@),
            names == import_views(imports@),
            forall|j: int| 0 <= j < i ==> import_allowed(list, (#[trigger] names[j]).0, names[j].1),
        decreases imports.len() - i,
    {
        assert(names[i as int] == (imports@[i as int].module@, imports@[i as int].name@));
        if !is_import_allowed(allowed, &imports[i]) {
            let what = concat3(imports[i].module.as_str(), "::", imports[i].name.as_str());
            assert(first_refused(list, names, i as int));
            return Err(PluginError::WasmImportError(what));
        }
        i = i + 1;
    }
    Ok(())
}

} // verus!
