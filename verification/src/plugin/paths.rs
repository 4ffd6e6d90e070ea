//! Plugin files are told apart by their path alone.

use vstd::prelude::*;
use crate::text::{chars_of, string_of, same_chars};

verus! {

/// Index at which the last path segment of `p` starts: one past the last
/// `/`, or 0 where there is none.
pub open spec fn segment_start(p: Seq<char>) -> int
    decreases p.len(),
{
    if p.len() == 0 {
        0
    } else if p.last() == '/' {
        p.len() as int
    } else {
        segment_start(p.drop_last())
    }
}

/// The last segment of a path: what follows its last `/`.
pub open spec fn file_name(p: Seq<char>) -> Seq<char> {
    p.subrange(segment_start(p), p.len() as int)
}

/// Index of the last `.` of `name`, or -1 where there is none.
pub open spec fn last_dot(name: Seq<char>) -> int
    decreases name.len(),
{
    if name.len() == 0 {
        -1
    } else if name.last() == '.' {
        name.len() - 1
    } else {
        last_dot(name.drop_last())
    }
}

/// The extension of a file name: what follows its last `.`, unless the
/// name has no `.` or only a leading one.
pub open spec fn extension(name: Seq<char>) -> Option<Seq<char>> {
    let d = last_dot(name);
    if d <= 0 {
        None
    } else {
        Some(name.subrange(d + 1, name.len() as int))
    }
}

/// The stem of a file name: what precedes its extension.
pub open spec fn stem(name: Seq<char>) -> Seq<char> {
    let d = last_dot(name);
    if d <= 0 {
        name
    } else {
        name.subrange(0, d)
    }
}

/// A path names a WebAssembly module when its file name has the
/// extension `wasm`, in exactly that spelling.
pub open spec fn spec_is_wasm_file(p: Seq<char>) -> bool {
    extension(file_name(p)) == Some("wasm"@)
}

/// The plugin id that a path stands for: the stem of its file name.
/// A path without a file name stands for no plugin.
pub open spec fn spec_plugin_id(p: Seq<char>) -> Option<Seq<char>> {
    if file_name(p).len() == 0 {
        None
    } else {
        Some(stem(file_name(p)))
    }
}

proof fn lemma_segment_start_bounds(p: Seq<char>)
    ensures
        0 <= segment_start(p) <= p.len(),
    decreases p.len(),
{
    if p.len() > 0 && p.last() != '/' {
        lemma_segment_start_bounds(p.drop_last());
    }
}

proof fn lemma_last_dot_bounds(name: Seq<char>)
    ensures
        -1 <= last_dot(name) < name.len(),
    decreases name.len(),
{
    if name.len() > 0 && name.last() != '.' {
        lemma_last_dot_bounds(name.drop_last());
    }
}

/// `segment_start` of a prefix that has no `/` after position `k`.
proof fn lemma_segment_start_scan(p: Seq<char>, k: int)
    requires
        0 <= k <= p.len(),
        forall|j: int| k <= j < p.len() ==> p[j] != '/',
    ensures
        segment_start(p) == segment_start(p.subrange(0, k)),
    decreases p.len() - k,
{
    if k == p.len() {
        assert(p.subrange(0, k) =~= p);
    } else {
        assert(p.last() != '/');
        assert(p.drop_last().subrange(0, k) =~= p.subrange(0, k));
        lemma_segment_start_scan(p.drop_last(), k);
    }
}

proof fn lemma_last_dot_scan(p: Seq<char>, k: int)
    requires
        0 <= k <= p.len(),
        forall|j: int| k <= j < p.len() ==> p[j] != '.',
    ensures
        last_dot(p) == last_dot(p.subrange(0, k)),
    decreases p.len() - k,
{
    if k == p.len() {
        assert(p.subrange(0, k) =~= p);
    } else {
        assert(p.last() != '.');
        assert(p.drop_last().subrange(0, k) =~= p.subrange(0, k));
        lemma_last_dot_scan(p.drop_last(), k);
    }
}

fn find_segment_start(p: &Vec<char>) -> (k: usize)
    ensures
        k == segment_start(p@),
        k <= p.len(),
{
    let mut k: usize = p.len();
    while k > 0 && p[k - 1] != '/'
        invariant
            k <= p.len(),
            forall|j: int| k <= j < p.len() ==> p@[j] != '/',
        decreases k,
    {
        k = k - 1;
    }
    proof {
        lemma_segment_start_scan(p@, k as int);
        let q = p@.subrange(0, k as int);
        if k > 0 {
            assert(q.last() == '/');
        }
    }
    k
}

/// Position of the last `.` at or after `from`, as an offset into the
/// segment that starts at `from`; `None` where the segment has none.
fn find_last_dot(p: &Vec<char>, from: usize) -> (d: Option<usize>)
    requires
        from <= p.len(),
    ensures
        match d {
            Some(i) => i == last_dot(p@.subrange(from as int, p.len() as int)) && from + i < p.len(),
            None => last_dot(p@.subrange(from as int, p.len() as int)) == -1,
        },
{
    let ghost name = p@.subrange(from as int, p.len() as int);
    let mut k: usize = p.len();
    while k > from && p[k - 1] != '.'
        invariant
            from <= k <= p.len(),
            name == p@.subrange(from as int, p.len() as int),
            forall|j: int| k - from <= j < name.len() ==> name[j] != '.',
        decreases k,
    {
        k = k - 1;
    }
    proof {
        lemma_last_dot_scan(name, k - from);
        let q = name.subrange(0, k - from);
        if k > from {
            assert(q.last() == '.');
        }
    }
    if k > from {
        Some(k - 1 - from)
    } else {
        None
    }
}

/// Whether `path` names a WebAssembly module file.
pub fn is_wasm_file(path: &str) -> (r: bool)
    ensures
        r == spec_is_wasm_file(path@),
{
    let p = chars_of(path);
    let start = find_segment_start(&p);
    match find_last_dot(&p, start) {
        Some(d) => {
            if d == 0 {
                false
            } else {
                let ext = string_of(&p, start + d + 1, p.len());
                let ext_chars = chars_of(ext.as_str());
                let wasm = chars_of("wasm");
                proof {
                    let name = file_name(p@);
                    assert(name.subrange(d as int + 1, name.len() as int) =~= p@.subrange(
                        start + d + 1,
                        p.len() as int,
                    ));
                }
                same_chars(&ext_chars, &wasm)
            }
        },
        None => false,
    }
}

/// The plugin id for the file at `path`, where the path has a file name.
pub fn plugin_id_of(path: &str) -> (r: Option<String>)
    ensures
        match r {
            Some(id) => spec_plugin_id(path@) == Some(id@),
            None => spec_plugin_id(path@) is None,
        },
{
    let p = chars_of(path);
    let start = find_segment_start(&p);
    if start == p.len() {
        return None;
    }
    let end = match find_last_dot(&p, start) {
        Some(d) => if d == 0 {
            p.len()
        } else {
            start + d
        },
        None => p.len(),
    };
    let id = string_of(&p, start, end);
    proof {
        let name = file_name(p@);
        assert(name.subrange(0, end - start) =~= p@.subrange(start as int, end as int));
        assert(name.subrange(0, name.len() as int) =~= name);
    }
    Some(id)
}

} // verus!
