//! The runtime's keyed registry, used as the script-level import cache: an
//! explicit, typed store instead of keys stashed in the dynamic global
//! namespace.
//!
//! Reading a module's file and evaluating it happen outside this crate; what
//! an import does — skip the bundle, answer from the cache, or load from a
//! cleaned path — is decided here.

use vstd::prelude::*;
use crate::loader::{contains_seq, contains_str};
use crate::strmap::StringMap;
use crate::text::{chars_of, string_from_chars};

verus! {

/// What an import of `path` does.
pub enum ImportAction {
    /// The bundle is already resident: importing it again is a no-op.
    Skip,
    /// The module was imported before: answer with the cached registry id.
    Cached(u64),
    /// Load and evaluate the module file at this cleaned path.
    Load { file_path: String },
}

/// A module path cleaned for the file system: dots become path separators,
/// with the script extension appended.
pub open spec fn cleaned_path(s: Seq<char>) -> Seq<char> {
    s.map_values(|c: char| if c == '.' { '/' } else { c }) + ".lua"@
}

fn clean_path(path: &str) -> (r: String)
    ensures
        r@ == cleaned_path(path@),
{
    let cs = chars_of(path);
    let mut out: Vec<char> = Vec::new();
    let n = cs.len();
    for i in 0..n
        invariant
            n == cs@.len(),
            cs@ == path@,
            out@ == path@.take(i as int).map_values(|c: char| if c == '.' { '/' } else { c }),
    {
        let c = cs[i];
        out.push(if c == '.' { '/' } else { c });
        proof {
            assert(out@ =~= path@.take(i + 1).map_values(|c: char| if c == '.' { '/' } else { c }));
        }
    }
    proof {
        assert(path@.take(n as int) =~= path@);
    }
    let mut s = string_from_chars(out.as_slice());
    s.append(".lua");
    s
}

/// Decide what importing `path` does: a path naming the bundle is skipped, a
/// cached path answers from the registry, anything else is loaded from its
/// cleaned file path.
pub fn plan_import(cache: &StringMap<u64>, path: &String) -> (r: ImportAction)
    requires
        cache.wf(),
    ensures
        contains_seq(path@, "astra_bundle"@) ==> r is Skip,
        !contains_seq(path@, "astra_bundle"@) ==> match cache.spec_get(path@) {
            Some(id) => r == ImportAction::Cached(id),
            None => (r matches ImportAction::Load { file_path } && file_path@ == cleaned_path(
                path@,
            )),
        },
{
    if contains_str(path.as_str(), "astra_bundle") {
        return ImportAction::Skip;
    }
    match cache.get(path) {
        Some(id) => ImportAction::Cached(*id),
        None => {
            let file_path = clean_path(path.as_str());
            proof {
                assert(file_path@ == cleaned_path(path@));
            }
            ImportAction::Load { file_path }
        },
    }
}

/// Record a completed import: the module's registry id is cached under its
/// path, replacing nothing else.
pub fn record_import(cache: &mut StringMap<u64>, path: String, id: u64)
    requires
        old(cache).wf(),
    ensures
        final(cache).wf(),
        final(cache).spec_get(path@) == Some(id),
        forall|k2: Seq<char>|
            k2 != path@ ==> final(cache).spec_get(k2) == old(cache).spec_get(k2),
{
    cache.insert(path, id);
}

} // verus!
