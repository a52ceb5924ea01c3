//! The library loader: ordering of script library units and the
//! dependency-tolerant two-pass load.
//!
//! Units are executed by the script runtime outside this crate; the loader
//! here owns every decision: the load order, which failures are deferred to
//! the retry pass, and which are terminal.

use vstd::prelude::*;
use crate::strmap::StringMap;
use crate::text::{chars_of, lower_seq, to_lowercase_ascii};

verus! {

/// One named block of script source to load at startup.
pub struct LibraryUnit {
    pub name: String,
    pub source: String,
}

impl LibraryUnit {
    pub fn duplicate(&self) -> (r: LibraryUnit)
        ensures
            r == *self,
    {
        LibraryUnit { name: self.name.clone(), source: self.source.clone() }
    }
}

/// The position of the first unit whose lowered name is the root prelude's.
pub open spec fn prelude_index(s: Seq<LibraryUnit>) -> Option<int>
    decreases s.len(),
{
    if s.len() == 0 {
        None
    } else if lower_seq(s[0].name@) == "astra.lua"@ {
        Some(0)
    } else {
        match prelude_index(s.drop_first()) {
            Some(i) => Some(i + 1),
            None => None,
        }
    }
}

proof fn lemma_prelude_index_at(s: Seq<LibraryUnit>, i: int)
    requires
        0 <= i < s.len(),
        lower_seq(s[i].name@) == "astra.lua"@,
        forall|j: int| 0 <= j < i ==> lower_seq(#[trigger] s[j].name@) != "astra.lua"@,
    ensures
        prelude_index(s) == Some(i),
    decreases s.len(),
{
    if i > 0 {
        assert(s.drop_first()[i - 1] == s[i]);
        assert(forall|j: int|
            0 <= j < i - 1 ==> #[trigger] s.drop_first()[j].name@ == s[j + 1].name@);
        lemma_prelude_index_at(s.drop_first(), i - 1);
    }
}

proof fn lemma_prelude_index_none(s: Seq<LibraryUnit>)
    requires
        forall|j: int| 0 <= j < s.len() ==> lower_seq(#[trigger] s[j].name@) != "astra.lua"@,
    ensures
        prelude_index(s) is None,
    decreases s.len(),
{
    if s.len() > 0 {
        assert(forall|j: int|
            0 <= j < s.drop_first().len() ==> #[trigger] s.drop_first()[j].name@ == s[j
                + 1].name@);
        lemma_prelude_index_none(s.drop_first());
    }
}

/// The position of the first root-prelude unit, if one exists.
fn find_prelude(units: &Vec<LibraryUnit>) -> (r: Option<usize>)
    ensures
        match r {
            Some(i) => i < units@.len() && prelude_index(units@) == Some(i as int),
            None => prelude_index(units@) is None,
        },
{
    let n = units.len();
    let prelude_name = first_unit_name();
    for i in 0..n
        invariant
            n == units@.len(),
            prelude_name@ == "astra.lua"@,
            forall|j: int| 0 <= j < i ==> lower_seq(#[trigger] units@[j].name@) != "astra.lua"@,
    {
        let lowered = to_lowercase_ascii(units[i].name.as_str());
        if lowered.eq(&prelude_name) {
            proof {
                lemma_prelude_index_at(units@, i as int);
            }
            return Some(i);
        }
    }
    proof {
        lemma_prelude_index_none(units@);
    }
    None
}

/// Move the root prelude, if present, to the front; the rest keeps its order.
pub fn plan_load_order(units: Vec<LibraryUnit>) -> (r: Vec<LibraryUnit>)
    ensures
        match prelude_index(units@) {
            Some(i) => r@ == seq![units@[i]] + units@.remove(i),
            None => r@ == units@,
        },
{
    let mut units = units;
    match find_prelude(&units) {
        Some(i) => {
            let ghost orig = units@;
            let unit = units.remove(i);
            units.insert(0, unit);
            proof {
                assert(units@ =~= seq![orig[i as int]] + orig.remove(i as int));
            }
            units
        },
        None => units,
    }
}

/// The root prelude's file name.
fn first_unit_name() -> (r: String)
    ensures
        r@ == "astra.lua"@,
{
    String::from_str("astra.lua")
}

/// `needle` occurs contiguously in `hay`.
pub open spec fn contains_seq(hay: Seq<char>, needle: Seq<char>) -> bool {
    exists|i: int|
        0 <= i && i + needle.len() <= hay.len() && #[trigger] hay.subrange(i, i + needle.len())
            == needle
}

/// The needle read at offset `i` of the haystack, character by character.
fn match_at(h: &Vec<char>, nd: &Vec<char>, i: usize) -> (r: bool)
    requires
        i + nd@.len() <= h@.len(),
    ensures
        r == (h@.subrange(i as int, i + nd@.len()) == nd@),
{
    let nn = nd.len();
    let hl = h.len();
    for j in 0..nn
        invariant
            nn == nd@.len(),
            hl == h@.len(),
            i + nn <= hl,
            forall|q: int| 0 <= q < j ==> h@[i + q] == nd@[q],
    {
        if h[i + j] != nd[j] {
            proof {
                assert(h@.subrange(i as int, i + nd@.len())[j as int] != nd@[j as int]);
            }
            return false;
        }
    }
    proof {
        assert(h@.subrange(i as int, i + nd@.len()) =~= nd@);
    }
    true
}

/// Substring search, character by character.
pub fn contains_str(hay: &str, needle: &str) -> (r: bool)
    ensures
        r == contains_seq(hay@, needle@),
{
    let h = chars_of(hay);
    let nd = chars_of(needle);
    let hn = h.len();
    let nn = nd.len();
    if nn > hn {
        proof {
            assert(!contains_seq(hay@, needle@));
        }
        return false;
    }
    if nn == 0 {
        proof {
            assert(contains_seq(hay@, needle@)) by {
                assert(hay@.subrange(0int, 0int + needle@.len() as int) =~= needle@);
            }
        }
        return true;
    }
    let last = hn - nn;
    let mut i: usize = 0;
    while i <= last
        invariant
            h@ == hay@,
            nd@ == needle@,
            hn == hay@.len(),
            nn == needle@.len(),
            1 <= nn <= hn,
            last == hn - nn,
            i <= last + 1,
            forall|p: int|
                0 <= p < i ==> #[trigger] hay@.subrange(p, p + needle@.len()) != needle@,
        decreases last + 1 - i,
    {
        if match_at(&h, &nd, i) {
            return true;
        }
        i = i + 1;
    }
    proof {
        if contains_seq(hay@, needle@) {
            let p = choose|p: int|
                0 <= p && p + needle@.len() <= hay@.len() && #[trigger] hay@.subrange(
                    p,
                    p + needle@.len(),
                ) == needle@;
            assert(p < i);
        }
    }
    false
}

/// The failure text the runtime emits when a unit reads a name that is not
/// yet defined: such a failure is treated as a forward reference.
pub open spec fn is_forward_ref_message(msg: Seq<char>) -> bool {
    contains_seq(msg, "attempt to index a nil value"@)
}

/// Classify a unit's failure: a forward reference is deferred, anything else
/// is terminal.
pub fn is_forward_reference_error(msg: &str) -> (r: bool)
    ensures
        r == is_forward_ref_message(msg@),
{
    contains_str(msg, "attempt to index a nil value")
}

/// What the runtime reported for one unit's execution.
pub enum UnitOutcome {
    Loaded,
    Failed(String),
}

/// What the loader decided for one unit.
#[derive(Clone, Copy, Debug, PartialEq, Eq, Structural)]
pub enum LoadDecision {
    Loaded,
    Deferred,
    Failed,
}

/// A terminal load failure: the unit's name and the runtime's message.
pub struct LoadError {
    pub unit: String,
    pub message: String,
}

/// The loader's running state across the two passes.
pub struct LibraryLoader {
    /// Units deferred in the first pass, in the order deferred.
    pub retry_queue: Vec<LibraryUnit>,
    /// Names of units loaded so far, in load order.
    pub loaded: Vec<String>,
    /// Terminal failures.
    pub errors: Vec<LoadError>,
}

impl LibraryLoader {
    /// How one first-pass outcome advances the loader from `pre` to `self`:
    /// a success is recorded as loaded, a forward-reference failure defers
    /// the unit to the back of the retry queue, any other failure is
    /// terminal.
    pub open spec fn first_pass_post(
        self,
        pre: LibraryLoader,
        unit: LibraryUnit,
        outcome: UnitOutcome,
        d: LoadDecision,
    ) -> bool {
        match outcome {
            UnitOutcome::Loaded => {
                &&& d == LoadDecision::Loaded
                &&& self.loaded@ == pre.loaded@.push(unit.name)
                &&& self.retry_queue@ == pre.retry_queue@
                &&& self.errors@ == pre.errors@
            },
            UnitOutcome::Failed(msg) => {
                if is_forward_ref_message(msg@) {
                    &&& d == LoadDecision::Deferred
                    &&& self.retry_queue@ == pre.retry_queue@.push(unit)
                    &&& self.loaded@ == pre.loaded@
                    &&& self.errors@ == pre.errors@
                } else {
                    &&& d == LoadDecision::Failed
                    &&& self.errors@ == pre.errors@.push(
                        LoadError { unit: unit.name, message: msg },
                    )
                    &&& self.loaded@ == pre.loaded@
                    &&& self.retry_queue@ == pre.retry_queue@
                }
            },
        }
    }

    /// How one retry-pass outcome advances the loader: success loads the
    /// unit; any failure in the second pass is terminal.
    pub open spec fn retry_post(
        self,
        pre: LibraryLoader,
        unit: LibraryUnit,
        outcome: UnitOutcome,
        d: LoadDecision,
    ) -> bool {
        &&& self.retry_queue@ == pre.retry_queue@
        &&& match outcome {
            UnitOutcome::Loaded => {
                &&& d == LoadDecision::Loaded
                &&& self.loaded@ == pre.loaded@.push(unit.name)
                &&& self.errors@ == pre.errors@
            },
            UnitOutcome::Failed(msg) => {
                &&& d == LoadDecision::Failed
                &&& self.errors@ == pre.errors@.push(LoadError { unit: unit.name, message: msg })
                &&& self.loaded@ == pre.loaded@
            },
        }
    }

    pub fn new() -> (r: LibraryLoader)
        ensures
            r.retry_queue@ == Seq::<LibraryUnit>::empty(),
            r.loaded@ == Seq::<String>::empty(),
            r.errors@ == Seq::<LoadError>::empty(),
    {
        LibraryLoader { retry_queue: Vec::new(), loaded: Vec::new(), errors: Vec::new() }
    }

    /// Record a first-pass outcome. A success is recorded as loaded; a
    /// forward-reference failure defers the unit to the back of the retry
    /// queue; any other failure is terminal.
    pub fn record_first_pass(&mut self, unit: LibraryUnit, outcome: UnitOutcome) -> (d:
        LoadDecision)
        ensures
            final(self).first_pass_post(*old(self), unit, outcome, d),
    {
        match outcome {
            UnitOutcome::Loaded => {
                self.loaded.push(unit.name);
                LoadDecision::Loaded
            },
            UnitOutcome::Failed(msg) => {
                if is_forward_reference_error(msg.as_str()) {
                    self.retry_queue.push(unit);
                    LoadDecision::Deferred
                } else {
                    self.errors.push(LoadError { unit: unit.name, message: msg });
                    LoadDecision::Failed
                }
            },
        }
    }

    /// Hand out the retry queue, in the order deferred, emptying it.
    pub fn take_retry_queue(&mut self) -> (r: Vec<LibraryUnit>)
        ensures
            r@ == old(self).retry_queue@,
            final(self).retry_queue@ == Seq::<LibraryUnit>::empty(),
            final(self).loaded@ == old(self).loaded@,
            final(self).errors@ == old(self).errors@,
    {
        let mut out: Vec<LibraryUnit> = Vec::new();
        let n = self.retry_queue.len();
        for i in 0..n
            invariant
                n == self.retry_queue@.len(),
                self.retry_queue@ == old(self).retry_queue@,
                self.loaded@ == old(self).loaded@,
                self.errors@ == old(self).errors@,
                out@ == self.retry_queue@.take(i as int),
        {
            out.push(self.retry_queue[i].duplicate());
            proof {
                assert(self.retry_queue@.take(i + 1) =~= self.retry_queue@.take(i as int).push(
                    self.retry_queue@[i as int],
                ));
            }
        }
        proof {
            assert(self.retry_queue@.take(n as int) =~= self.retry_queue@);
        }
        self.retry_queue = Vec::new();
        out
    }

    /// Record a retry-pass outcome: success loads the unit; any failure in
    /// the second pass is terminal.
    pub fn record_retry(&mut self, unit: LibraryUnit, outcome: UnitOutcome) -> (d: LoadDecision)
        ensures
            final(self).retry_post(*old(self), unit, outcome, d),
    {
        match outcome {
            UnitOutcome::Loaded => {
                self.loaded.push(unit.name);
                LoadDecision::Loaded
            },
            UnitOutcome::Failed(msg) => {
                self.errors.push(LoadError { unit: unit.name, message: msg });
                LoadDecision::Failed
            },
        }
    }
}

/// A library unit abstracted to its load-time behaviour: the names it
/// defines, and the names it reads while loading. A unit loads exactly when
/// every name it reads is already defined; otherwise it fails as a forward
/// reference.
pub struct ModelUnit {
    pub name: String,
    pub defines: Vec<String>,
    pub uses: Vec<String>,
}

/// The names a unit defines, as a set.
pub open spec fn defines_set(u: ModelUnit) -> Set<Seq<char>> {
    Set::new(|k: Seq<char>| exists|i: int| 0 <= i < u.defines@.len() && u.defines@[i]@ == k)
}

/// Every name the unit reads is defined in `env`.
pub open spec fn unit_ok(env: Set<Seq<char>>, u: ModelUnit) -> bool {
    forall|i: int| 0 <= i < u.uses@.len() ==> env.contains(#[trigger] u.uses@[i]@)
}

/// The environment after a unit loads.
pub open spec fn env_after(env: Set<Seq<char>>, u: ModelUnit) -> Set<Seq<char>> {
    env.union(defines_set(u))
}

/// The environment after one pass over `s`, loading each unit that is ready.
pub open spec fn pass_env(env0: Set<Seq<char>>, s: Seq<ModelUnit>) -> Set<Seq<char>>
    decreases s.len(),
{
    if s.len() == 0 {
        env0
    } else {
        let e = pass_env(env0, s.drop_last());
        if unit_ok(e, s.last()) {
            env_after(e, s.last())
        } else {
            e
        }
    }
}

/// The names of the units one pass loads, in order.
pub open spec fn pass_loaded(env0: Set<Seq<char>>, s: Seq<ModelUnit>) -> Seq<Seq<char>>
    decreases s.len(),
{
    if s.len() == 0 {
        Seq::empty()
    } else if unit_ok(pass_env(env0, s.drop_last()), s.last()) {
        pass_loaded(env0, s.drop_last()).push(s.last().name@)
    } else {
        pass_loaded(env0, s.drop_last())
    }
}

/// The units one pass cannot load, in order.
pub open spec fn pass_deferred(env0: Set<Seq<char>>, s: Seq<ModelUnit>) -> Seq<ModelUnit>
    decreases s.len(),
{
    if s.len() == 0 {
        Seq::empty()
    } else if unit_ok(pass_env(env0, s.drop_last()), s.last()) {
        pass_deferred(env0, s.drop_last())
    } else {
        pass_deferred(env0, s.drop_last()).push(s.last())
    }
}

/// What the two-pass load leaves loaded: the first pass's units, then the
/// deferred units the retry pass resolves.
pub open spec fn two_pass_loaded(env0: Set<Seq<char>>, s: Seq<ModelUnit>) -> Seq<Seq<char>> {
    pass_loaded(env0, s) + pass_loaded(pass_env(env0, s), pass_deferred(env0, s))
}

/// The units still failing after the retry pass: terminal load errors.
pub open spec fn two_pass_failed(env0: Set<Seq<char>>, s: Seq<ModelUnit>) -> Seq<ModelUnit> {
    pass_deferred(pass_env(env0, s), pass_deferred(env0, s))
}

/// Load-order tolerance of the two-pass loader. Let `a` be a self-contained
/// unit and let `b` and `c` read only names `a` defines. Loading `[b, a]`
/// succeeds with at most the one retry pass, whatever was defined before; and
/// in `[b, a, c]` the unit `c` loads already in the first pass, because `a`
/// precedes it, so only `b` can need the retry and nothing fails.
pub proof fn lemma_load_order_tolerance(
    a: ModelUnit,
    b: ModelUnit,
    c: ModelUnit,
    env0: Set<Seq<char>>,
)
    requires
        a.uses@.len() == 0,
        forall|i: int| 0 <= i < b.uses@.len() ==> defines_set(a).contains(#[trigger] b.uses@[i]@),
        forall|i: int| 0 <= i < c.uses@.len() ==> defines_set(a).contains(#[trigger] c.uses@[i]@),
    ensures
        two_pass_failed(env0, seq![b, a]).len() == 0,
        two_pass_failed(env0, seq![b, a, c]).len() == 0,
        pass_deferred(env0, seq![b, a, c]).len() <= 1,
        pass_loaded(env0, seq![b, a, c]).contains(c.name@),
{
    let s2 = seq![b, a];
    let s3 = seq![b, a, c];
    assert(s2.drop_last() =~= seq![b]);
    assert(s2.last() == a);
    assert(seq![b].drop_last() =~= Seq::<ModelUnit>::empty());
    assert(seq![b].last() == b);
    assert(s3.drop_last() =~= s2);
    assert(s3.last() == c);

    assert(pass_env(env0, Seq::<ModelUnit>::empty()) == env0);
    let eb = pass_env(env0, seq![b]);
    assert(unit_ok(eb, a));
    let e2 = pass_env(env0, s2);
    assert(e2 == env_after(eb, a));
    assert forall|k: Seq<char>| defines_set(a).contains(k) implies e2.contains(k) by {}
    assert(unit_ok(e2, b));
    assert(unit_ok(e2, c));

    // the two-unit run
    assert(pass_deferred(env0, Seq::<ModelUnit>::empty()) =~= Seq::<ModelUnit>::empty());
    assert(pass_loaded(env0, Seq::<ModelUnit>::empty()) =~= Seq::<Seq<char>>::empty());
    assert(pass_deferred(env0, s2) == pass_deferred(env0, seq![b]));
    if unit_ok(env0, b) {
        assert(pass_deferred(env0, seq![b]) =~= Seq::<ModelUnit>::empty());
        assert(pass_deferred(pass_env(env0, s2), Seq::<ModelUnit>::empty())
            =~= Seq::<ModelUnit>::empty());
        assert(two_pass_failed(env0, s2).len() == 0);
    } else {
        assert(pass_deferred(env0, seq![b]) =~= seq![b]);
        assert(pass_deferred(env0, s2) =~= seq![b]);
        assert(seq![b].drop_last() =~= Seq::<ModelUnit>::empty());
        assert(pass_env(e2, Seq::<ModelUnit>::empty()) == e2);
        assert(pass_deferred(e2, Seq::<ModelUnit>::empty()) =~= Seq::<ModelUnit>::empty());
        assert(pass_deferred(e2, seq![b]) =~= Seq::<ModelUnit>::empty());
        assert(two_pass_failed(env0, s2).len() == 0);
    }

    // the three-unit run: c is ready in the first pass
    let e3 = pass_env(env0, s3);
    assert(pass_loaded(env0, s3) == pass_loaded(env0, s2).push(c.name@));
    assert(pass_loaded(env0, s3).last() == c.name@);
    assert(pass_loaded(env0, s3).contains(c.name@));
    assert(pass_deferred(env0, s3) == pass_deferred(env0, s2));
    assert forall|k: Seq<char>| e2.contains(k) implies e3.contains(k) by {}
    if unit_ok(env0, b) {
        assert(pass_deferred(env0, s3) =~= Seq::<ModelUnit>::empty());
        assert(pass_deferred(e3, Seq::<ModelUnit>::empty()) =~= Seq::<ModelUnit>::empty());
        assert(two_pass_failed(env0, s3).len() == 0);
    } else {
        assert(pass_deferred(env0, s3) =~= seq![b]);
        assert(unit_ok(e3, b));
        assert(pass_env(e3, Seq::<ModelUnit>::empty()) == e3);
        assert(pass_deferred(e3, Seq::<ModelUnit>::empty()) =~= Seq::<ModelUnit>::empty());
        assert(pass_deferred(e3, seq![b]) =~= Seq::<ModelUnit>::empty());
        assert(two_pass_failed(env0, s3).len() == 0);
    }
}

/// The environment a map of defined names denotes.
pub open spec fn env_set(m: StringMap<bool>) -> Set<Seq<char>> {
    Set::new(|k: Seq<char>| m.contains_key(k))
}

/// The names of model units, in order.
pub open spec fn unit_names(s: Seq<ModelUnit>) -> Seq<Seq<char>> {
    s.map_values(|u: ModelUnit| u.name@)
}

/// Every name the unit reads is defined.
fn unit_ready(env: &StringMap<bool>, u: &ModelUnit) -> (r: bool)
    requires
        env.wf(),
    ensures
        r == unit_ok(env_set(*env), *u),
{
    let n = u.uses.len();
    for i in 0..n
        invariant
            env.wf(),
            n == u.uses@.len(),
            forall|j: int| 0 <= j < i ==> env_set(*env).contains(#[trigger] u.uses@[j]@),
    {
        if !env.contains(&u.uses[i]) {
            proof {
                assert(!env_set(*env).contains(u.uses@[i as int]@));
            }
            return false;
        }
    }
    true
}

/// Add the unit's defined names to the environment.
fn install_defines(env: &mut StringMap<bool>, u: &ModelUnit)
    requires
        old(env).wf(),
    ensures
        final(env).wf(),
        env_set(*final(env)) == env_after(env_set(*old(env)), *u),
{
    let n = u.defines.len();
    for i in 0..n
        invariant
            env.wf(),
            n == u.defines@.len(),
            forall|k: Seq<char>|
                env_set(*env).contains(k) <==> (env_set(*old(env)).contains(k) || exists|j: int|
                    0 <= j < i && #[trigger] u.defines@[j]@ == k),
    {
        let ghost before = *env;
        let key = u.defines[i].clone();
        proof {
            assert(key@ == u.defines@[i as int]@);
        }
        env.insert(key, true);
        proof {
            assert forall|k: Seq<char>|
                env_set(*env).contains(k) <==> (env_set(*old(env)).contains(k) || exists|j: int|
                    0 <= j < i + 1 && #[trigger] u.defines@[j]@ == k) by {
                assert(env_set(before).contains(k) <==> (env_set(*old(env)).contains(k) || exists|
                    j: int,
                |
                    0 <= j < i && #[trigger] u.defines@[j]@ == k));
                if k == u.defines@[i as int]@ {
                    assert(env.spec_get(k) is Some);
                    assert(env_set(*env).contains(k));
                    assert(0 <= i < i + 1 && u.defines@[i as int]@ == k);
                } else {
                    assert(env.spec_get(k) == before.spec_get(k));
                    assert(env_set(*env).contains(k) <==> env_set(before).contains(k));
                    assert forall|j: int|
                        0 <= j < i + 1 && #[trigger] u.defines@[j]@ == k implies 0 <= j < i by {}
                }
            }
        }
    }
    proof {
        assert forall|k: Seq<char>|
            env_set(*env).contains(k) <==> env_after(env_set(*old(env)), *u).contains(k) by {}
        assert(env_set(*env) =~= env_after(env_set(*old(env)), *u));
    }
}

/// What the two-pass model load reports: the names loaded, in load order, and
/// the units still failing after the retry pass.
pub struct LoadReport {
    pub loaded: Vec<String>,
    pub failed: Vec<ModelUnit>,
}

/// Run the two-pass load over model units, starting from an empty
/// environment: one pass in order, deferring every unit that is not ready,
/// then one retry pass over the deferred units, whose failures are terminal.
pub fn load_units_model(units: Vec<ModelUnit>) -> (r: LoadReport)
    ensures
        unit_names_of_strings(r.loaded@) == two_pass_loaded(Set::empty(), units@),
        r.failed@ == two_pass_failed(Set::empty(), units@),
{
    let ghost all = units@;
    let mut units = units;
    let mut env: StringMap<bool> = StringMap::new();
    let mut loaded: Vec<String> = Vec::new();
    let mut deferred: Vec<ModelUnit> = Vec::new();
    proof {
        assert(env_set(env) =~= Set::<Seq<char>>::empty());
        assert(all.take(0) =~= Seq::<ModelUnit>::empty());
    }
    let n = units.len();
    let mut i: usize = 0;
    while i < n
        invariant
            env.wf(),
            n == all.len(),
            i <= n,
            units@ == all.skip(i as int),
            env_set(env) == pass_env(Set::empty(), all.take(i as int)),
            unit_names_of_strings(loaded@) == pass_loaded(Set::empty(), all.take(i as int)),
            deferred@ == pass_deferred(Set::empty(), all.take(i as int)),
        decreases n - i,
    {
        proof {
            assert(all.take(i + 1).drop_last() =~= all.take(i as int));
            assert(all.take(i + 1).last() == all[i as int]);
            assert(units@[0] == all[i as int]);
        }
        let u = units.remove(0);
        proof {
            assert(units@ =~= all.skip(i + 1));
        }
        if unit_ready(&env, &u) {
            install_defines(&mut env, &u);
            loaded.push(u.name);
            proof {
                assert(unit_names_of_strings(loaded@) =~~= pass_loaded(
                    Set::empty(),
                    all.take(i + 1),
                ));
            }
        } else {
            deferred.push(u);
            proof {
                assert(unit_names_of_strings(loaded@) =~~= pass_loaded(
                    Set::empty(),
                    all.take(i + 1),
                ));
            }
        }
        i = i + 1;
    }
    proof {
        assert(all.take(n as int) =~= all);
    }
    let ghost env1 = env_set(env);
    let ghost defall = deferred@;
    let mut failed: Vec<ModelUnit> = Vec::new();
    let m = deferred.len();
    let mut j: usize = 0;
    proof {
        assert(defall.take(0) =~= Seq::<ModelUnit>::empty());
    }
    while j < m
        invariant
            env.wf(),
            m == defall.len(),
            j <= m,
            deferred@ == defall.skip(j as int),
            env_set(env) == pass_env(env1, defall.take(j as int)),
            unit_names_of_strings(loaded@) == pass_loaded(Set::empty(), all) + pass_loaded(
                env1,
                defall.take(j as int),
            ),
            failed@ == pass_deferred(env1, defall.take(j as int)),
            defall == pass_deferred(Set::empty(), all),
            env1 == pass_env(Set::empty(), all),
        decreases m - j,
    {
        proof {
            assert(defall.take(j + 1).drop_last() =~= defall.take(j as int));
            assert(defall.take(j + 1).last() == defall[j as int]);
            assert(deferred@[0] == defall[j as int]);
        }
        let u = deferred.remove(0);
        proof {
            assert(deferred@ =~= defall.skip(j + 1));
        }
        if unit_ready(&env, &u) {
            proof {
                assert(unit_ok(pass_env(env1, defall.take(j as int)), defall[j as int]));
                assert(pass_loaded(env1, defall.take(j + 1)) == pass_loaded(
                    env1,
                    defall.take(j as int),
                ).push(defall[j as int].name@));
                assert(pass_deferred(env1, defall.take(j + 1)) == pass_deferred(
                    env1,
                    defall.take(j as int),
                ));
            }
            install_defines(&mut env, &u);
            let ghost old_loaded = loaded@;
            let ghost nm = u.name@;
            loaded.push(u.name);
            proof {
                assert(loaded@ == old_loaded.push(defall[j as int].name));
                assert(unit_names_of_strings(loaded@) =~~= unit_names_of_strings(
                    old_loaded,
                ).push(nm));
                assert((pass_loaded(Set::empty(), all) + pass_loaded(
                    env1,
                    defall.take(j as int),
                )).push(nm) =~~= pass_loaded(Set::empty(), all) + pass_loaded(
                    env1,
                    defall.take(j as int),
                ).push(nm));
                assert(unit_names_of_strings(loaded@) =~~= pass_loaded(Set::empty(), all)
                    + pass_loaded(env1, defall.take(j + 1)));
            }
        } else {
            proof {
                assert(!unit_ok(pass_env(env1, defall.take(j as int)), defall[j as int]));
                assert(pass_env(env1, defall.take(j + 1)) == pass_env(
                    env1,
                    defall.take(j as int),
                ));
                assert(pass_loaded(env1, defall.take(j + 1)) == pass_loaded(
                    env1,
                    defall.take(j as int),
                ));
                assert(pass_deferred(env1, defall.take(j + 1)) == pass_deferred(
                    env1,
                    defall.take(j as int),
                ).push(defall[j as int]));
            }
            failed.push(u);
        }
        j = j + 1;
    }
    proof {
        assert(defall.take(m as int) =~= defall);
    }
    LoadReport { loaded, failed }
}

/// The views of a vector of names.
pub open spec fn unit_names_of_strings(s: Seq<String>) -> Seq<Seq<char>> {
    s.map_values(|x: String| x@)
}

/// Lexicographic order on names, by code point.
pub open spec fn lex_leq(a: Seq<char>, b: Seq<char>) -> bool
    decreases a.len(),
{
    if a.len() == 0 {
        true
    } else if b.len() == 0 {
        false
    } else if (a[0] as u32) < (b[0] as u32) {
        true
    } else if (a[0] as u32) > (b[0] as u32) {
        false
    } else {
        lex_leq(a.drop_first(), b.drop_first())
    }
}

/// Any two names compare, one way or the other.
pub proof fn lemma_lex_total(a: Seq<char>, b: Seq<char>)
    ensures
        lex_leq(a, b) || lex_leq(b, a),
    decreases a.len(),
{
    if a.len() > 0 && b.len() > 0 && (a[0] as u32) == (b[0] as u32) {
        lemma_lex_total(a.drop_first(), b.drop_first());
    }
}

/// The order is transitive.
pub proof fn lemma_lex_trans(a: Seq<char>, b: Seq<char>, c: Seq<char>)
    requires
        lex_leq(a, b),
        lex_leq(b, c),
    ensures
        lex_leq(a, c),
    decreases a.len(),
{
    if a.len() > 0 && b.len() > 0 && c.len() > 0 {
        if (a[0] as u32) == (b[0] as u32) && (b[0] as u32) == (c[0] as u32) {
            lemma_lex_trans(a.drop_first(), b.drop_first(), c.drop_first());
        }
    }
}

/// Compare two names lexicographically.
fn lex_le_str(a: &String, b: &String) -> (r: bool)
    ensures
        r == lex_leq(a@, b@),
{
    let ca = chars_of(a.as_str());
    let cb = chars_of(b.as_str());
    let na = ca.len();
    let nb = cb.len();
    proof {
        assert(a@.skip(0) =~= a@);
        assert(b@.skip(0) =~= b@);
    }
    let mut i: usize = 0;
    while i < na && i < nb
        invariant
            ca@ == a@,
            cb@ == b@,
            na == a@.len(),
            nb == b@.len(),
            i <= na,
            i <= nb,
            lex_leq(a@, b@) == lex_leq(a@.skip(i as int), b@.skip(i as int)),
        decreases na - i,
    {
        let x = ca[i] as u32;
        let y = cb[i] as u32;
        proof {
            assert(a@.skip(i as int)[0] == a@[i as int]);
            assert(b@.skip(i as int)[0] == b@[i as int]);
        }
        if x < y {
            return true;
        }
        if x > y {
            return false;
        }
        proof {
            assert(a@.skip(i as int).drop_first() =~= a@.skip(i + 1));
            assert(b@.skip(i as int).drop_first() =~= b@.skip(i + 1));
        }
        i = i + 1;
    }
    proof {
        if i >= na {
            assert(a@.skip(i as int).len() == 0);
        } else {
            assert(b@.skip(i as int).len() == 0);
            assert(a@.skip(i as int).len() > 0);
        }
    }
    i >= na
}

/// The units stand in name order.
pub open spec fn units_sorted(s: Seq<LibraryUnit>) -> bool {
    forall|i: int, j: int|
        0 <= i < j < s.len() ==> lex_leq(#[trigger] s[i].name@, #[trigger] s[j].name@)
}

/// Sort units by name, lexicographically: the result is ordered and holds
/// exactly the given units.
pub fn sort_units_by_name(units: Vec<LibraryUnit>) -> (r: Vec<LibraryUnit>)
    ensures
        units_sorted(r@),
        r@.to_multiset() == units@.to_multiset(),
{
    broadcast use vstd::seq_lib::group_to_multiset_ensures;

    let ghost orig = units@;
    let mut units = units;
    let mut out: Vec<LibraryUnit> = Vec::new();
    proof {
        assert(out@.to_multiset().add(units@.to_multiset()) =~= orig.to_multiset());
    }
    while units.len() > 0
        invariant
            units_sorted(out@),
            out@.to_multiset().add(units@.to_multiset()) == orig.to_multiset(),
        decreases units@.len(),
    {
        let ghost pre_units = units@;
        let u = units.remove(0);
        let mut p: usize = 0;
        let n = out.len();
        while p < n && lex_le_str(&out[p].name, &u.name)
            invariant
                n == out@.len(),
                p <= n,
                forall|q: int| 0 <= q < p ==> lex_leq(#[trigger] out@[q].name@, u.name@),
            decreases n - p,
        {
            p = p + 1;
        }
        proof {
            if p < out@.len() {
                lemma_lex_total(out@[p as int].name@, u.name@);
            }
            assert forall|q: int| p <= q < out@.len() implies lex_leq(
                u.name@,
                #[trigger] out@[q].name@,
            ) by {
                if q > p {
                    lemma_lex_trans(u.name@, out@[p as int].name@, out@[q].name@);
                }
            }
        }
        let ghost pre_out = out@;
        out.insert(p, u);
        proof {
            let s2 = out@;
            assert forall|i: int, j: int|
                0 <= i < j < s2.len() implies lex_leq(
                #[trigger] s2[i].name@,
                #[trigger] s2[j].name@,
            ) by {
                let oi: int = if i < p { i } else { i - 1 };
                let oj: int = if j < p { j } else { j - 1 };
                if i == p {
                    assert(s2[j] == pre_out[oj]);
                } else if j == p {
                    assert(s2[i] == pre_out[oi]);
                } else {
                    assert(s2[i] == pre_out[oi]);
                    assert(s2[j] == pre_out[oj]);
                }
            }
            assert(s2.remove(p as int) =~= pre_out);
            s2.to_multiset_ensures();
            pre_units.to_multiset_ensures();
            assert(s2.remove(p as int).to_multiset() =~= s2.to_multiset().remove(
                s2[p as int],
            ));
            assert(s2[p as int] == u);
            assert(s2.contains(u));
            assert(s2.to_multiset().count(u) > 0);
            assert(pre_out.to_multiset() =~= s2.to_multiset().remove(u));
            assert forall|x: LibraryUnit|
                s2.to_multiset().count(x) == pre_out.to_multiset().insert(u).count(x) by {
                if x == u {
                    assert(pre_out.to_multiset().count(u) == s2.to_multiset().count(u) - 1);
                } else {
                    assert(pre_out.to_multiset().count(x) == s2.to_multiset().count(x));
                }
            }
            assert(s2.to_multiset() =~= pre_out.to_multiset().insert(u));
            assert(pre_units.contains(pre_units[0]));
            assert(pre_units.to_multiset().count(pre_units[0]) > 0);
            assert(units@.to_multiset() =~= pre_units.to_multiset().remove(pre_units[0]));
            assert forall|x: LibraryUnit|
                pre_units.to_multiset().count(x) == units@.to_multiset().insert(u).count(x) by {
                if x == u {
                    assert(units@.to_multiset().count(u) == pre_units.to_multiset().count(u) - 1);
                } else {
                    assert(units@.to_multiset().count(x) == pre_units.to_multiset().count(x));
                }
            }
            assert(pre_units.to_multiset() =~= units@.to_multiset().insert(u));
            assert forall|x: LibraryUnit|
                out@.to_multiset().add(units@.to_multiset()).count(x) == orig.to_multiset().count(
                x,
            ) by {}
            assert(out@.to_multiset().add(units@.to_multiset()) =~= orig.to_multiset());
        }
    }
    proof {
        assert(units@.to_multiset() =~= vstd::multiset::Multiset::<LibraryUnit>::empty());
        assert(out@.to_multiset() =~= orig.to_multiset());
    }
    out
}

} // verus!
