//! Bindings from key combinations to commands, and the matcher that tells
//! which of them a pressed-key snapshot satisfies.

use crate::keys::KeySet;
use crate::seq_facts::push_contains;
use vstd::prelude::*;

verus! {

/// Why a binding or a binding table could not be built.
#[derive(Debug)]
pub enum ConfigError {
    /// A combination holds no key at all.
    EmptyCombination,
    /// A combination names a key that is not in the key table; the payload
    /// is the offending token as it was written.
    UnknownKey(String),
    /// The table would hold no binding.
    NoBindings,
}

/// A combination is active under a snapshot when every one of its keys is
/// held down.
pub open spec fn active(combination: Set<u16>, pressed: Set<u16>) -> bool {
    forall|k: u16| combination.contains(k) ==> pressed.contains(k)
}

/// A key combination together with the command it triggers.
pub struct Binding {
    combination: KeySet,
    command: String,
}

impl Binding {
    /// The keys of the combination.
    pub closed spec fn keys(&self) -> Set<u16> {
        self.combination@
    }

    /// The command text.
    pub closed spec fn command_text(&self) -> Seq<char> {
        self.command@
    }

    /// A binding's combination is never empty.
    pub open spec fn wf(&self) -> bool {
        self.keys() != Set::<u16>::empty()
    }

    #[verifier::type_invariant]
    spec fn nonempty(self) -> bool {
        self.combination@ != Set::<u16>::empty()
    }

    /// Builds a binding; an empty combination is rejected.
    pub fn new(combination: KeySet, command: String) -> (r: Result<Binding, ConfigError>)
        ensures
            (combination@ == Set::<u16>::empty()) <==> r.is_err(),
            r matches Err(e) ==> e is EmptyCombination,
            r matches Ok(b) ==> b.wf() && b.keys() == combination@ && b.command_text()
                == command@,
    {
        if combination.is_empty() {
            Err(ConfigError::EmptyCombination)
        } else {
            Ok(Binding { combination, command })
        }
    }

    /// The combination. It holds at least one key.
    pub fn combination(&self) -> (s: &KeySet)
        ensures
            s@ == self.keys(),
            self.wf(),
    {
        proof {
            use_type_invariant(self);
        }
        &self.combination
    }

    /// The command.
    pub fn command(&self) -> (s: &str)
        ensures
            s@ == self.command_text(),
    {
        self.command.as_str()
    }

    /// Whether the whole combination is held down in `pressed`.
    pub fn is_active(&self, pressed: &KeySet) -> (r: bool)
        ensures
            r == active(self.keys(), pressed@),
    {
        self.combination.is_subset_of(pressed)
    }
}

/// The bindings of one run, in the order in which they were defined. The
/// table is built once and only read afterwards.
pub struct BindingTable {
    bindings: Vec<Binding>,
}

impl View for BindingTable {
    type V = Seq<Binding>;

    closed spec fn view(&self) -> Seq<Binding> {
        self.bindings@
    }
}

impl BindingTable {
    #[verifier::type_invariant]
    spec fn nonempty(self) -> bool {
        self.bindings@.len() > 0
    }

    /// Whether the binding at index `i` is active under `pressed`.
    pub open spec fn active_at(&self, i: int, pressed: Set<u16>) -> bool {
        0 <= i < self@.len() && active(self@[i].keys(), pressed)
    }

    /// Whether at least one binding is active under `pressed`.
    pub open spec fn any_active(&self, pressed: Set<u16>) -> bool {
        exists|i: int| self.active_at(i, pressed)
    }

    /// Whether `code` belongs to the combination of at least one binding.
    pub open spec fn is_shortcut_key(&self, code: u16) -> bool {
        exists|i: int| 0 <= i < self@.len() && (#[trigger] self@[i]).keys().contains(code)
    }

    /// Builds the table; a table without bindings is rejected.
    pub fn new(bindings: Vec<Binding>) -> (r: Result<BindingTable, ConfigError>)
        ensures
            (bindings@.len() == 0) <==> r.is_err(),
            r matches Err(e) ==> e is NoBindings,
            r matches Ok(t) ==> t@ == bindings@,
    {
        if bindings.len() == 0 {
            Err(ConfigError::NoBindings)
        } else {
            Ok(BindingTable { bindings })
        }
    }

    /// Number of bindings. It is never zero.
    pub fn len(&self) -> (n: usize)
        ensures
            n == self@.len(),
            n > 0,
    {
        proof {
            use_type_invariant(self);
        }
        self.bindings.len()
    }

    /// The binding at index `i`, if there is one.
    pub fn get(&self, i: usize) -> (r: Option<&Binding>)
        ensures
            r.is_some() == (i < self@.len()),
            r matches Some(b) ==> *b == self@[i as int],
    {
        if i < self.bindings.len() {
            Some(&self.bindings[i])
        } else {
            None
        }
    }

    /// The indices of all bindings that are active under `pressed`, in table
    /// order. Overlapping and identical combinations are all reported.
    pub fn lookup_matches(&self, pressed: &KeySet) -> (r: Vec<usize>)
        ensures
            forall|i: int, j: int| 0 <= i < j < r@.len() ==> r@[i] < r@[j],
            forall|k: usize| r@.contains(k) <==> self.active_at(k as int, pressed@),
    {
        let mut out: Vec<usize> = Vec::new();
        let mut i: usize = 0;
        while i < self.bindings.len()
            invariant
                0 <= i <= self@.len(),
                forall|a: int, b: int| 0 <= a < b < out@.len() ==> out@[a] < out@[b],
                forall|a: int| 0 <= a < out@.len() ==> out@[a] < i,
                forall|k: usize|
                    out@.contains(k) <==> (k < i && self.active_at(k as int, pressed@)),
            decreases self@.len() - i,
        {
            let ghost prev = out@;
            if self.bindings[i].is_active(pressed) {
                out.push(i);
                proof {
                    assert(out@ =~= prev.push(i));
                    assert forall|k: usize|
                        out@.contains(k) <==> (k < i + 1 && self.active_at(
                            k as int,
                            pressed@,
                        )) by {
                        push_contains(prev, i, k);
                    }
                }
            }
            i += 1;
        }
        out
    }

    /// Whether at least one binding is active under `pressed`.
    pub fn has_active(&self, pressed: &KeySet) -> (r: bool)
        ensures
            r == self.any_active(pressed@),
    {
        let mut i: usize = 0;
        while i < self.bindings.len()
            invariant
                0 <= i <= self@.len(),
                forall|j: int| 0 <= j < i ==> !self.active_at(j, pressed@),
            decreases self@.len() - i,
        {
            if self.bindings[i].is_active(pressed) {
                assert(self.active_at(i as int, pressed@));
                return true;
            }
            i += 1;
        }
        false
    }

    /// Whether `code` belongs to the combination of at least one binding.
    pub fn uses_key(&self, code: u16) -> (r: bool)
        ensures
            r == self.is_shortcut_key(code),
    {
        let mut i: usize = 0;
        while i < self.bindings.len()
            invariant
                0 <= i <= self@.len(),
                forall|j: int| 0 <= j < i ==> !(#[trigger] self@[j]).keys().contains(code),
            decreases self@.len() - i,
        {
            if self.bindings[i].combination.contains(code) {
                assert(self@[i as int].keys().contains(code));
                return true;
            }
            i += 1;
        }
        false
    }
}

/// A binding is active exactly when its combination is a subset of the
/// pressed keys.
pub proof fn active_iff_subset(b: Binding, pressed: Set<u16>)
    ensures
        active(b.keys(), pressed) <==> b.keys().subset_of(pressed),
{
}

} // verus!
