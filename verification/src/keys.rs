//! Sets of key codes, kept in evdev's bitmap representation.

use crate::seq_facts::push_contains;
use evdev::{AttributeSet, EventType, KeyCode};
use vstd::prelude::*;

verus! {

/// Number of distinct key codes a key set has room for. Codes at or above
/// this limit are never members of any set.
pub const KEY_LIMIT: u16 = 768;

/// The code of the Enter key.
pub const KEY_ENTER: u16 = 28;

/// The code of the letter key A.
pub const KEY_A: u16 = 30;

/// A set of key codes, stored as an `evdev::AttributeSet<KeyCode>`.
///
/// The bitmap is hidden from the verifier; everything known about a value is
/// what the operations below say of `key_set_contents`.
#[verifier::external_body]
pub struct KeySet {
    inner: AttributeSet<KeyCode>,
}

/// The key codes whose bits are set in the bitmap of a key set.
pub uninterp spec fn key_set_contents(s: KeySet) -> Set<u16>;

impl View for KeySet {
    type V = Set<u16>;

    open spec fn view(&self) -> Set<u16> {
        key_set_contents(*self)
    }
}

/// Calls `AttributeSet::<KeyCode>::new`, which returns a zeroed bitmap: the
/// contract claims that no key is a member of the result.
#[verifier::external_body]
fn bitmap_new() -> (s: KeySet)
    ensures
        key_set_contents(s) == Set::<u16>::empty(),
{
    KeySet { inner: AttributeSet::new() }
}

/// Calls `AttributeSetRef::insert` with `KeyCode::new(code)`, which sets the
/// bit at index `code` and panics when the index is outside the bitmap: the
/// contract asks for a code below the limit and claims that exactly this
/// code was added.
#[verifier::external_body]
fn bitmap_insert(s: &mut KeySet, code: u16)
    requires
        code < KEY_LIMIT,
    ensures
        key_set_contents(*final(s)) == key_set_contents(*old(s)).insert(code),
{
    s.inner.insert(KeyCode::new(code))
}

/// Calls `AttributeSetRef::contains` with `KeyCode::new(code)`, which reads
/// the bit at index `code` and answers `false` for an index outside the
/// bitmap: the contract claims that the result is membership.
#[verifier::external_body]
fn bitmap_contains(s: &KeySet, code: u16) -> (r: bool)
    ensures
        r == key_set_contents(*s).contains(code),
{
    s.inner.contains(KeyCode::new(code))
}

/// Calls `AttributeSetRef::iter`, which walks the set bits from the lowest
/// index upwards, and `KeyCode::code` on each item: the contract claims that
/// the result lists exactly the members, in strictly ascending order.
#[verifier::external_body]
fn bitmap_codes(s: &KeySet) -> (v: Vec<u16>)
    ensures
        forall|k: u16| v@.contains(k) <==> key_set_contents(*s).contains(k),
        forall|i: int, j: int| 0 <= i < j < v@.len() ==> v@[i] < v@[j],
{
    s.inner.iter().map(|k| k.code()).collect()
}

/// Reads the constant `EventType::KEY`: the contract claims its value, 1.
#[verifier::external_body]
fn key_event_type() -> (t: u16)
    ensures
        t == 1,
{
    EventType::KEY.0
}

/// The type code carried by key press, release and repeat events.
pub open spec fn spec_key_event_kind() -> u16 {
    1
}

/// The type code carried by key press, release and repeat events.
pub fn key_event_kind() -> (t: u16)
    ensures
        t == spec_key_event_kind(),
{
    key_event_type()
}

impl KeySet {
    /// The empty key set.
    pub fn new() -> (s: KeySet)
        ensures
            s@ == Set::<u16>::empty(),
    {
        bitmap_new()
    }

    /// Adds `code` to the set when it is below `KEY_LIMIT` and leaves the set
    /// unchanged otherwise. Returns whether the code was representable.
    pub fn insert(&mut self, code: u16) -> (added: bool)
        ensures
            added == (code < KEY_LIMIT),
            added ==> final(self)@ == old(self)@.insert(code),
            !added ==> final(self)@ == old(self)@,
    {
        if code < KEY_LIMIT {
            bitmap_insert(self, code);
            true
        } else {
            false
        }
    }

    /// Whether `code` is a member.
    pub fn contains(&self, code: u16) -> (r: bool)
        ensures
            r == self@.contains(code),
    {
        bitmap_contains(self, code)
    }

    /// The members in strictly ascending order.
    pub fn codes(&self) -> (v: Vec<u16>)
        ensures
            forall|k: u16| v@.contains(k) <==> self@.contains(k),
            forall|i: int, j: int| 0 <= i < j < v@.len() ==> v@[i] < v@[j],
    {
        bitmap_codes(self)
    }

    /// Whether the set has no member.
    pub fn is_empty(&self) -> (r: bool)
        ensures
            r == (self@ == Set::<u16>::empty()),
    {
        let v = bitmap_codes(self);
        proof {
            if v@.len() == 0 {
                assert(self@ =~= Set::<u16>::empty());
            } else {
                assert(v@.contains(v@[0]));
                assert(self@.contains(v@[0]));
            }
        }
        v.len() == 0
    }

    /// Whether every member of `self` is a member of `other`.
    pub fn is_subset_of(&self, other: &KeySet) -> (r: bool)
        ensures
            r == self@.subset_of(other@),
    {
        let v = bitmap_codes(self);
        let mut i: usize = 0;
        while i < v.len()
            invariant
                0 <= i <= v@.len(),
                forall|k: u16| v@.contains(k) <==> self@.contains(k),
                forall|j: int| 0 <= j < i ==> other@.contains(#[trigger] v@[j]),
            decreases v@.len() - i,
        {
            if !bitmap_contains(other, v[i]) {
                proof {
                    assert(v@.contains(v@[i as int]));
                }
                return false;
            }
            i += 1;
        }
        proof {
            assert forall|k: u16| self@.contains(k) implies other@.contains(k) by {
                assert(v@.contains(k));
                let j = choose|j: int| 0 <= j < v@.len() && v@[j] == k;
                assert(other@.contains(v@[j]));
            }
        }
        true
    }

    /// The set of the given codes, or `None` when one of them is at or above
    /// `KEY_LIMIT`.
    pub fn from_codes(codes: &[u16]) -> (r: Option<KeySet>)
        ensures
            r.is_some() == (forall|i: int| 0 <= i < codes@.len() ==> codes@[i] < KEY_LIMIT),
            r matches Some(s) ==> (forall|k: u16| s@.contains(k) <==> codes@.contains(k)),
    {
        let mut s = bitmap_new();
        let mut i: usize = 0;
        while i < codes.len()
            invariant
                0 <= i <= codes@.len(),
                forall|k: u16| s@.contains(k) <==> codes@.take(i as int).contains(k),
                forall|j: int| 0 <= j < i ==> codes@[j] < KEY_LIMIT,
            decreases codes@.len() - i,
        {
            let c = codes[i];
            if c >= KEY_LIMIT {
                return None;
            }
            let ghost before = s@;
            bitmap_insert(&mut s, c);
            proof {
                let t0 = codes@.take(i as int);
                let t1 = codes@.take(i as int + 1);
                assert(t1 =~= t0.push(c));
                assert(s@ == before.insert(c));
                assert forall|k: u16| s@.contains(k) <==> t1.contains(k) by {
                    push_contains(t0, c, k);
                }
            }
            i += 1;
        }
        proof {
            assert(codes@.take(i as int) =~= codes@);
        }
        Some(s)
    }
}

/// Whether a device with the key capabilities `supported` counts as a
/// keyboard: it must have at least the letter key A and the Enter key.
pub fn is_keyboard(supported: &KeySet) -> (r: bool)
    ensures
        r == (supported@.contains(KEY_A) && supported@.contains(KEY_ENTER)),
{
    supported.contains(KEY_A) && supported.contains(KEY_ENTER)
}

} // verus!
