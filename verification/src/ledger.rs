//! The validated balance store.
//!
//! A [`Ledger`] owns a mapping from string addresses to unsigned balances and
//! routes every read and write through an [`AddressValidation`] capability
//! injected at construction. Its abstract state is a `Map<Seq<char>, u64>`
//! holding exactly the addresses that were ever written; an absent address
//! reads as balance `0`.

use vstd::prelude::*;
use vstd::map::*;
use vstd::pervasive::VecAdditionalExecFns;
use crate::validation::AddressValidation;

verus! {

/// The one failure a ledger operation can report: the address was rejected
/// by the validator. Always recoverable; the mapping is never changed on
/// this error.
#[derive(Clone, Copy, Debug, PartialEq, Eq, Structural)]
pub enum BalanceError {
    InvalidAddress,
}

/// The balance an address holds in the abstract mapping `m`: the stored
/// value if the address is present, `0` otherwise.
pub open spec fn balance_in(m: Map<Seq<char>, u64>, address: Seq<char>) -> u64 {
    if m.contains_key(address) {
        m[address]
    } else {
        0
    }
}

/// An address-to-balance store whose reads and writes are all guarded by the
/// validation capability `V`.
pub struct Ledger<V: AddressValidation> {
    validator: V,
    entries: Vec<(String, u64)>,
}

/// `s[i]` carries the address `a`.
spec fn key_at(s: Seq<(String, u64)>, a: Seq<char>, i: int) -> bool {
    0 <= i < s.len() && s[i].0@ == a
}

/// No two entries carry the same address.
spec fn distinct_keys(s: Seq<(String, u64)>) -> bool {
    forall|i: int, j: int|
        #![trigger s[i].0@, s[j].0@]
        0 <= i < j < s.len() ==> s[i].0@ != s[j].0@
}

/// The mapping an entry sequence denotes: each address carried by some entry
/// is bound to that entry's value.
spec fn view_of(s: Seq<(String, u64)>) -> Map<Seq<char>, u64> {
    Map::new(
        |a: Seq<char>| exists|i: int| key_at(s, a, i),
        |a: Seq<char>| s[choose|i: int| key_at(s, a, i)].1,
    )
}

/// With distinct keys, the entry at `i` decides both membership and value of
/// its address.
proof fn lemma_view_value(s: Seq<(String, u64)>, a: Seq<char>, i: int)
    requires
        distinct_keys(s),
        key_at(s, a, i),
    ensures
        view_of(s).contains_key(a),
        view_of(s)[a] == s[i].1,
{
    let j = choose|k: int| key_at(s, a, k);
    if j != i {
        if i < j {
            assert(s[i].0@ != s[j].0@);
        } else {
            assert(s[j].0@ != s[i].0@);
        }
    }
    assert(view_of(s)[a] == s[j].1);
}

/// An address carried by no entry is absent from the mapping.
proof fn lemma_view_absent(s: Seq<(String, u64)>, a: Seq<char>)
    requires
        forall|i: int| 0 <= i < s.len() ==> s[i].0@ != a,
    ensures
        !view_of(s).contains_key(a),
{
    if view_of(s).contains_key(a) {
        let i = choose|k: int| key_at(s, a, k);
        assert(s[i].0@ != a);
    }
}

/// Replacing the entry that carries `e`'s address re-binds that address and
/// leaves every other binding alone.
proof fn lemma_view_update(s: Seq<(String, u64)>, i: int, e: (String, u64))
    requires
        distinct_keys(s),
        0 <= i < s.len(),
        s[i].0@ == e.0@,
    ensures
        distinct_keys(s.update(i, e)),
        view_of(s.update(i, e)) == view_of(s).insert(e.0@, e.1),
{
    let t = s.update(i, e);
    assert forall|k: int| 0 <= k < t.len() implies #[trigger] t[k].0@ == s[k].0@ by {
    }
    assert forall|p: int, q: int|
        #![trigger t[p].0@, t[q].0@]
        0 <= p < q < t.len() implies t[p].0@ != t[q].0@ by {
        assert(s[p].0@ != s[q].0@);
    }
    let m1 = view_of(t);
    let m2 = view_of(s).insert(e.0@, e.1);
    assert_maps_equal!(m1, m2, a => {
        if a == e.0@ {
            assert(key_at(t, a, i));
            lemma_view_value(t, a, i);
        } else {
            if view_of(s).contains_key(a) {
                let k = choose|k: int| key_at(s, a, k);
                assert(key_at(s, a, k));
                assert(key_at(t, a, k));
                lemma_view_value(t, a, k);
                lemma_view_value(s, a, k);
            }
            if m1.contains_key(a) {
                let k = choose|k: int| key_at(t, a, k);
                assert(key_at(t, a, k));
                assert(key_at(s, a, k));
                lemma_view_value(t, a, k);
                lemma_view_value(s, a, k);
            }
        }
    });
}

/// Appending an entry whose address no existing entry carries binds that
/// address and leaves every other binding alone.
proof fn lemma_view_push(s: Seq<(String, u64)>, e: (String, u64))
    requires
        distinct_keys(s),
        forall|i: int| 0 <= i < s.len() ==> s[i].0@ != e.0@,
    ensures
        distinct_keys(s.push(e)),
        view_of(s.push(e)) == view_of(s).insert(e.0@, e.1),
{
    let t = s.push(e);
    let n = s.len() as int;
    assert forall|p: int, q: int|
        #![trigger t[p].0@, t[q].0@]
        0 <= p < q < t.len() implies t[p].0@ != t[q].0@ by {
        if q < n {
            assert(s[p].0@ != s[q].0@);
        } else {
            assert(s[p].0@ != e.0@);
        }
    }
    let m1 = view_of(t);
    let m2 = view_of(s).insert(e.0@, e.1);
    assert_maps_equal!(m1, m2, a => {
        if a == e.0@ {
            assert(key_at(t, a, n));
            lemma_view_value(t, a, n);
        } else {
            if view_of(s).contains_key(a) {
                let k = choose|k: int| key_at(s, a, k);
                assert(key_at(s, a, k));
                assert(key_at(t, a, k));
                lemma_view_value(t, a, k);
                lemma_view_value(s, a, k);
            }
            if m1.contains_key(a) {
                let k = choose|k: int| key_at(t, a, k);
                assert(key_at(t, a, k));
                assert(k != n);
                assert(key_at(s, a, k));
                lemma_view_value(t, a, k);
                lemma_view_value(s, a, k);
            }
        }
    });
}

impl<V: AddressValidation> View for Ledger<V> {
    type V = Map<Seq<char>, u64>;

    closed spec fn view(&self) -> Map<Seq<char>, u64> {
        view_of(self.entries@)
    }
}

impl<V: AddressValidation> Ledger<V> {
    /// The ledger's internal invariant: no address is stored twice.
    pub closed spec fn wf(&self) -> bool {
        distinct_keys(self.entries@)
    }

    /// The validation capability this ledger was built with.
    pub closed spec fn spec_validator(&self) -> V {
        self.validator
    }

    /// Whether this ledger's validator accepts the address.
    pub open spec fn accepts(&self, address: Seq<char>) -> bool {
        self.spec_validator().spec_valid(address)
    }

    /// The balance this ledger holds for `address`: the stored value, or `0`
    /// if the address was never written.
    pub open spec fn spec_balance(&self, address: Seq<char>) -> u64 {
        balance_in(self@, address)
    }

    /// Creates an empty ledger guarded by `validator`.
    pub fn new(validator: V) -> (l: Ledger<V>)
        ensures
            l.wf(),
            l@ == Map::<Seq<char>, u64>::empty(),
            l.spec_validator() == validator,
    {
        let l = Ledger { validator, entries: Vec::new() };
        proof {
            assert forall|a: Seq<char>| !l@.contains_key(a) by {
                lemma_view_absent(l.entries@, a);
            }
            assert(l@ =~= Map::<Seq<char>, u64>::empty());
        }
        l
    }

    /// The index of the entry carrying `address`, if one exists.
    fn find_index(&self, address: &String) -> (r: Option<usize>)
        requires
            self.wf(),
        ensures
            match r {
                Some(i) => key_at(self.entries@, address@, i as int),
                None => forall|i: int|
                    0 <= i < self.entries@.len() ==> self.entries@[i].0@ != address@,
            },
    {
        let mut i: usize = 0;
        while i < self.entries.len()
            invariant
                i <= self.entries@.len(),
                forall|j: int| 0 <= j < i ==> self.entries@[j].0@ != address@,
            decreases self.entries@.len() - i,
        {
            if self.entries[i].0 == *address {
                return Some(i);
            }
            i = i + 1;
        }
        None
    }

    /// Overwrites the balance stored for `address` with `amount`.
    ///
    /// If the validator rejects the address, fails with
    /// [`BalanceError::InvalidAddress`] and leaves the mapping unchanged;
    /// otherwise binds the address to exactly `amount`, replacing any earlier
    /// balance. This is an absolute set, not a credit.
    pub fn set_balance(&mut self, address: String, amount: u64) -> (r: Result<(), BalanceError>)
        requires
            old(self).wf(),
        ensures
            final(self).wf(),
            final(self).spec_validator() == old(self).spec_validator(),
            old(self).accepts(address@) ==> r == Ok::<(), BalanceError>(())
                && final(self)@ == old(self)@.insert(address@, amount),
            !old(self).accepts(address@) ==> r == Err::<(), BalanceError>(
                BalanceError::InvalidAddress,
            ) && final(self)@ == old(self)@,
    {
        if !self.validator.is_valid_address(address.as_str()) {
            return Err(BalanceError::InvalidAddress);
        }
        match self.find_index(&address) {
            Some(i) => {
                proof {
                    lemma_view_update(self.entries@, i as int, (address, amount));
                }
                self.entries.set(i, (address, amount));
            },
            None => {
                proof {
                    lemma_view_push(self.entries@, (address, amount));
                }
                self.entries.push((address, amount));
            },
        }
        Ok(())
    }

    /// Reads the balance stored for `address`.
    ///
    /// If the validator rejects the address, fails with
    /// [`BalanceError::InvalidAddress`]; otherwise returns the stored
    /// balance, or `0` for an address never written. Side-effect-free.
    pub fn balance(&self, address: &str) -> (r: Result<u64, BalanceError>)
        requires
            self.wf(),
        ensures
            self.accepts(address@) ==> r == Ok::<u64, BalanceError>(
                balance_in(self@, address@),
            ),
            !self.accepts(address@) ==> r == Err::<u64, BalanceError>(
                BalanceError::InvalidAddress,
            ),
    {
        if !self.validator.is_valid_address(address) {
            return Err(BalanceError::InvalidAddress);
        }
        let owned = address.to_owned();
        match self.find_index(&owned) {
            Some(i) => {
                proof {
                    lemma_view_value(self.entries@, address@, i as int);
                }
                Ok(self.entries[i].1)
            },
            None => {
                proof {
                    lemma_view_absent(self.entries@, address@);
                }
                Ok(0)
            },
        }
    }
}

/// Law: writing a balance and then reading the same address yields exactly
/// the written value.
pub proof fn lemma_set_then_read(m: Map<Seq<char>, u64>, a: Seq<char>, v: u64)
    ensures
        balance_in(m.insert(a, v), a) == v,
{
}

/// Law: in a ledger where nothing was ever written, every address reads as
/// balance `0`.
pub proof fn lemma_unwritten_zero(a: Seq<char>)
    ensures
        balance_in(Map::<Seq<char>, u64>::empty(), a) == 0,
{
}

/// Law: writing one address leaves the balance read at every other address
/// unchanged; an address never written therefore keeps reading as `0`.
pub proof fn lemma_write_other_preserves(m: Map<Seq<char>, u64>, a: Seq<char>, b: Seq<char>, v: u64)
    requires
        a != b,
    ensures
        balance_in(m.insert(b, v), a) == balance_in(m, a),
{
}

/// Law: two successive writes to one address overwrite; the second value is
/// the one that remains.
pub proof fn lemma_overwrite(m: Map<Seq<char>, u64>, a: Seq<char>, v1: u64, v2: u64)
    ensures
        balance_in(m.insert(a, v1).insert(a, v2), a) == v2,
{
}

} // verus!
