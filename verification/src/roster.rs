//! The roster of users waiting for the next game.
//!
//! Membership is a toggle: a toggle signal from a user inserts them if
//! absent and removes them if present.  Insertion order is preserved for
//! rendering, and the roster never holds the same user twice.

use vstd::prelude::*;

verus! {

/// Removes the first occurrence of `u` from `s`, if any.
pub open spec fn remove_first(s: Seq<u64>, u: u64) -> Seq<u64>
    decreases s.len(),
{
    if s.len() == 0 {
        s
    } else if s[0] == u {
        s.drop_first()
    } else {
        seq![s[0]] + remove_first(s.drop_first(), u)
    }
}

/// What one toggle signal does to the roster: removes the user if present,
/// appends them if absent.
pub open spec fn toggle_spec(s: Seq<u64>, u: u64) -> Seq<u64> {
    if s.contains(u) {
        remove_first(s, u)
    } else {
        s.push(u)
    }
}

/// `remove_first` removes exactly the element at the first index holding
/// `u`.
proof fn lemma_remove_first_at(s: Seq<u64>, u: u64, i: int)
    requires
        0 <= i < s.len(),
        s[i] == u,
        forall|j: int| 0 <= j < i ==> s[j] != u,
    ensures
        remove_first(s, u) == s.remove(i),
    decreases i,
{
    if i == 0 {
        assert(remove_first(s, u) =~= s.remove(0));
    } else {
        lemma_remove_first_at(s.drop_first(), u, i - 1);
        assert(remove_first(s, u) =~= s.remove(i));
    }
}

/// After removing `u` from a duplicate-free roster, `u` is gone, every
/// other member stays, and the roster is still duplicate-free.
pub proof fn lemma_remove_first_membership(s: Seq<u64>, u: u64)
    requires
        s.no_duplicates(),
        s.contains(u),
    ensures
        !remove_first(s, u).contains(u),
        forall|v: u64| v != u ==> remove_first(s, u).contains(v) == s.contains(v),
        remove_first(s, u).no_duplicates(),
    decreases s.len(),
{
    let i = choose|i: int| 0 <= i < s.len() && s[i] == u;
    assert(forall|j: int| 0 <= j < s.len() && j != i ==> s[j] != u);
    lemma_remove_first_at(s, u, i);
    let r = s.remove(i);
    assert forall|v: u64| v != u implies r.contains(v) == s.contains(v) by {
        if s.contains(v) {
            let k = choose|k: int| 0 <= k < s.len() && s[k] == v;
            if k < i {
                assert(r[k] == v);
            } else {
                assert(r[k - 1] == v);
            }
        }
        if r.contains(v) {
            let k = choose|k: int| 0 <= k < r.len() && r[k] == v;
            if k < i {
                assert(s[k] == v);
            } else {
                assert(s[k + 1] == v);
            }
        }
    }
    assert(!r.contains(u)) by {
        if r.contains(u) {
            let k = choose|k: int| 0 <= k < r.len() && r[k] == u;
            if k < i {
                assert(s[k] == u);
            } else {
                assert(s[k + 1] == u);
            }
        }
    }
}

/// Toggling twice in immediate succession restores the roster's
/// membership, and neither step introduces a duplicate.  When the user was
/// absent, even the order is restored exactly.
pub proof fn lemma_toggle_twice(s: Seq<u64>, u: u64)
    requires
        s.no_duplicates(),
    ensures
        toggle_spec(s, u).no_duplicates(),
        toggle_spec(toggle_spec(s, u), u).no_duplicates(),
        forall|v: u64| toggle_spec(toggle_spec(s, u), u).contains(v) == s.contains(v),
        !s.contains(u) ==> toggle_spec(toggle_spec(s, u), u) == s,
{
    if s.contains(u) {
        lemma_remove_first_membership(s, u);
        let r = remove_first(s, u);
        assert(toggle_spec(s, u) == r);
        assert(toggle_spec(r, u) == r.push(u));
        assert forall|v: u64| r.push(u).contains(v) == (r.contains(v) || v == u) by {
            assert(r.push(u)[r.len() as int] == u);
            if r.contains(v) {
                let k = choose|k: int| 0 <= k < r.len() && r[k] == v;
                assert(r.push(u)[k] == v);
            }
            if r.push(u).contains(v) && v != u {
                let k = choose|k: int| 0 <= k < r.push(u).len() && r.push(u)[k] == v;
                assert(r[k] == v);
            }
        }
        assert forall|v: u64| toggle_spec(toggle_spec(s, u), u).contains(v) == s.contains(
            v,
        ) by {
            if v != u {
                assert(r.push(u).contains(v) == r.contains(v));
            }
        }
        assert(r.push(u).no_duplicates());
    } else {
        let p = s.push(u);
        assert(p[s.len() as int] == u);
        assert(p.contains(u));
        assert(toggle_spec(s, u) == p);
        assert(p.no_duplicates());
        assert(p[s.len() as int] == u);
        assert(forall|j: int| 0 <= j < s.len() ==> p[j] == s[j]);
        lemma_remove_first_at(p, u, s.len() as int);
        assert(toggle_spec(p, u) == p.remove(s.len() as int));
        assert(p.remove(s.len() as int) =~= s);
    }
}

/// The ordered, duplicate-free set of users waiting for the next game.
pub struct Roster {
    users: Vec<u64>,
}

impl View for Roster {
    type V = Seq<u64>;

    closed spec fn view(&self) -> Seq<u64> {
        self.users@
    }
}

impl Roster {
    /// No user appears twice.
    pub open spec fn wf(&self) -> bool {
        self@.no_duplicates()
    }

    /// An empty roster.
    pub fn new() -> (r: Roster)
        ensures
            r@ == Seq::<u64>::empty(),
            r.wf(),
    {
        Roster { users: Vec::new() }
    }

    /// How many users are waiting.
    pub fn len(&self) -> (n: usize)
        ensures
            n == self@.len(),
    {
        self.users.len()
    }

    /// The user at position `i`, in insertion order.
    pub fn get(&self, i: usize) -> (u: u64)
        requires
            i < self@.len(),
        ensures
            u == self@[i as int],
    {
        self.users[i]
    }

    /// Whether `user` is currently on the roster.
    pub fn contains(&self, user: u64) -> (r: bool)
        ensures
            r == self@.contains(user),
    {
        let n = self.users.len();
        let mut i: usize = 0;
        while i < n
            invariant
                0 <= i <= n == self@.len(),
                forall|j: int| 0 <= j < i ==> self@[j] != user,
            decreases n - i,
        {
            if self.users[i] == user {
                return true;
            }
            i = i + 1;
        }
        false
    }

    /// Toggles `user`'s presence: removes them if present, appends them if
    /// absent.  Returns whether the user was added.
    pub fn toggle(&mut self, user: u64) -> (added: bool)
        requires
            old(self).wf(),
        ensures
            final(self).wf(),
            added == !old(self)@.contains(user),
            final(self)@ == toggle_spec(old(self)@, user),
    {
        let n = self.users.len();
        let mut i: usize = 0;
        while i < n
            invariant
                0 <= i <= n == self@.len(),
                *self == *old(self),
                old(self).wf(),
                forall|j: int| 0 <= j < i ==> self@[j] != user,
            decreases n - i,
        {
            if self.users[i] == user {
                proof {
                    assert(self@[i as int] == user);
                    assert(self@.contains(user));
                    lemma_remove_first_at(self@, user, i as int);
                    lemma_remove_first_membership(self@, user);
                }
                self.users.remove(i);
                return false;
            }
            i = i + 1;
        }
        proof {
            assert(!old(self)@.contains(user));
        }
        self.users.push(user);
        proof {
            assert(self@.drop_last() =~= old(self)@);
            assert forall|k: int, l: int|
                0 <= k < self@.len() && 0 <= l < self@.len() && k != l implies self@[k]
                != self@[l] by {
                if k < self@.len() - 1 && l < self@.len() - 1 {
                    assert(old(self)@[k] != old(self)@[l]);
                }
            }
        }
        true
    }
}

} // verus!
