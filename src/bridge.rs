use vstd::prelude::*;

use crate::error::Error;

verus! {

/// Some entry is registered under `t`.
pub open spec fn holds<F>(s: Seq<(u64, F)>, t: u64) -> bool {
    exists|i: int| 0 <= i < s.len() && #[trigger] s[i].0 == t
}

/// The position of the first entry registered under `t`, or -1.
pub open spec fn token_index<F>(s: Seq<(u64, F)>, t: u64) -> int
    decreases s.len(),
{
    if s.len() == 0 {
        -1
    } else if s[0].0 == t {
        0
    } else if token_index(s.drop_first(), t) == -1 {
        -1
    } else {
        token_index(s.drop_first(), t) + 1
    }
}

/// What is left once the entry of `t` has been taken out.
pub open spec fn without<F>(s: Seq<(u64, F)>, t: u64) -> Seq<(u64, F)> {
    if holds(s, t) {
        s.remove(token_index(s, t))
    } else {
        s
    }
}

pub proof fn lemma_token_index<F>(s: Seq<(u64, F)>, t: u64)
    ensures
        -1 <= token_index(s, t) < s.len(),
        token_index(s, t) == -1 <==> !holds(s, t),
        token_index(s, t) >= 0 ==> s[token_index(s, t)].0 == t,
        token_index(s, t) >= 0 ==> forall|j: int|
            0 <= j < token_index(s, t) ==> #[trigger] s[j].0 != t,
    decreases s.len(),
{
    if s.len() > 0 {
        let p = s.drop_first();
        lemma_token_index(p, t);
        if s[0].0 != t {
            if holds(s, t) {
                let i = choose|i: int| 0 <= i < s.len() && #[trigger] s[i].0 == t;
                assert(p[i - 1].0 == t);
            }
            if holds(p, t) {
                let i = choose|i: int| 0 <= i < p.len() && #[trigger] p[i].0 == t;
                assert(s[i + 1].0 == t);
            }
            if token_index(p, t) >= 0 {
                assert forall|j: int| 0 <= j < token_index(s, t) implies #[trigger] s[j].0 != t by {
                    if j > 0 {
                        assert(s[j] == p[j - 1]);
                    }
                }
            }
        }
    }
}

/// A continuation registered under a fresh token is found last.
proof fn lemma_token_index_push<F>(s: Seq<(u64, F)>, t: u64, c: F)
    requires
        !holds(s, t),
    ensures
        token_index(s.push((t, c)), t) == s.len(),
        holds(s.push((t, c)), t),
{
    let p = s.push((t, c));
    assert(p[s.len() as int].0 == t);
    lemma_token_index(p, t);
    let k = token_index(p, t);
    if k < s.len() {
        assert(s[k].0 == t);
    }
}

/// Registered continuations, each under its own token, that wait for the
/// completion of the operation they were registered for. Completing a token
/// invokes its continuation once and releases it.
pub struct Pending<T, F> {
    entries: Vec<(u64, F)>,
    next_token: u64,
    outcome: core::marker::PhantomData<T>,
}

impl<T, F: FnOnce(Result<T, Error>)> View for Pending<T, F> {
    type V = Seq<(u64, F)>;

    /// The registered continuations with their tokens, oldest first.
    closed spec fn view(&self) -> Seq<(u64, F)> {
        self.entries@
    }
}

impl<T, F: FnOnce(Result<T, Error>)> Pending<T, F> {
    /// The token that the next registration gets.
    pub closed spec fn spec_next_token(&self) -> u64 {
        self.next_token
    }

    /// Tokens are distinct and below the next one, and every continuation
    /// accepts every outcome.
    pub closed spec fn wf(&self) -> bool {
        &&& forall|i: int, j: int|
            0 <= i < j < self.entries@.len() ==> #[trigger] self.entries@[i].0
                != #[trigger] self.entries@[j].0
        &&& forall|i: int|
            0 <= i < self.entries@.len() ==> #[trigger] self.entries@[i].0 < self.next_token
        &&& forall|i: int, r: Result<T, Error>|
            0 <= i < self.entries@.len() ==> #[trigger] self.entries@[i].1.requires((r,))
    }

    /// Nothing registered.
    pub fn new() -> (r: Self)
        ensures
            r.wf(),
            r@ == Seq::<(u64, F)>::empty(),
            r.spec_next_token() == 0,
    {
        Pending { entries: Vec::new(), next_token: 0, outcome: core::marker::PhantomData }
    }

    /// How many continuations wait.
    pub fn len(&self) -> (r: usize)
        ensures
            r == self@.len(),
    {
        self.entries.len()
    }

    /// A token is left for one more registration.
    pub fn has_capacity(&self) -> (r: bool)
        ensures
            r == (self.spec_next_token() < u64::MAX),
    {
        self.next_token < u64::MAX
    }

    /// Some continuation waits under `token`.
    pub fn is_pending(&self, token: u64) -> (r: bool)
        ensures
            r == holds(self@, token),
    {
        let mut i: usize = 0;
        while i < self.entries.len()
            invariant
                i <= self.entries@.len(),
                forall|j: int| 0 <= j < i ==> #[trigger] self.entries@[j].0 != token,
            decreases self.entries@.len() - i,
        {
            if self.entries[i].0 == token {
                return true;
            }
            i = i + 1;
        }
        proof {
            if holds(self@, token) {
                let j = choose|j: int| 0 <= j < self.entries@.len() && #[trigger] self.entries@[j].0 == token;
                assert(self.entries@[j].0 != token);
            }
        }
        false
    }

    /// Takes ownership of `continuation` and returns the fresh token that
    /// its operation's completion must carry.
    pub fn register(&mut self, continuation: F) -> (token: u64)
        requires
            old(self).wf(),
            old(self).spec_next_token() < u64::MAX,
            forall|r: Result<T, Error>| continuation.requires((r,)),
        ensures
            final(self).wf(),
            !holds(old(self)@, token),
            final(self)@ == old(self)@.push((token, continuation)),
            final(self).spec_next_token() == old(self).spec_next_token() + 1,
    {
        let token = self.next_token;
        assert(!holds(self@, token)) by {
            if holds(self@, token) {
                let i = choose|i: int| 0 <= i < self.entries@.len() && #[trigger] self.entries@[i].0
                    == token;
                assert(self.entries@[i].0 < self.next_token);
            }
        }
        let ghost before = self.entries@;
        self.entries.push((token, continuation));
        self.next_token = token + 1;
        assert forall|i: int, j: int| 0 <= i < j < self.entries@.len() implies #[trigger] self.entries@[i].0
            != #[trigger] self.entries@[j].0 by {
            if j < before.len() {
                assert(before[i].0 != before[j].0);
            } else {
                assert(before[i].0 < token);
            }
        }
        assert forall|i: int, r: Result<T, Error>|
            0 <= i < self.entries@.len() implies #[trigger] self.entries@[i].1.requires((r,)) by {
            if i < before.len() {
                assert(before[i].1.requires((r,)));
            }
        }
        token
    }

    /// Takes out the continuation registered under `token`, releasing its
    /// slot, for a caller that invokes it itself. A token that is not
    /// pending (never registered, or taken before) gives nothing and changes
    /// nothing.
    pub fn take(&mut self, token: u64) -> (r: Option<F>)
        requires
            old(self).wf(),
        ensures
            final(self).wf(),
            r is Some <==> holds(old(self)@, token),
            r matches Some(c) ==> c == old(self)@[token_index(old(self)@, token)].1 && forall|
                o: Result<T, Error>,
            | c.requires((o,)),
            final(self)@ == without(old(self)@, token),
            final(self).spec_next_token() == old(self).spec_next_token(),
    {
        proof {
            lemma_token_index(self.entries@, token);
        }
        let mut i: usize = 0;
        while i < self.entries.len()
            invariant
                i <= self.entries@.len(),
                forall|j: int| 0 <= j < i ==> #[trigger] self.entries@[j].0 != token,
                self.entries@ == old(self).entries@,
                self.next_token == old(self).next_token,
                old(self).wf(),
                -1 <= token_index(self.entries@, token) < self.entries@.len(),
                token_index(self.entries@, token) == -1 <==> !holds(self.entries@, token),
                token_index(self.entries@, token) >= 0 ==> self.entries@[token_index(
                    self.entries@,
                    token,
                )].0 == token,
            decreases self.entries@.len() - i,
        {
            if self.entries[i].0 == token {
                let ghost before = self.entries@;
                proof {
                    let k = token_index(before, token);
                    if k != i as int {
                        assert(before[k].0 == token);
                        if k < i {
                            assert(before[k].0 != token);
                        } else {
                            assert(before[i as int].0 != before[k].0);
                        }
                    }
                }
                let (_, continuation) = self.entries.remove(i);
                assert forall|o: Result<T, Error>| continuation.requires((o,)) by {
                    assert(before[i as int].1.requires((o,)));
                }
                assert forall|a: int, b: int| 0 <= a < b < self.entries@.len() implies #[trigger] self.entries@[a].0
                    != #[trigger] self.entries@[b].0 by {
                    let a0 = if a < i { a } else { a + 1 };
                    let b0 = if b < i { b } else { b + 1 };
                    assert(before[a0].0 != before[b0].0);
                }
                assert forall|a: int| 0 <= a < self.entries@.len() implies #[trigger] self.entries@[a].0
                    < self.next_token by {
                    let a0 = if a < i { a } else { a + 1 };
                    assert(before[a0].0 < self.next_token);
                }
                assert forall|a: int, o: Result<T, Error>|
                    0 <= a < self.entries@.len() implies #[trigger] self.entries@[a].1.requires(
                    (o,),
                ) by {
                    let a0 = if a < i { a } else { a + 1 };
                    assert(before[a0].1.requires((o,)));
                }
                return Some(continuation);
            }
            i = i + 1;
        }
        proof {
            if holds(self.entries@, token) {
                let j = choose|j: int| 0 <= j < self.entries@.len() && #[trigger] self.entries@[j].0 == token;
                assert(self.entries@[j].0 != token);
            }
        }
        None
    }

    /// Delivers the outcome of the operation registered under `token`: its
    /// continuation is invoked with `outcome`, then released. A token that
    /// is not pending (never registered, or completed before) invokes
    /// nothing and changes nothing.
    pub fn complete(&mut self, token: u64, outcome: Result<T, Error>) -> (invoked: bool)
        requires
            old(self).wf(),
        ensures
            final(self).wf(),
            invoked == holds(old(self)@, token),
            final(self)@ == without(old(self)@, token),
            invoked ==> call_ensures(
                old(self)@[token_index(old(self)@, token)].1,
                (outcome,),
                (),
            ),
            final(self).spec_next_token() == old(self).spec_next_token(),
    {
        match self.take(token) {
            Some(continuation) => {
                continuation(outcome);
                true
            },
            None => false,
        }
    }
}

/// Exactly once: a continuation registered under a fresh token is invoked by
/// the first completion of that token, which leaves the registry as it was
/// before the registration (its allocation released), and no later
/// completion of that token invokes anything.
pub proof fn lemma_exactly_once<F>(before: Seq<(u64, F)>, token: u64, continuation: F)
    requires
        !holds(before, token),
    ensures
        holds(before.push((token, continuation)), token),
        before.push((token, continuation))[token_index(before.push((token, continuation)), token)].1
            == continuation,
        without(before.push((token, continuation)), token) == before,
        !holds(without(before.push((token, continuation)), token), token),
{
    lemma_token_index_push(before, token, continuation);
    assert(before.push((token, continuation)).remove(before.len() as int) =~= before);
}

} // verus!
