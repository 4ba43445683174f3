//! The connection registry: the single authoritative mapping from session id
//! to outbound delivery handle, plus the broadcast fan-out decision.
//!
//! The registry is generic over the handle type `H`: a handle is an opaque
//! capability that lets its holder deliver a text payload to one session's
//! transport. The registry itself never touches a transport; a broadcast
//! produces the list of deliveries to perform, and the caller performs them.

use vstd::prelude::*;

verus! {

/// True when `id` is the id of some entry of `s`.
pub open spec fn id_in<H>(s: Seq<(u128, H)>, id: u128) -> bool {
    exists|i: int| 0 <= i < s.len() && s[i].0 == id
}

/// True when no two entries of `s` share an id.
pub open spec fn unique_ids<H>(s: Seq<(u128, H)>) -> bool {
    forall|i: int, j: int| 0 <= i < j < s.len() ==> s[i].0 != s[j].0
}

/// The entries of `s` with every entry for `id` removed.
pub open spec fn without_id<H>(s: Seq<(u128, H)>, id: u128) -> Seq<(u128, H)> {
    s.filter(|e: (u128, H)| e.0 != id)
}

proof fn lemma_id_in_push<H>(t: Seq<(u128, H)>, e: (u128, H), x: u128)
    ensures
        id_in(t.push(e), x) <==> (id_in(t, x) || e.0 == x),
{
    if id_in(t, x) {
        let i = choose|i: int| 0 <= i < t.len() && t[i].0 == x;
        assert(t.push(e)[i].0 == x);
    }
    if e.0 == x {
        assert(t.push(e)[t.len() as int].0 == x);
    }
    if id_in(t.push(e), x) {
        let i = choose|i: int| 0 <= i < t.push(e).len() && t.push(e)[i].0 == x;
        if i < t.len() {
            assert(t[i].0 == x);
        }
    }
}

/// Removing an id that is nowhere in the entries leaves them unchanged.
pub proof fn lemma_without_id_absent<H>(s: Seq<(u128, H)>, id: u128)
    requires
        !id_in(s, id),
    ensures
        without_id(s, id) == s,
    decreases s.len(),
{
    reveal(Seq::filter);
    if s.len() > 0 {
        let t = s.drop_last();
        assert forall|k: int| 0 <= k < t.len() implies t[k].0 != id by {
            assert(s[k].0 != id);
        }
        lemma_without_id_absent(t, id);
        assert(s.last().0 != id);
        assert(without_id(s, id) =~= s);
    } else {
        assert(without_id(s, id) =~= s);
    }
}

/// When exactly the entry at index `i` carries `id`, removing `id` is
/// removing that one entry.
proof fn lemma_without_id_single<H>(s: Seq<(u128, H)>, id: u128, i: int)
    requires
        0 <= i < s.len(),
        s[i].0 == id,
        forall|k: int| 0 <= k < s.len() && k != i ==> s[k].0 != id,
    ensures
        without_id(s, id) == s.remove(i),
    decreases s.len(),
{
    reveal(Seq::filter);
    let t = s.drop_last();
    if i == s.len() - 1 {
        assert forall|k: int| 0 <= k < t.len() implies t[k].0 != id by {
            assert(s[k].0 != id);
        }
        lemma_without_id_absent(t, id);
        assert(without_id(s, id) =~= s.remove(i));
    } else {
        assert(t[i].0 == id);
        assert forall|k: int| 0 <= k < t.len() && k != i implies t[k].0 != id by {
            assert(s[k].0 != id);
        }
        lemma_without_id_single(t, id, i);
        assert(s.last().0 != id);
        assert(without_id(s, id) == without_id(t, id).push(s.last()));
        assert(without_id(s, id) =~= s.remove(i));
    }
}

/// The entries without `id` hold exactly the other ids of `s`.
pub proof fn lemma_without_id_membership<H>(s: Seq<(u128, H)>, id: u128)
    ensures
        forall|x: u128| id_in(without_id(s, id), x) <==> (id_in(s, x) && x != id),
    decreases s.len(),
{
    reveal(Seq::filter);
    if s.len() > 0 {
        let t = s.drop_last();
        lemma_without_id_membership(t, id);
        assert forall|x: u128| id_in(without_id(s, id), x) <==> (id_in(s, x) && x != id) by {
            lemma_id_in_push(t, s.last(), x);
            assert(s =~= t.push(s.last()));
            if s.last().0 != id {
                assert(without_id(s, id) == without_id(t, id).push(s.last()));
                lemma_id_in_push(without_id(t, id), s.last(), x);
            } else {
                assert(without_id(s, id) == without_id(t, id));
            }
        }
    }
}

/// `Disconnect` is idempotent: removing an id a second time, or removing an
/// id that was never connected, leaves the entries unchanged after the first
/// effective removal.
pub proof fn lemma_disconnect_idempotent<H>(s: Seq<(u128, H)>, id: u128)
    ensures
        without_id(without_id(s, id), id) == without_id(s, id),
        !id_in(s, id) ==> without_id(s, id) == s,
{
    lemma_without_id_membership(s, id);
    assert(!id_in(without_id(s, id), id));
    lemma_without_id_absent(without_id(s, id), id);
    if !id_in(s, id) {
        lemma_without_id_absent(s, id);
    }
}

/// One pending broadcast delivery: the payload, carried verbatim, addressed
/// to the session registered under `id`.
pub struct Delivery {
    pub id: u128,
    pub payload: String,
}

/// A membership directory from session id to outbound handle.
///
/// All mutation goes through `connect` and `disconnect`, so the entry list
/// always carries pairwise-distinct ids.
pub struct Registry<H> {
    entries: Vec<(u128, H)>,
}

impl<H> View for Registry<H> {
    type V = Seq<(u128, H)>;

    closed spec fn view(&self) -> Seq<(u128, H)> {
        self.entries@
    }
}

impl<H> Registry<H> {
    /// Every id appears at most once.
    pub open spec fn wf(&self) -> bool {
        unique_ids(self@)
    }

    /// True when `id` is currently registered.
    pub open spec fn has_id(&self, id: u128) -> bool {
        id_in(self@, id)
    }

    /// The set of currently registered ids.
    pub open spec fn id_set(&self) -> Set<u128> {
        Set::new(|id: u128| self.has_id(id))
    }

    /// An empty registry: no session is connected.
    pub fn new() -> (r: Registry<H>)
        ensures
            r@ == Seq::<(u128, H)>::empty(),
            r.wf(),
    {
        Registry { entries: Vec::new() }
    }

    /// How many sessions are currently registered.
    pub fn len(&self) -> (n: usize)
        ensures
            n == self@.len(),
    {
        self.entries.len()
    }

    /// Whether `id` is currently registered.
    pub fn contains(&self, id: u128) -> (b: bool)
        ensures
            b == self.has_id(id),
    {
        let n = self.entries.len();
        let mut i: usize = 0;
        while i < n
            invariant
                n == self@.len(),
                i <= n,
                forall|k: int| 0 <= k < i ==> self@[k].0 != id,
            decreases n - i,
        {
            if self.entries[i].0 == id {
                return true;
            }
            i += 1;
        }
        false
    }

    /// Registers `id` under its outbound handle, making it visible to every
    /// subsequent broadcast. The caller guarantees that `id` is not already
    /// present: a duplicate id is a programming error, not a recoverable
    /// condition.
    pub fn connect(&mut self, id: u128, handle: H)
        requires
            old(self).wf(),
            !old(self).has_id(id),
        ensures
            final(self)@ == old(self)@.push((id, handle)),
            final(self).wf(),
            final(self).id_set() == old(self).id_set().insert(id),
            forall|x: u128| final(self).has_id(x) <==> (old(self).has_id(x) || x == id),
    {
        self.entries.push((id, handle));
        proof {
            let pre = old(self)@;
            let post = self@;
            assert forall|i: int, j: int| 0 <= i < j < post.len() implies post[i].0
                != post[j].0 by {
                if j < post.len() - 1 {
                    assert(pre[i].0 != pre[j].0);
                } else {
                    assert(post[i] == pre[i]);
                    assert(!(exists|k: int| 0 <= k < pre.len() && pre[k].0 == id));
                }
            }
            assert forall|x: u128|
                self.has_id(x) <==> (old(self).has_id(x) || x == id) by {
                if x == id {
                    assert(post[post.len() - 1].0 == id);
                } else {
                    if id_in(pre, x) {
                        let i = choose|i: int| 0 <= i < pre.len() && pre[i].0 == x;
                        assert(post[i].0 == x);
                    }
                    if id_in(post, x) {
                        let i = choose|i: int| 0 <= i < post.len() && post[i].0 == x;
                        assert(i < post.len() - 1);
                        assert(pre[i].0 == x);
                    }
                }
            }
            assert(self.id_set() =~= old(self).id_set().insert(id));
        }
    }

    /// Removes `id` if present; removing an absent id is a no-op. A session
    /// may legitimately be removed once by timeout and once by its own
    /// teardown path, so double removal must not fail.
    pub fn disconnect(&mut self, id: u128)
        requires
            old(self).wf(),
        ensures
            final(self)@ == without_id(old(self)@, id),
            final(self).wf(),
            final(self).id_set() == old(self).id_set().remove(id),
            !final(self).has_id(id),
            forall|x: u128| final(self).has_id(x) <==> (old(self).has_id(x) && x != id),
    {
        let n = self.entries.len();
        let mut i: usize = 0;
        while i < n
            invariant
                n == self@.len(),
                i <= n,
                self@ == old(self)@,
                unique_ids(self@),
                forall|k: int| 0 <= k < i ==> self@[k].0 != id,
            decreases n - i,
        {
            if self.entries[i].0 == id {
                proof {
                    assert forall|k: int|
                        0 <= k < self@.len() && k != i as int implies self@[k].0 != id by {
                        if k > i as int {
                            assert(self@[i as int].0 != self@[k].0);
                        }
                    }
                    lemma_without_id_single(self@, id, i as int);
                }
                self.entries.remove(i);
                proof {
                    Self::lemma_disconnect_post(old(self)@, self@, id);
                    assert(self.id_set() =~= old(self).id_set().remove(id));
                }
                return;
            }
            i += 1;
        }
        proof {
            lemma_without_id_absent(self@, id);
            Self::lemma_disconnect_post(old(self)@, self@, id);
            assert(self.id_set() =~= old(self).id_set().remove(id));
        }
    }

    /// The broadcast fan-out decision: one delivery, carrying `payload`
    /// verbatim, for every currently registered session — the sender, being
    /// registered, included. The caller hands each delivery to the handle
    /// registered under its id; a delivery that can no longer be accepted is
    /// dropped there, without touching the membership.
    pub fn fan_out(&self, payload: &String) -> (ds: Vec<Delivery>)
        ensures
            ds@.len() == self@.len(),
            forall|i: int|
                0 <= i < ds@.len() ==> ds@[i].id == self@[i].0 && ds@[i].payload@ == payload@,
    {
        let n = self.entries.len();
        let mut ds: Vec<Delivery> = Vec::new();
        let mut i: usize = 0;
        while i < n
            invariant
                n == self@.len(),
                i <= n,
                ds@.len() == i,
                forall|k: int|
                    0 <= k < i ==> ds@[k].id == self@[k].0 && ds@[k].payload@ == payload@,
            decreases n - i,
        {
            let target: u128 = self.entries[i].0;
            ds.push(Delivery { id: target, payload: payload.clone() });
            i += 1;
        }
        ds
    }

    /// The outbound handle registered under `id`, if any.
    pub fn handle_for(&self, id: u128) -> (r: Option<&H>)
        requires
            self.wf(),
        ensures
            (match r {
                Some(h) => self.has_id(id) && exists|i: int|
                    0 <= i < self@.len() && self@[i].0 == id && self@[i].1 == *h,
                None => !self.has_id(id),
            }),
    {
        let n = self.entries.len();
        let mut i: usize = 0;
        while i < n
            invariant
                n == self@.len(),
                i <= n,
                forall|k: int| 0 <= k < i ==> self@[k].0 != id,
            decreases n - i,
        {
            if self.entries[i].0 == id {
                return Some(&self.entries[i].1);
            }
            i += 1;
        }
        None
    }

    /// From `post == without_id(pre, id)`: uniqueness is preserved, `id` is
    /// gone, and the id set is the old one less `id`.
    proof fn lemma_disconnect_post(pre: Seq<(u128, H)>, post: Seq<(u128, H)>, id: u128)
        requires
            unique_ids(pre),
            post == without_id(pre, id),
        ensures
            unique_ids(post),
            !id_in(post, id),
            forall|x: u128| id_in(post, x) <==> (id_in(pre, x) && x != id),
    {
        lemma_without_id_membership(pre, id);
        if id_in(pre, id) {
            let j = choose|j: int| 0 <= j < pre.len() && pre[j].0 == id;
            assert forall|k: int| 0 <= k < pre.len() && k != j implies pre[k].0 != id by {
                if k < j {
                    assert(pre[k].0 != pre[j].0);
                } else {
                    assert(pre[j].0 != pre[k].0);
                }
            }
            lemma_without_id_single(pre, id, j);
            assert forall|a: int, b: int| 0 <= a < b < post.len() implies post[a].0
                != post[b].0 by {
                let pa = if a < j { a } else { a + 1 };
                let pb = if b < j { b } else { b + 1 };
                assert(post[a] == pre[pa]);
                assert(post[b] == pre[pb]);
            }
        } else {
            lemma_without_id_absent(pre, id);
        }
    }
}

/// Broadcast property: among the deliveries of a fan-out — any delivery list
/// that matches the `fan_out` contract for registry `r` and payload
/// `payload` — every session registered at that moment, the sender included,
/// is addressed exactly once, and every delivery carries the payload
/// verbatim.
pub proof fn lemma_fan_out_exactly_once<H>(
    r: Registry<H>,
    ds: Seq<Delivery>,
    payload: Seq<char>,
    id: u128,
)
    requires
        r.wf(),
        r.has_id(id),
        ds.len() == r@.len(),
        forall|i: int| 0 <= i < ds.len() ==> ds[i].id == r@[i].0 && ds[i].payload@ == payload,
    ensures
        forall|i: int| 0 <= i < ds.len() ==> r.has_id(#[trigger] ds[i].id),
        exists|j: int|
            0 <= j < ds.len() && #[trigger] ds[j].id == id && ds[j].payload@ == payload && (forall|
                k: int,
            |
                0 <= k < ds.len() && k != j ==> ds[k].id != id),
{
    assert forall|i: int| 0 <= i < ds.len() implies r.has_id(#[trigger] ds[i].id) by {
        assert(r@[i].0 == ds[i].id);
    }
    let j = choose|j: int| 0 <= j < r@.len() && r@[j].0 == id;
    assert forall|k: int| 0 <= k < ds.len() && k != j implies ds[k].id != id by {
        if k < j {
            assert(r@[k].0 != r@[j].0);
        } else {
            assert(r@[j].0 != r@[k].0);
        }
    }
    assert(0 <= j < ds.len() && ds[j].id == id && ds[j].payload@ == payload);
}

} // verus!
