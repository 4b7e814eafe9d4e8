//! Consumer groups: a roster of member clients and the deterministic
//! round-robin partition assignment.  With members and partitions both
//! sorted, partition `i` belongs to member `i mod |members|`; membership
//! changes only on explicit join and leave.

use vstd::prelude::*;

verus! {

/// Strictly increasing: sorted with no duplicates.
pub open spec fn sorted_strict(s: Seq<u32>) -> bool {
    forall|i: int, j: int| 0 <= i < j < s.len() ==> s[i] < s[j]
}

/// The partitions that `client` owns under round-robin assignment,
/// scanning from index `i`: partition `i` goes to member `i mod m`.
pub open spec fn assign_from(
    partitions: Seq<u32>,
    members: Seq<u32>,
    client: u32,
    i: int,
) -> Seq<u32>
    decreases partitions.len() - i when 0 <= i <= partitions.len()
{
    if i >= partitions.len() || members.len() == 0 {
        Seq::<u32>::empty()
    } else if members[i % members.len() as int] == client {
        seq![partitions[i]] + assign_from(partitions, members, client, i + 1)
    } else {
        assign_from(partitions, members, client, i + 1)
    }
}

/// A consumer group: its id, the topic it belongs to, and the sorted
/// member roster; the sorted partition list it assigns over.
#[derive(Debug)]
pub struct ConsumerGroup {
    pub id: u32,
    pub topic_id: u32,
    pub members: Vec<u32>,
    pub partitions: Vec<u32>,
}

impl ConsumerGroup {
    /// Both lists strictly sorted.
    pub open spec fn wf(self) -> bool {
        sorted_strict(self.members@) && sorted_strict(self.partitions@)
    }

    /// A fresh group over the given sorted partitions, with no members.
    pub fn new(id: u32, topic_id: u32, partitions: Vec<u32>) -> (r: ConsumerGroup)
        requires
            sorted_strict(partitions@),
        ensures
            r.wf(),
            r.id == id,
            r.topic_id == topic_id,
            r.members@ =~= Seq::<u32>::empty(),
            r.partitions@ == partitions@,
    {
        ConsumerGroup { id, topic_id, members: Vec::new(), partitions }
    }

    /// Adds a client to the roster, keeping it sorted; joining twice
    /// changes nothing.
    pub fn join(&mut self, client: u32)
        requires
            old(self).wf(),
        ensures
            final(self).wf(),
            forall|y: u32| final(self).members@.contains(y) <==> (old(self).members@.contains(y)
                || y == client),
            final(self).id == old(self).id,
            final(self).topic_id == old(self).topic_id,
            final(self).partitions@ == old(self).partitions@,
    {
        sorted_insert(&mut self.members, client);
    }

    /// Removes a client from the roster; its partitions fall back to the
    /// remaining members.
    pub fn leave(&mut self, client: u32)
        requires
            old(self).wf(),
        ensures
            final(self).wf(),
            forall|y: u32| final(self).members@.contains(y) <==> (old(self).members@.contains(y)
                && y != client),
            final(self).id == old(self).id,
            final(self).topic_id == old(self).topic_id,
            final(self).partitions@ == old(self).partitions@,
    {
        sorted_remove(&mut self.members, client);
    }

    /// Whether a client is currently a member.
    pub fn has_member(&self, client: u32) -> (r: bool)
        ensures
            r == self.members@.contains(client),
    {
        contains_sorted(&self.members, client)
    }

    /// The partitions assigned to `client`: partition `i` of the sorted
    /// list belongs to member `i mod |members|`.
    pub fn assignment_for(&self, client: u32) -> (r: Vec<u32>)
        ensures
            r@ == assign_from(self.partitions@, self.members@, client, 0),
    {
        let mut out: Vec<u32> = Vec::new();
        let n = self.partitions.len();
        let m = self.members.len();
        if m == 0 {
            proof {
                assert(assign_from(self.partitions@, self.members@, client, 0)
                    =~= Seq::<u32>::empty());
            }
            return out;
        }
        let mut i: usize = 0;
        while i < n
            invariant
                i <= n,
                n == self.partitions@.len(),
                m == self.members@.len(),
                m >= 1,
                out@ + assign_from(self.partitions@, self.members@, client, i as int)
                    =~= assign_from(self.partitions@, self.members@, client, 0),
            decreases n - i,
        {
            if self.members[i % m] == client {
                out.push(self.partitions[i]);
            }
            i = i + 1;
            proof {
                assert(out@ + assign_from(self.partitions@, self.members@, client, i as int)
                    =~= assign_from(self.partitions@, self.members@, client, 0));
            }
        }
        proof {
            assert(assign_from(self.partitions@, self.members@, client, n as int)
                =~= Seq::<u32>::empty());
            assert(out@ =~= out@ + Seq::<u32>::empty());
        }
        out
    }
}

/// Inserts `x` into a strictly sorted vector, keeping it strictly sorted;
/// a present value is left alone.
fn sorted_insert(v: &mut Vec<u32>, x: u32)
    requires
        sorted_strict(old(v)@),
    ensures
        sorted_strict(final(v)@),
        forall|y: u32| final(v)@.contains(y) <==> (old(v)@.contains(y) || y == x),
{
    let n = v.len();
    let mut i: usize = 0;
    while i < n
        invariant
            i <= n,
            n == v@.len(),
            v@ == old(v)@,
            sorted_strict(v@),
            forall|j: int| 0 <= j < i ==> v@[j] < x,
        decreases n - i,
    {
        if v[i] == x {
            proof {
                assert(v@.contains(x));
            }
            return;
        }
        if v[i] > x {
            let ghost before = v@;
            v.insert(i, x);
            proof {
                assert(v@ =~= before.take(i as int) + seq![x] + before.skip(i as int));
                assert forall|y: u32| v@.contains(y) implies (before.contains(y) || y == x) by {
                    let w = choose|w: int| 0 <= w < v@.len() && v@[w] == y;
                    if w < i {
                        assert(before[w] == y);
                    } else if w > i {
                        assert(before[w - 1] == y);
                    }
                }
                assert forall|y: u32| before.contains(y) || y == x implies v@.contains(y) by {
                    if y == x {
                        assert(v@[i as int] == x);
                    } else {
                        let w = choose|w: int| 0 <= w < before.len() && before[w] == y;
                        if w < i {
                            assert(v@[w] == y);
                        } else {
                            assert(v@[w + 1] == y);
                        }
                    }
                }
            }
            return;
        }
        i = i + 1;
    }
    let ghost before = v@;
    v.push(x);
    proof {
        assert forall|y: u32| v@.contains(y) implies (before.contains(y) || y == x) by {
            let w = choose|w: int| 0 <= w < v@.len() && v@[w] == y;
            if w < before.len() {
                assert(before[w] == y);
            }
        }
        assert forall|y: u32| before.contains(y) || y == x implies v@.contains(y) by {
            if y == x {
                assert(v@[before.len() as int] == x);
            } else {
                let w = choose|w: int| 0 <= w < before.len() && before[w] == y;
                assert(v@[w] == y);
            }
        }
    }
}

/// Removes `x` from a strictly sorted vector, keeping it strictly
/// sorted; an absent value changes nothing.
fn sorted_remove(v: &mut Vec<u32>, x: u32)
    requires
        sorted_strict(old(v)@),
    ensures
        sorted_strict(final(v)@),
        forall|y: u32| final(v)@.contains(y) <==> (old(v)@.contains(y) && y != x),
{
    let n = v.len();
    let mut i: usize = 0;
    while i < n
        invariant
            i <= n,
            n == v@.len(),
            v@ == old(v)@,
            sorted_strict(v@),
            forall|j: int| 0 <= j < i ==> v@[j] != x,
        decreases n - i,
    {
        if v[i] == x {
            let ghost before = v@;
            v.remove(i);
            proof {
                assert(v@ =~= before.take(i as int) + before.skip(i as int + 1));
                assert forall|y: u32| v@.contains(y) implies (before.contains(y) && y != x) by {
                    let w = choose|w: int| 0 <= w < v@.len() && v@[w] == y;
                    if w < i {
                        assert(before[w] == y);
                        assert(before[w] != before[i as int] || w == i);
                    } else {
                        assert(before[w + 1] == y);
                    }
                }
                assert forall|y: u32| before.contains(y) && y != x implies v@.contains(y) by {
                    let w = choose|w: int| 0 <= w < before.len() && before[w] == y;
                    if w < i {
                        assert(v@[w] == y);
                    } else if w > i {
                        assert(v@[w - 1] == y);
                    }
                }
            }
            return;
        }
        i = i + 1;
    }
    proof {
        assert forall|y: u32| v@.contains(y) implies (old(v)@.contains(y) && y != x) by {
            let w = choose|w: int| 0 <= w < v@.len() && v@[w] == y;
        }
    }
}

/// Whether a vector holds `x`.
fn contains_sorted(v: &Vec<u32>, x: u32) -> (r: bool)
    ensures
        r == v@.contains(x),
{
    let n = v.len();
    let mut i: usize = 0;
    while i < n
        invariant
            i <= n,
            n == v@.len(),
            forall|j: int| 0 <= j < i ==> v@[j] != x,
        decreases n - i,
    {
        if v[i] == x {
            return true;
        }
        i = i + 1;
    }
    proof {
        assert(!v@.contains(x));
    }
    false
}

/// Two strictly sorted sequences with the same members are the same
/// sequence.
pub proof fn lemma_sorted_unique(a: Seq<u32>, b: Seq<u32>)
    requires
        sorted_strict(a),
        sorted_strict(b),
        forall|y: u32| a.contains(y) <==> b.contains(y),
    ensures
        a == b,
    decreases a.len(),
{
    if a.len() == 0 {
        if b.len() > 0 {
            assert(b.contains(b[0]));
            assert(a.contains(b[0]));
        }
        assert(a =~= b);
    } else {
        assert(a.contains(a[0]));
        assert(b.contains(a[0]));
        let wb = choose|w: int| 0 <= w < b.len() && b[w] == a[0];
        assert(b[0] <= b[wb]);
        assert(b.contains(b[0]));
        assert(a.contains(b[0]));
        let wa = choose|w: int| 0 <= w < a.len() && a[w] == b[0];
        assert(a[0] <= a[wa]);
        assert(a[0] == b[0]);
        assert forall|y: u32| a.drop_first().contains(y) <==> b.drop_first().contains(y) by {
            lemma_head_membership(a, y);
            lemma_head_membership(b, y);
        }
        lemma_sorted_unique(a.drop_first(), b.drop_first());
        assert(a =~= seq![a[0]] + a.drop_first());
        assert(b =~= seq![b[0]] + b.drop_first());
    }
}

/// In a strictly sorted sequence, the tail holds exactly the members
/// larger than the head.
proof fn lemma_head_membership(s: Seq<u32>, y: u32)
    requires
        sorted_strict(s),
        s.len() >= 1,
    ensures
        s.drop_first().contains(y) <==> (s.contains(y) && y != s[0]),
{
    if s.drop_first().contains(y) {
        let w = choose|w: int| 0 <= w < s.drop_first().len() && s.drop_first()[w] == y;
        assert(s[w + 1] == y);
        assert(s[0] < s[w + 1]);
    }
    if s.contains(y) && y != s[0] {
        let w = choose|w: int| 0 <= w < s.len() && s[w] == y;
        assert(w != 0);
        assert(s.drop_first()[w - 1] == y);
    }
}

/// Partition assignment determinism: the round-robin assignment depends
/// only on which clients are members and which partitions exist, not on
/// the history that built the rosters — two strictly sorted rosters with
/// the same member and partition sets assign every client the same
/// partitions, so the mapping is reproducible across restarts.
pub proof fn lemma_assignment_determinism(a: ConsumerGroup, b: ConsumerGroup, client: u32)
    requires
        a.wf(),
        b.wf(),
        forall|y: u32| a.members@.contains(y) <==> b.members@.contains(y),
        forall|y: u32| a.partitions@.contains(y) <==> b.partitions@.contains(y),
    ensures
        assign_from(a.partitions@, a.members@, client, 0) == assign_from(
            b.partitions@,
            b.members@,
            client,
            0,
        ),
{
    lemma_sorted_unique(a.members@, b.members@);
    lemma_sorted_unique(a.partitions@, b.partitions@);
}

} // verus!
