//! Breakpoint addresses.
use std::collections::HashSet;
use vstd::prelude::*;

verus! {

broadcast use vstd::std_specs::hash::group_hash_axioms;

/// A set of breakpoint addresses.
pub struct Breakpoints {
    addrs: HashSet<u32>,
}

/// Whether a list is strictly increasing (sorted, with no address twice).
pub open spec fn strictly_increasing(s: Seq<u32>) -> bool {
    forall|i: int, j: int| 0 <= i < j < s.len() ==> s[i] < s[j]
}

/// The strictly increasing list of the addresses of `s` (there is exactly
/// one for a finite set, see `lemma_list_is_unique`).
pub open spec fn sorted_list(s: Set<u32>) -> Seq<u32> {
    choose|q: Seq<u32>| strictly_increasing(q) && q.to_set() == s
}

impl View for Breakpoints {
    type V = Set<u32>;

    closed spec fn view(&self) -> Set<u32> {
        self.addrs@
    }
}

/// The position in a strictly increasing list at which `addr` is, or would
/// be inserted.
fn position(v: &Vec<u32>, addr: u32) -> (p: usize)
    requires
        strictly_increasing(v@),
    ensures
        p <= v@.len(),
        forall|i: int| 0 <= i < p ==> v@[i] < addr,
        forall|i: int| p <= i < v@.len() ==> v@[i] >= addr,
{
    let mut lo: usize = 0;
    let mut hi: usize = v.len();
    while lo < hi
        invariant
            lo <= hi <= v@.len(),
            strictly_increasing(v@),
            forall|i: int| 0 <= i < lo ==> v@[i] < addr,
            forall|i: int| hi <= i < v@.len() ==> v@[i] >= addr,
        decreases hi - lo,
    {
        let mid = lo + (hi - lo) / 2;
        if v[mid] < addr {
            lo = mid + 1;
        } else {
            hi = mid;
        }
    }
    lo
}

/// Insert `addr` into a strictly increasing list, keeping it so.
fn insert_sorted(v: &mut Vec<u32>, addr: u32)
    requires
        strictly_increasing(old(v)@),
    ensures
        strictly_increasing(final(v)@),
        final(v)@.to_set() == old(v)@.to_set().insert(addr),
{
    let p = position(v, addr);
    if p < v.len() && v[p] == addr {
        assert(old(v)@.to_set().contains(addr));
        assert(v@.to_set() =~= old(v)@.to_set().insert(addr));
        return;
    }
    v.insert(p, addr);
    assert(v@ == old(v)@.insert(p as int, addr));
    assert(v@.to_set() =~= old(v)@.to_set().insert(addr)) by {
        assert forall|x: u32| #[trigger] v@.to_set().contains(x) <==> old(v)@.to_set().insert(addr).contains(x) by {
            if v@.to_set().contains(x) {
                let i = choose|i: int| 0 <= i < v@.len() && v@[i] == x;
                if i < p {
                    assert(old(v)@[i] == x);
                } else if i > p {
                    assert(old(v)@[i - 1] == x);
                }
            }
            if old(v)@.to_set().contains(x) {
                let i = choose|i: int| 0 <= i < old(v)@.len() && old(v)@[i] == x;
                if i < p {
                    assert(v@[i] == x);
                } else {
                    assert(v@[i + 1] == x);
                }
            }
            if x == addr {
                assert(v@[p as int] == x);
            }
        }
    }
}

impl Breakpoints {
    /// The set is finite.
    pub closed spec fn wf(&self) -> bool {
        self.addrs@.finite()
    }

    pub fn new() -> (b: Self)
        ensures
            b.wf(),
            b@ == Set::<u32>::empty(),
    {
        Breakpoints { addrs: HashSet::new() }
    }

    pub fn add(&mut self, addr: u32)
        requires
            old(self).wf(),
        ensures
            final(self).wf(),
            final(self)@ == old(self)@.insert(addr),
    {
        self.addrs.insert(addr);
    }

    pub fn remove(&mut self, addr: u32)
        requires
            old(self).wf(),
        ensures
            final(self).wf(),
            final(self)@ == old(self)@.remove(addr),
    {
        self.addrs.remove(&addr);
    }

    pub fn clear(&mut self)
        ensures
            final(self).wf(),
            final(self)@ == Set::<u32>::empty(),
    {
        self.addrs.clear();
    }

    pub fn is_set(&self, addr: u32) -> (b: bool)
        requires
            self.wf(),
        ensures
            b == self@.contains(addr),
    {
        self.addrs.contains(&addr)
    }

    /// Every breakpoint address, in increasing order.
    pub fn list(&self) -> (v: Vec<u32>)
        requires
            self.wf(),
        ensures
            strictly_increasing(v@),
            v@.to_set() == self@,
            v@ == sorted_list(self@),
    {
        let mut v: Vec<u32> = Vec::new();
        for x in it: self.addrs.iter()
            invariant
                self.wf(),
                it.seq().unref().to_set() == self@,
                strictly_increasing(v@),
                v@.to_set() == it.seq().take(it.index()).unref().to_set(),
                it.index() == it.seq().len() ==> v@.to_set() == self@,
            ensures
                strictly_increasing(v@),
                v@.to_set() == self@,
        {
            let ghost pre = it.seq().take(it.index()).unref();
            insert_sorted(&mut v, *x);
            proof {
                let post = it.seq().take(it.index() + 1).unref();
                assert(post =~= pre.push(*x));
                pre.lemma_push_to_set_commute(*x);
                assert(it.index() + 1 == it.seq().len() ==> post =~= it.seq().unref());
            }
        }
        proof {
            let q = sorted_list(self@);
            assert(strictly_increasing(v@) && v@.to_set() == self@);
            lemma_list_is_unique(q, v@);
        }
        v
    }
}

/// A set of addresses has one strictly increasing list: two such lists with
/// the same addresses are equal. So `list` gives the same result for any two
/// breakpoint sets with the same addresses (for instance after adding an
/// address that is already set, or after adding a new one and removing it).
pub proof fn lemma_list_is_unique(a: Seq<u32>, b: Seq<u32>)
    requires
        strictly_increasing(a),
        strictly_increasing(b),
        a.to_set() == b.to_set(),
    ensures
        a == b,
    decreases a.len(),
{
    if a.len() == 0 {
        if b.len() > 0 {
            assert(b.to_set().contains(b[0]));
        }
        assert(b.len() == 0);
    } else {
        assert(a.to_set().contains(a[0]));
        assert(b.len() > 0);
        assert(b.to_set().contains(b[0]));
        let i = choose|i: int| 0 <= i < b.len() && b[i] == a[0];
        let j = choose|j: int| 0 <= j < a.len() && a[j] == b[0];
        assert(a[0] <= a[j]);
        assert(b[0] <= b[i]);
        assert(a[0] == b[0]);
        let a1 = a.drop_first();
        let b1 = b.drop_first();
        assert(a1.to_set() =~= b1.to_set()) by {
            assert forall|x: u32| a1.to_set().contains(x) implies b1.to_set().contains(x) by {
                let k = choose|k: int| 0 <= k < a1.len() && a1[k] == x;
                assert(a[k + 1] == x && a[0] < x);
                assert(a.to_set().contains(x));
                let q = choose|q: int| 0 <= q < b.len() && b[q] == x;
                assert(q != 0);
                assert(b1[q - 1] == x);
            }
            assert forall|x: u32| b1.to_set().contains(x) implies a1.to_set().contains(x) by {
                let k = choose|k: int| 0 <= k < b1.len() && b1[k] == x;
                assert(b[k + 1] == x && b[0] < x);
                assert(b.to_set().contains(x));
                let q = choose|q: int| 0 <= q < a.len() && a[q] == x;
                assert(q != 0);
                assert(a1[q - 1] == x);
            }
        }
        lemma_list_is_unique(a1, b1);
        assert(a =~= seq![a[0]] + a1);
        assert(b =~= seq![b[0]] + b1);
    }
}

/// Adding an address that is already set leaves the list as it was.
pub proof fn lemma_add_again(s: Set<u32>, addr: u32)
    requires
        s.contains(addr),
    ensures
        s.insert(addr) == s,
        sorted_list(s.insert(addr)) == sorted_list(s),
{
    assert(s.insert(addr) =~= s);
}

/// Adding a new address and removing it again leaves the set, and so the
/// list, as they were.
pub proof fn lemma_add_then_remove(s: Set<u32>, addr: u32)
    requires
        !s.contains(addr),
    ensures
        s.insert(addr).remove(addr) == s,
        sorted_list(s.insert(addr).remove(addr)) == sorted_list(s),
{
    assert(s.insert(addr).remove(addr) =~= s);
}

impl Default for Breakpoints {
    fn default() -> (b: Self)
        ensures
            b.wf(),
            b@ == Set::<u32>::empty(),
    {
        Self::new()
    }
}

} // verus!
