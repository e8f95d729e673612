//! The canister's state: its signer and the chains it serves, and the
//! routing of tasks to the chains they are destined for.
use vstd::prelude::*;
use crate::chain::ChainState;
use crate::signer::Signer;
use crate::task::Task;

verus! {

/// The tasks of `ts`, in order, destined for the chain with endpoint id `c`.
pub open spec fn tasks_for(ts: Seq<Task>, c: u64) -> Seq<Task>
    decreases ts.len(),
{
    if ts.len() == 0 {
        Seq::empty()
    } else if ts.last().dest_chain == c {
        tasks_for(ts.drop_last(), c).push(ts.last())
    } else {
        tasks_for(ts.drop_last(), c)
    }
}

/// `groups` splits `ts` by destination: one group per destination that
/// occurs, each holding that destination's tasks in their order.
pub open spec fn is_grouping(ts: Seq<Task>, groups: Seq<(u64, Seq<Task>)>) -> bool {
    &&& forall|i: int, j: int| 0 <= i < j < groups.len() ==> groups[i].0 != groups[j].0
    &&& forall|i: int| 0 <= i < groups.len() ==> #[trigger] groups[i].1 == tasks_for(ts, groups[i].0)
    &&& forall|i: int| 0 <= i < groups.len() ==> (#[trigger] groups[i]).1.len() > 0
    &&& forall|k: int| 0 <= k < ts.len() ==> exists|i: int| 0 <= i < groups.len() && groups[i].0 == (#[trigger] ts[k]).dest_chain
}

/// The view of groups of tasks.
pub open spec fn groups_view(g: Seq<(u64, Vec<Task>)>) -> Seq<(u64, Seq<Task>)> {
    g.map_values(|p: (u64, Vec<Task>)| (p.0, p.1@))
}

proof fn lemma_tasks_for_other(ts: Seq<Task>, t: Task, c: u64)
    requires
        t.dest_chain != c,
    ensures
        tasks_for(ts.push(t), c) == tasks_for(ts, c),
{
    assert(ts.push(t).drop_last() =~= ts);
}

proof fn lemma_tasks_for_same(ts: Seq<Task>, t: Task)
    ensures
        tasks_for(ts.push(t), t.dest_chain) == tasks_for(ts, t.dest_chain).push(t),
{
    assert(ts.push(t).drop_last() =~= ts);
}

proof fn lemma_tasks_for_absent(ts: Seq<Task>, c: u64)
    requires
        forall|k: int| 0 <= k < ts.len() ==> (#[trigger] ts[k]).dest_chain != c,
    ensures
        tasks_for(ts, c) == Seq::<Task>::empty(),
    decreases ts.len(),
{
    if ts.len() > 0 {
        lemma_tasks_for_absent(ts.drop_last(), c);
    }
}

/// Splits tasks by destination chain, the destinations in the order they
/// first occur.
pub fn group_tasks_by_chain(tasks: Vec<Task>) -> (r: Vec<(u64, Vec<Task>)>)
    ensures
        is_grouping(tasks@, groups_view(r@)),
{
    let ghost ts = tasks@;
    let mut tasks = tasks;
    let mut groups: Vec<(u64, Vec<Task>)> = Vec::new();
    let n = tasks.len();
    let mut i: usize = 0;
    while i < n
        invariant
            n == ts.len(),
            i <= n,
            tasks@ == ts.skip(i as int),
            is_grouping(ts.take(i as int), groups_view(groups@)),
        decreases n - i,
    {
        let task = tasks.remove(0);
        assert(task == ts[i as int]);
        assert(ts.skip(i as int).drop_first() =~= ts.skip(i + 1));
        let ghost prefix = ts.take(i as int);
        assert(ts.take(i + 1) =~= prefix.push(task));
        let ghost old_groups = groups_view(groups@);
        let chain_id = task.dest_chain;
        let mut j: usize = 0;
        while j < groups.len() && groups[j].0 != chain_id
            invariant
                j <= groups.len(),
                forall|a: int| 0 <= a < j ==> groups@[a].0 != chain_id,
            decreases groups.len() - j,
        {
            j = j + 1;
        }
        proof {
            lemma_tasks_for_same(prefix, task);
            assert forall|a: int| 0 <= a < old_groups.len() && old_groups[a].0 != chain_id implies tasks_for(
                prefix.push(task),
                old_groups[a].0,
            ) == old_groups[a].1 by {
                lemma_tasks_for_other(prefix, task, old_groups[a].0);
            }
        }
        if j < groups.len() {
            let mut entry: (u64, Vec<Task>) = (chain_id, Vec::new());
            std::mem::swap(&mut entry, &mut groups[j]);
            entry.1.push(task);
            groups.set(j, entry);
            proof {
                let ng = groups_view(groups@);
                assert forall|a: int| 0 <= a < ng.len() implies #[trigger] ng[a].1 == tasks_for(
                    ts.take(i + 1),
                    ng[a].0,
                ) by {
                    assert(ts.take(i + 1) == prefix.push(task));
                    if a != j {
                        assert(ng[a] == old_groups[a]);
                        assert(old_groups[a].0 != old_groups[j as int].0);
                        assert(old_groups[a].1 == tasks_for(prefix, old_groups[a].0));
                    } else {
                        assert(old_groups[a].0 == chain_id);
                        assert(ng[a].0 == chain_id);
                        assert(ng[a].1 =~= old_groups[a].1.push(task));
                        assert(old_groups[a].1 == tasks_for(prefix, chain_id));
                    }
                }
                assert forall|k: int| 0 <= k < ts.take(i + 1).len() implies exists|a: int|
                    0 <= a < ng.len() && ng[a].0 == (#[trigger] ts.take(i + 1)[k]).dest_chain by {
                    if k < i {
                        assert(prefix[k] == ts.take(i + 1)[k]);
                        let a = choose|a: int| 0 <= a < old_groups.len() && old_groups[a].0 == prefix[k].dest_chain;
                        assert(ng[a].0 == old_groups[a].0);
                    } else {
                        assert(ng[j as int].0 == chain_id);
                    }
                }
                assert forall|a: int, b: int| 0 <= a < b < ng.len() implies ng[a].0 != ng[b].0 by {
                    assert(ng[a].0 == old_groups[a].0);
                    assert(ng[b].0 == old_groups[b].0);
                }
                assert forall|a: int| 0 <= a < ng.len() implies (#[trigger] ng[a]).1.len() > 0 by {
                    if a != j {
                        assert(ng[a] == old_groups[a]);
                    }
                }
            }
        } else {
            let mut fresh: Vec<Task> = Vec::new();
            fresh.push(task);
            groups.push((chain_id, fresh));
            proof {
                let ng = groups_view(groups@);
                assert forall|k: int| 0 <= k < prefix.len() implies (#[trigger] prefix[k]).dest_chain != chain_id by {
                    let a = choose|a: int| 0 <= a < old_groups.len() && old_groups[a].0 == prefix[k].dest_chain;
                }
                lemma_tasks_for_absent(prefix, chain_id);
                assert(tasks_for(prefix.push(task), chain_id) =~= seq![task]);
                assert forall|a: int| 0 <= a < ng.len() implies #[trigger] ng[a].1 == tasks_for(
                    ts.take(i + 1),
                    ng[a].0,
                ) by {
                    if a < old_groups.len() {
                        assert(ng[a] == old_groups[a]);
                    } else {
                        assert(ng[a].1 =~= seq![task]);
                    }
                }
                assert forall|k: int| 0 <= k < ts.take(i + 1).len() implies exists|a: int|
                    0 <= a < ng.len() && ng[a].0 == (#[trigger] ts.take(i + 1)[k]).dest_chain by {
                    if k < i {
                        assert(prefix[k] == ts.take(i + 1)[k]);
                        let a = choose|a: int| 0 <= a < old_groups.len() && old_groups[a].0 == prefix[k].dest_chain;
                        assert(ng[a].0 == old_groups[a].0);
                    } else {
                        assert(ng[old_groups.len() as int].0 == chain_id);
                    }
                }
                assert forall|a: int, b: int| 0 <= a < b < ng.len() implies ng[a].0 != ng[b].0 by {
                    assert(ng[a].0 == old_groups[a].0);
                    if b == old_groups.len() {
                        assert(ng[b].0 == chain_id);
                    } else {
                        assert(ng[b].0 == old_groups[b].0);
                    }
                }
                assert forall|a: int| 0 <= a < ng.len() implies (#[trigger] ng[a]).1.len() > 0 by {
                    if a < old_groups.len() {
                        assert(ng[a] == old_groups[a]);
                    }
                }
            }
        }
        i = i + 1;
    }
    assert(ts.take(n as int) =~= ts);
    groups
}

/// The canister's signer and its chains.
pub struct GlobalState {
    signer: Signer,
    chains: Vec<ChainState>,
}

impl GlobalState {
    pub closed spec fn signer_spec(&self) -> Signer {
        self.signer
    }

    /// The chains, in the order they were added.
    pub closed spec fn chains(&self) -> Seq<ChainState> {
        self.chains@
    }

    /// A state with a signer for the named key and no chains.
    pub fn init(key_name: String) -> (r: GlobalState)
        ensures
            r.signer_spec().key_name@ == key_name@,
            r.signer_spec().public_key is None,
            r.signer_spec().derivation_path@.len() == 0,
            r.chains().len() == 0,
    {
        GlobalState { signer: Signer::new(key_name), chains: Vec::new() }
    }

    /// The signer.
    pub fn signer(&self) -> (r: &Signer)
        ensures
            *r == self.signer_spec(),
    {
        &self.signer
    }

    /// Records the signer's public key.
    pub fn set_public_key(&mut self, public_key: Vec<u8>)
        ensures
            final(self).signer_spec().public_key == Some(public_key),
            final(self).signer_spec().key_name == old(self).signer_spec().key_name,
            final(self).chains() == old(self).chains(),
    {
        self.signer.init(public_key);
    }

    /// The chain at an index.
    pub fn chain(&self, index: usize) -> (r: &ChainState)
        requires
            index < self.chains().len(),
        ensures
            *r == self.chains()[index as int],
    {
        &self.chains[index]
    }

    /// Replaces the chain at an index (after a step changed it).
    pub fn set_chain(&mut self, index: usize, chain: ChainState)
        requires
            index < old(self).chains().len(),
        ensures
            final(self).chains() == old(self).chains().update(index as int, chain),
            final(self).signer_spec() == old(self).signer_spec(),
    {
        self.chains.set(index, chain);
    }

    /// The chain at an index, taken out for a step; `set_chain` puts it
    /// back.
    pub fn take_chain(&mut self, index: usize, placeholder: ChainState) -> (r: ChainState)
        requires
            index < old(self).chains().len(),
        ensures
            r == old(self).chains()[index as int],
            final(self).chains() == old(self).chains().update(index as int, placeholder),
            final(self).signer_spec() == old(self).signer_spec(),
    {
        let mut chain = placeholder;
        std::mem::swap(&mut chain, &mut self.chains[index]);
        chain
    }

    /// The index of the first chain with an endpoint id, or `None` where no
    /// chain has it.
    pub fn try_chain_by_id(&self, id: u64) -> (r: Option<usize>)
        ensures
            match r {
                Some(i) => i < self.chains().len() && self.chains()[i as int].endpoint_id() == id
                    && forall|j: int| 0 <= j < i ==> (#[trigger] self.chains()[j]).endpoint_id() != id,
                None => forall|j: int| 0 <= j < self.chains().len() ==> (#[trigger] self.chains()[j]).endpoint_id() != id,
            },
    {
        let n = self.chains.len();
        let mut i: usize = 0;
        while i < n
            invariant
                n == self.chains@.len(),
                i <= n,
                forall|j: int| 0 <= j < i ==> (#[trigger] self.chains@[j]).endpoint_id() != id,
            decreases n - i,
        {
            if self.chains[i].endpoint() == id {
                return Some(i);
            }
            i = i + 1;
        }
        None
    }

    /// The index of the first chain with an endpoint id; some chain must
    /// have it.
    pub fn chain_by_id(&self, id: u64) -> (r: usize)
        requires
            exists|j: int| 0 <= j < self.chains().len() && (#[trigger] self.chains()[j]).endpoint_id() == id,
        ensures
            r < self.chains().len(),
            self.chains()[r as int].endpoint_id() == id,
            forall|j: int| 0 <= j < r ==> (#[trigger] self.chains()[j]).endpoint_id() != id,
    {
        match self.try_chain_by_id(id) {
            Some(i) => i,
            None => vstd::pervasive::unreached(),
        }
    }

    /// The number of chains.
    pub fn num_chains(&self) -> (r: usize)
        ensures
            r == self.chains().len(),
    {
        self.chains.len()
    }

    /// Adds a chain and returns its index.
    pub fn add_chain(&mut self, chain: ChainState) -> (r: usize)
        ensures
            final(self).chains() == old(self).chains().push(chain),
            r == old(self).chains().len(),
            final(self).signer_spec() == old(self).signer_spec(),
    {
        self.chains.push(chain);
        self.chains.len() - 1
    }
}

} // verus!
