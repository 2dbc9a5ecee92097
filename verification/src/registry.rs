//! The process registry: the set of ids of processes this application has
//! spawned and not yet observed to exit, together with the shutdown plan that
//! terminates every tracked process.
//!
//! The registry itself is a plain value; callers that share it across worker
//! threads wrap it in their own mutual exclusion.
use vstd::prelude::*;
use crate::text::{dec_chars, str_chars, u64_dec};

verus! {

broadcast use vstd::prelude::Seq::lemma_push_to_set_commute;

/// The set of currently live spawned process identifiers.
pub struct Registry {
    ids: Vec<u32>,
}

impl View for Registry {
    type V = Set<u32>;

    closed spec fn view(&self) -> Set<u32> {
        self.ids@.to_set()
    }
}

impl Registry {
    /// Well-formedness: no id is tracked twice. Established by `new`,
    /// preserved by every method.
    pub closed spec fn wf(self) -> bool {
        self.ids@.no_duplicates()
    }

    pub fn new() -> (r: Registry)
        ensures
            r@ == Set::<u32>::empty(),
            r.wf(),
    {
        let r = Registry { ids: Vec::new() };
        proof {
            assert(r@ =~= Set::<u32>::empty());
        }
        r
    }

    /// Whether `id` is currently registered.
    pub fn contains_id(&self, id: u32) -> (r: bool)
        ensures
            r == self@.contains(id),
    {
        let n = self.ids.len();
        let mut i: usize = 0;
        while i < n
            invariant
                i <= n,
                n == self.ids@.len(),
                forall|j: int| 0 <= j < i ==> self.ids@[j] != id,
            decreases n - i,
        {
            if self.ids[i] == id {
                proof {
                    assert(self.ids@.contains(id));
                }
                return true;
            }
            i = i + 1;
        }
        proof {
            assert(!self.ids@.contains(id));
        }
        false
    }

    /// Adds `id` to the registry; registering an id twice is the same as
    /// registering it once.
    pub fn register(&mut self, id: u32)
        requires
            old(self).wf(),
        ensures
            final(self)@ == old(self)@.insert(id),
            final(self).wf(),
    {
        if self.contains_id(id) {
            proof {
                assert(old(self)@.insert(id) =~= old(self)@);
            }
        } else {
            self.ids.push(id);
        }
    }

    /// Removes `id` from the registry; removing an id never registered is a
    /// no-op.
    pub fn unregister(&mut self, id: u32)
        requires
            old(self).wf(),
        ensures
            final(self)@ == old(self)@.remove(id),
            final(self).wf(),
    {
        let n = self.ids.len();
        let mut i: usize = 0;
        while i < n
            invariant
                i <= n,
                n == self.ids@.len(),
                self == old(self),
                self.ids@.no_duplicates(),
                forall|j: int| 0 <= j < i ==> self.ids@[j] != id,
            decreases n - i,
        {
            if self.ids[i] == id {
                let ghost prev = self.ids@;
                self.ids.remove(i);
                proof {
                    let cur = self.ids@;
                    prev.remove_ensures(i as int);
                    assert forall|x: u32| cur.contains(x) implies prev.contains(x) && x != id by {
                        let j = choose|j: int| 0 <= j < cur.len() && cur[j] == x;
                        let jj: int = if j < i { j } else { j + 1 };
                        assert(prev[jj] == x);
                        assert(prev.contains(x));
                        if x == id {
                            assert(prev[jj] == prev[i as int]);
                            assert(false);
                        }
                    }
                    assert forall|x: u32| prev.contains(x) && x != id implies cur.contains(x) by {
                        let j = choose|j: int| 0 <= j < prev.len() && prev[j] == x;
                        if j < i {
                            assert(cur[j] == x);
                        } else {
                            assert(j != i);
                            assert(cur[j - 1] == x);
                        }
                    }
                    assert(final(self)@ =~= old(self)@.remove(id));
                    assert forall|p: int, q: int|
                        0 <= p < q < cur.len() implies cur[p] != cur[q] by {
                        if q < i {
                            assert(cur[p] == prev[p] && cur[q] == prev[q]);
                        } else if p < i {
                            assert(cur[p] == prev[p] && cur[q] == prev[q + 1]);
                        } else {
                            assert(cur[p] == prev[p + 1] && cur[q] == prev[q + 1]);
                        }
                    }
                }
                return ;
            }
            i = i + 1;
        }
        proof {
            assert(!self.ids@.contains(id));
            assert(final(self)@ =~= old(self)@.remove(id));
        }
    }

    /// The number of registered ids.
    pub fn count(&self) -> (n: usize)
        requires
            self.wf(),
        ensures
            n == self@.len(),
    {
        proof {
            self.ids@.unique_seq_to_set();
        }
        self.ids.len()
    }

    /// A copy of the current ids, for iteration without holding a lock on the
    /// registry while termination signals are delivered.
    pub fn snapshot(&self) -> (r: Vec<u32>)
        requires
            self.wf(),
        ensures
            r@.to_set() == self@,
            r@.no_duplicates(),
    {
        let n = self.ids.len();
        let mut r: Vec<u32> = Vec::new();
        let mut i: usize = 0;
        while i < n
            invariant
                i <= n,
                n == self.ids@.len(),
                r@ =~= self.ids@.take(i as int),
            decreases n - i,
        {
            r.push(self.ids[i]);
            i = i + 1;
        }
        proof {
            assert(r@ =~= self.ids@);
        }
        r
    }
}

/// Law: registering an id and then unregistering it leaves a registry without
/// that id; on a registry that never held the id, the pair of calls is a
/// round trip back to the starting state, and unregistering alone is a no-op.
pub proof fn lemma_register_then_unregister(ids: Set<u32>, id: u32)
    ensures
        ids.insert(id).remove(id) == ids.remove(id),
        !ids.contains(id) ==> ids.insert(id).remove(id) == ids,
        !ids.contains(id) ==> ids.remove(id) == ids,
{
    assert(ids.insert(id).remove(id) =~= ids.remove(id));
    if !ids.contains(id) {
        assert(ids.remove(id) =~= ids);
    }
}

/// The command that delivers a termination signal to one process.
pub open spec fn kill_argv(id: u32) -> Seq<Seq<char>> {
    seq!["kill"@, "-TERM"@, dec_chars(id as nat)]
}

/// The broad backstop sweep that terminates any process of the hardening
/// toolkit not individually tracked.
pub open spec fn sweep_argv() -> Seq<Seq<char>> {
    seq!["pkill"@, "-f"@, "hardn"@]
}

/// The shutdown plan: one termination command per tracked id, in snapshot
/// order, followed by the single backstop sweep.
pub open spec fn termination_plan(ids: Seq<u32>) -> Seq<Seq<Seq<char>>> {
    ids.map_values(|id: u32| kill_argv(id)) + seq![sweep_argv()]
}

/// Builds the shutdown commands for a registry snapshot. Delivery is the
/// caller's: signal failures are swallowed, termination is best-effort.
pub fn termination_commands(snapshot: &Vec<u32>) -> (cmds: Vec<Vec<Vec<char>>>)
    ensures
        cmds.deep_view() == termination_plan(snapshot@),
{
    let n = snapshot.len();
    let mut cmds: Vec<Vec<Vec<char>>> = Vec::new();
    let mut i: usize = 0;
    while i < n
        invariant
            i <= n,
            n == snapshot@.len(),
            cmds.deep_view() =~= snapshot@.take(i as int).map_values(|id: u32| kill_argv(id)),
        decreases n - i,
    {
        let id = snapshot[i];
        let mut c: Vec<Vec<char>> = Vec::new();
        c.push(str_chars("kill"));
        c.push(str_chars("-TERM"));
        c.push(u64_dec(id as u64));
        proof {
            assert(c.deep_view() =~~= kill_argv(id));
        }
        let ghost prev = cmds.deep_view();
        cmds.push(c);
        proof {
            assert(cmds.deep_view() =~= prev.push(kill_argv(id)));
            assert(cmds.deep_view() =~= snapshot@.take(i + 1).map_values(
                |id: u32| kill_argv(id),
            ));
        }
        i = i + 1;
    }
    let mut sweep: Vec<Vec<char>> = Vec::new();
    sweep.push(str_chars("pkill"));
    sweep.push(str_chars("-f"));
    sweep.push(str_chars("hardn"));
    proof {
        assert(sweep.deep_view() =~~= sweep_argv());
        assert(snapshot@.take(n as int) =~= snapshot@);
    }
    let ghost prev = cmds.deep_view();
    cmds.push(sweep);
    proof {
        assert(cmds.deep_view() =~= prev.push(sweep_argv()));
        assert(cmds.deep_view() =~= termination_plan(snapshot@));
    }
    cmds
}

} // verus!
