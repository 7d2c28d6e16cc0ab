//! The process table: which servers run, each with exactly one process
//! handle, and the decisions of reconciliation and profile switches.

use vstd::prelude::*;
use crate::text::same_text;

verus! {

/// Spec view of a list of names.
pub open spec fn names(v: Seq<String>) -> Seq<Seq<char>> {
    Seq::new(v.len(), |i: int| v[i]@)
}

/// `ids` after a process for `id` is offered: added unless `id` runs already.
pub open spec fn adopted(ids: Seq<Seq<char>>, id: Seq<char>) -> Seq<Seq<char>> {
    if ids.contains(id) {
        ids
    } else {
        ids.push(id)
    }
}

/// `ids` after processes for `arrivals` are offered one after another.
pub open spec fn adopt_all(ids: Seq<Seq<char>>, arrivals: Seq<Seq<char>>) -> Seq<Seq<char>>
    decreases arrivals.len(),
{
    if arrivals.len() == 0 {
        ids
    } else {
        adopted(adopt_all(ids, arrivals.drop_last()), arrivals.last())
    }
}

/// The ids of `desired` to start when `running` already run: in order, each
/// once, none that runs.
pub open spec fn to_start(running: Seq<Seq<char>>, desired: Seq<Seq<char>>) -> Seq<Seq<char>>
    decreases desired.len(),
{
    if desired.len() == 0 {
        Seq::empty()
    } else {
        let prior = to_start(running, desired.drop_last());
        let id = desired.last();
        if running.contains(id) || prior.contains(id) {
            prior
        } else {
            prior.push(id)
        }
    }
}

/// The ids whose spawn succeeded, in order.
pub open spec fn spawned(outcomes: Seq<(Seq<char>, bool)>) -> Seq<Seq<char>>
    decreases outcomes.len(),
{
    if outcomes.len() == 0 {
        Seq::empty()
    } else if outcomes.last().1 {
        spawned(outcomes.drop_last()).push(outcomes.last().0)
    } else {
        spawned(outcomes.drop_last())
    }
}

/// The ids whose spawn failed.
pub open spec fn failed(outcomes: Seq<(Seq<char>, bool)>) -> Set<Seq<char>> {
    Set::new(|id: Seq<char>| exists|i: int| 0 <= i < outcomes.len() && outcomes[i] == (id, false))
}

/// The view of spawn outcomes: each id with whether its spawn succeeded.
pub open spec fn outcome_view<H>(outcomes: Seq<(String, Option<H>)>) -> Seq<(Seq<char>, bool)> {
    Seq::new(outcomes.len(), |i: int| (outcomes[i].0@, outcomes[i].1 is Some))
}

/// The ids of a list of spawn outcomes.
pub open spec fn outcome_ids(outcomes: Seq<(Seq<char>, bool)>) -> Seq<Seq<char>> {
    Seq::new(outcomes.len(), |i: int| outcomes[i].0)
}

proof fn lemma_push_contains(s: Seq<Seq<char>>, a: Seq<char>, x: Seq<char>)
    ensures
        s.push(a).contains(x) <==> s.contains(x) || x == a,
{
    if s.contains(x) {
        let i = choose|i: int| 0 <= i < s.len() && s[i] == x;
        assert(s.push(a)[i] == x);
    }
    if x == a {
        assert(s.push(a)[s.len() as int] == x);
    }
    if s.push(a).contains(x) {
        let i = choose|i: int| 0 <= i < s.len() + 1 && s.push(a)[i] == x;
        if i < s.len() {
            assert(s[i] == x);
        }
    }
}

proof fn lemma_push_no_duplicates(s: Seq<Seq<char>>, a: Seq<char>)
    requires
        s.no_duplicates(),
        !s.contains(a),
    ensures
        s.push(a).no_duplicates(),
{
    assert forall|i: int, j: int| 0 <= i < j < s.len() + 1 implies s.push(a)[i] != s.push(a)[j] by {
        if j == s.len() {
            assert(s[i] != a);
        }
    }
}

/// Offering processes one after another never gives an id a second one:
/// from a table with one process per id, the ids stay distinct, and the
/// running set is the old one together with the offered ids.
pub proof fn lemma_adopt_all(ids: Seq<Seq<char>>, arrivals: Seq<Seq<char>>)
    requires
        ids.no_duplicates(),
    ensures
        adopt_all(ids, arrivals).no_duplicates(),
        adopt_all(ids, arrivals).to_set() == ids.to_set().union(arrivals.to_set()),
    decreases arrivals.len(),
{
    if arrivals.len() > 0 {
        let prior = adopt_all(ids, arrivals.drop_last());
        let a = arrivals.last();
        lemma_adopt_all(ids, arrivals.drop_last());
        if !prior.contains(a) {
            lemma_push_no_duplicates(prior, a);
        }
        assert forall|x: Seq<char>| adopt_all(ids, arrivals).contains(x) <==> ids.contains(x) || arrivals.contains(x) by {
            lemma_push_contains(prior, a, x);
            assert(arrivals == arrivals.drop_last().push(a));
            lemma_push_contains(arrivals.drop_last(), a, x);
            assert(prior.to_set().contains(x) == prior.contains(x));
            assert(arrivals.drop_last().to_set().contains(x) == arrivals.drop_last().contains(x));
        }
        assert(adopt_all(ids, arrivals).to_set() =~= ids.to_set().union(arrivals.to_set()));
    } else {
        assert(ids.to_set().union(arrivals.to_set()) =~= ids.to_set());
    }
}

/// The ids planned for spawning are those desired that do not run, each once.
pub proof fn lemma_to_start(running: Seq<Seq<char>>, desired: Seq<Seq<char>>)
    ensures
        to_start(running, desired).no_duplicates(),
        to_start(running, desired).to_set() == desired.to_set().difference(running.to_set()),
    decreases desired.len(),
{
    if desired.len() > 0 {
        let prior = to_start(running, desired.drop_last());
        let a = desired.last();
        lemma_to_start(running, desired.drop_last());
        if !(running.contains(a) || prior.contains(a)) {
            lemma_push_no_duplicates(prior, a);
        }
        assert forall|x: Seq<char>| to_start(running, desired).contains(x) <==> desired.contains(x) && !running.contains(x) by {
            lemma_push_contains(prior, a, x);
            assert(desired == desired.drop_last().push(a));
            lemma_push_contains(desired.drop_last(), a, x);
            assert(prior.to_set().contains(x) == prior.contains(x));
        }
        assert(to_start(running, desired).to_set() =~= desired.to_set().difference(running.to_set()));
    } else {
        assert(to_start(running, desired).to_set() =~= desired.to_set().difference(running.to_set()));
    }
}

proof fn lemma_failed_last(outcomes: Seq<(Seq<char>, bool)>, x: Seq<char>)
    requires
        outcomes.len() > 0,
    ensures
        failed(outcomes).contains(x) <==> failed(outcomes.drop_last()).contains(x) || (x
            == outcomes.last().0 && !outcomes.last().1),
        failed(outcomes.drop_last()).contains(x) ==> outcome_ids(outcomes.drop_last()).contains(x),
{
    let rest = outcomes.drop_last();
    if failed(rest).contains(x) {
        let i = choose|i: int| 0 <= i < rest.len() && rest[i] == (x, false);
        assert(outcomes[i] == (x, false));
        assert(outcome_ids(rest)[i] == x);
    }
    if failed(outcomes).contains(x) {
        let i = choose|i: int| 0 <= i < outcomes.len() && outcomes[i] == (x, false);
        if i < rest.len() {
            assert(rest[i] == (x, false));
        }
    }
    if x == outcomes.last().0 && !outcomes.last().1 {
        assert(outcomes[outcomes.len() - 1] == (x, false));
    }
}

proof fn lemma_spawned(outcomes: Seq<(Seq<char>, bool)>)
    requires
        outcome_ids(outcomes).no_duplicates(),
    ensures
        spawned(outcomes).to_set() == outcome_ids(outcomes).to_set().difference(failed(outcomes)),
    decreases outcomes.len(),
{
    let ids = outcome_ids(outcomes);
    if outcomes.len() > 0 {
        let rest = outcomes.drop_last();
        let rest_ids = outcome_ids(rest);
        assert(rest_ids =~= ids.drop_last());
        assert(rest_ids.no_duplicates());
        lemma_spawned(rest);
        let a = outcomes.last().0;
        let ok = outcomes.last().1;
        assert(ids == rest_ids.push(a));
        assert(!rest_ids.contains(a)) by {
            if rest_ids.contains(a) {
                let i = choose|i: int| 0 <= i < rest_ids.len() && rest_ids[i] == a;
                assert(ids[i] == ids[ids.len() - 1]);
            }
        }
        assert forall|x: Seq<char>| spawned(outcomes).contains(x) <==> ids.contains(x) && !failed(outcomes).contains(x) by {
            lemma_push_contains(spawned(rest), a, x);
            lemma_push_contains(rest_ids, a, x);
            lemma_failed_last(outcomes, x);
            assert(spawned(rest).to_set().contains(x) == spawned(rest).contains(x));
            assert(rest_ids.to_set().contains(x) == rest_ids.contains(x));
        }
        assert(spawned(outcomes).to_set() =~= ids.to_set().difference(failed(outcomes)));
    } else {
        assert(spawned(outcomes).to_set() =~= ids.to_set().difference(failed(outcomes)));
    }
}

/// A profile switch: after every process was drained, the processes started
/// for the desired ids (the spawn plan from an empty table) leave exactly the
/// desired servers running, less those whose spawn failed.
pub proof fn lemma_switch_profile(desired: Seq<Seq<char>>, outcomes: Seq<(Seq<char>, bool)>)
    requires
        outcome_ids(outcomes) == to_start(Seq::empty(), desired),
    ensures
        adopt_all(Seq::empty(), spawned(outcomes)).to_set() == desired.to_set().difference(
            failed(outcomes),
        ),
{
    let none = Seq::<Seq<char>>::empty();
    lemma_to_start(none, desired);
    lemma_spawned(outcomes);
    lemma_adopt_all(none, spawned(outcomes));
    assert(none.to_set() =~= Set::empty());
    assert(adopt_all(none, spawned(outcomes)).to_set() =~= desired.to_set().difference(failed(outcomes)));
}

/// Stopping twice: once the first stop has removed `id`, it no longer runs,
/// so the second stop finds nothing, changes nothing and reports no error.
pub proof fn lemma_stop_twice<H>(before: ProcessTable<H>, after: ProcessTable<H>, id: Seq<char>)
    requires
        before.wf(),
        after.ids().to_set() == before.ids().to_set().remove(id),
    ensures
        !after.running(id),
        after.ids().to_set().remove(id) == after.ids().to_set(),
{
    assert(!after.ids().to_set().contains(id));
    assert(after.ids().to_set().remove(id) =~= after.ids().to_set());
}

/// The ids of a list of table entries.
pub open spec fn entry_ids<H>(entries: Seq<(String, H)>) -> Seq<Seq<char>> {
    Seq::new(entries.len(), |i: int| entries[i].0@)
}

/// The entries after the spawn outcomes are recorded one after another,
/// and the processes handed back: a process whose server runs already is
/// handed back, any other is added at the end; a failed spawn changes
/// nothing.
pub open spec fn adopt_outcomes<H>(entries: Seq<(String, H)>, outcomes: Seq<(String, Option<H>)>) -> (
    Seq<(String, H)>,
    Seq<H>,
)
    decreases outcomes.len(),
{
    if outcomes.len() == 0 {
        (entries, Seq::empty())
    } else {
        let prior = adopt_outcomes(entries, outcomes.drop_last());
        let id = outcomes.last().0;
        match outcomes.last().1 {
            None => prior,
            Some(p) => if entry_ids(prior.0).contains(id@) {
                (prior.0, prior.1.push(p))
            } else {
                (prior.0.push((id, p)), prior.1)
            },
        }
    }
}

/// The running servers, keyed by id, each with its process handle `H`.
pub struct ProcessTable<H> {
    pub entries: Vec<(String, H)>,
}

impl<H> ProcessTable<H> {
    /// The ids of the running servers, in the order they started.
    pub open spec fn ids(&self) -> Seq<Seq<char>> {
        Seq::new(self.entries@.len(), |i: int| self.entries@[i].0@)
    }

    /// At most one process per id.
    pub open spec fn wf(&self) -> bool {
        self.ids().no_duplicates()
    }

    /// Whether `id` runs.
    pub open spec fn running(&self, id: Seq<char>) -> bool {
        self.ids().contains(id)
    }

    /// An empty table.
    pub fn new() -> (r: ProcessTable<H>)
        ensures
            r.wf(),
            r.ids() == Seq::<Seq<char>>::empty(),
    {
        let r = ProcessTable { entries: Vec::new() };
        assert(r.ids() =~= Seq::<Seq<char>>::empty());
        r
    }

    fn find(&self, id: &str) -> (r: Option<usize>)
        ensures
            r is None <==> !self.running(id@),
            r matches Some(i) ==> i < self.entries@.len() && self.ids()[i as int] == id@,
    {
        let mut i: usize = 0;
        while i < self.entries.len()
            invariant
                i <= self.entries@.len(),
                forall|k: int| 0 <= k < i ==> self.ids()[k] != id@,
            decreases self.entries@.len() - i,
        {
            if same_text(self.entries[i].0.as_str(), id) {
                assert(self.ids()[i as int] == id@);
                return Some(i);
            }
            i = i + 1;
        }
        None
    }

    /// Whether `id` runs.
    pub fn is_running(&self, id: &str) -> (r: bool)
        ensures
            r == self.running(id@),
    {
        self.find(id).is_some()
    }

    /// How many servers run.
    pub fn len(&self) -> (r: usize)
        ensures
            r == self.ids().len(),
    {
        self.entries.len()
    }

    /// The ids of the running servers.
    pub fn running_ids(&self) -> (r: Vec<String>)
        ensures
            names(r@) == self.ids(),
    {
        let mut out: Vec<String> = Vec::new();
        let mut i: usize = 0;
        while i < self.entries.len()
            invariant
                i <= self.entries@.len(),
                out@.len() == i,
                forall|k: int| 0 <= k < i ==> #[trigger] out@[k]@ == self.entries@[k].0@,
            decreases self.entries@.len() - i,
        {
            let id = self.entries[i].0.clone();
            out.push(id);
            i = i + 1;
        }
        assert(names(out@) =~= self.ids());
        out
    }

    /// Records the process `handle` of `id`. When `id` runs already, the
    /// table is left as it is and the handle is given back, to be
    /// terminated: a server never has two processes.
    pub fn adopt(&mut self, id: String, handle: H) -> (r: Option<H>)
        requires
            old(self).wf(),
        ensures
            final(self).wf(),
            final(self).ids() == adopted(old(self).ids(), id@),
            old(self).running(id@) ==> r == Some(handle) && final(self).entries@ == old(self).entries@,
            !old(self).running(id@) ==> r is None && final(self).entries@ == old(self).entries@.push(
                (id, handle),
            ),
    {
        if self.is_running(id.as_str()) {
            return Some(handle);
        }
        let ghost before = self.ids();
        self.entries.push((id, handle));
        assert(self.ids() =~= before.push(id@));
        None
    }

    /// Removes `id` from the table and hands back its process, to be
    /// terminated. Stopping a server that does not run does nothing and is
    /// no error.
    pub fn stop(&mut self, id: &str) -> (r: Option<H>)
        requires
            old(self).wf(),
        ensures
            final(self).wf(),
            r is Some <==> old(self).running(id@),
            !final(self).running(id@),
            final(self).ids().to_set() == old(self).ids().to_set().remove(id@),
            !old(self).running(id@) ==> final(self).entries@ == old(self).entries@,
            old(self).running(id@) ==> exists|i: int|
                0 <= i < old(self).entries@.len() && old(self).ids()[i] == id@ && r == Some(
                    #[trigger] old(self).entries@[i].1,
                ) && final(self).entries@ == old(self).entries@.remove(i),
    {
        match self.find(id) {
            None => {
                assert(self.ids().to_set() =~= self.ids().to_set().remove(id@));
                None
            },
            Some(i) => {
                let ghost before = self.ids();
                let ghost old_entries = self.entries@;
                let (_, handle) = self.entries.remove(i);
                assert(self.ids() =~= before.remove(i as int));
                assert(handle == old_entries[i as int].1);
                proof {
                    assert forall|k: int| 0 <= k < self.ids().len() implies self.ids()[k] != id@ by {
                        if k < i {
                            assert(before[k] != before[i as int]);
                        } else {
                            assert(before[k + 1] != before[i as int]);
                        }
                    }
                    assert(self.ids().to_set() =~= before.to_set().remove(id@)) by {
                        assert forall|x: Seq<char>| before.to_set().remove(id@).contains(x) implies self.ids().contains(x) by {
                            let k = choose|k: int| 0 <= k < before.len() && before[k] == x;
                            if k < i {
                                assert(self.ids()[k] == x);
                            } else {
                                assert(self.ids()[k - 1] == x);
                            }
                        }
                    }
                }
                Some(handle)
            },
        }
    }

    /// The first half of a restart: the server's process is taken out of the
    /// table, to be terminated, and the answer says whether a new one is to
    /// be spawned, which is so only when the server is still enabled.
    pub fn restart(&mut self, id: &str, enabled: bool) -> (r: (Option<H>, bool))
        requires
            old(self).wf(),
        ensures
            final(self).wf(),
            r.0 is Some <==> old(self).running(id@),
            !final(self).running(id@),
            final(self).ids().to_set() == old(self).ids().to_set().remove(id@),
            !old(self).running(id@) ==> final(self).entries@ == old(self).entries@,
            old(self).running(id@) ==> exists|i: int|
                0 <= i < old(self).entries@.len() && old(self).ids()[i] == id@ && r.0 == Some(
                    #[trigger] old(self).entries@[i].1,
                ) && final(self).entries@ == old(self).entries@.remove(i),
            r.1 == enabled,
    {
        let old_process = self.stop(id);
        (old_process, enabled)
    }

    /// Empties the table and hands back every process, to be terminated.
    pub fn drain(&mut self) -> (r: Vec<(String, H)>)
        ensures
            final(self).wf(),
            final(self).ids() == Seq::<Seq<char>>::empty(),
            r@ == old(self).entries@,
    {
        let mut r: Vec<(String, H)> = Vec::new();
        core::mem::swap(&mut r, &mut self.entries);
        assert(self.ids() =~= Seq::<Seq<char>>::empty());
        r
    }

    /// Records the outcome of each spawn of a reconciliation pass and hands
    /// back the processes that found their server running already, to be
    /// terminated. A failed spawn leaves its server out.
    pub fn finish_reconcile(&mut self, outcomes: Vec<(String, Option<H>)>) -> (r: Vec<H>)
        requires
            old(self).wf(),
        ensures
            final(self).wf(),
            final(self).ids() == adopt_all(old(self).ids(), spawned(outcome_view(outcomes@))),
            (final(self).entries@, r@) == adopt_outcomes(old(self).entries@, outcomes@),
            old(self).entries@.len() <= final(self).entries@.len(),
            final(self).entries@.subrange(0, old(self).entries@.len() as int) == old(self).entries@,
    {
        let ghost start = self.ids();
        let ghost start_entries = self.entries@;
        let ghost all = outcomes@;
        let mut extra: Vec<H> = Vec::new();
        let mut rest = outcomes;
        let n = rest.len();
        let mut k: usize = 0;
        assert(outcome_view(all).subrange(0, 0) =~= Seq::<(Seq<char>, bool)>::empty());
        assert(all.subrange(0, all.len() as int) =~= all);
        while rest.len() > 0
            invariant
                self.wf(),
                k + rest@.len() == all.len(),
                all.len() == n,
                rest@ == all.subrange(k as int, all.len() as int),
                self.ids() == adopt_all(start, spawned(outcome_view(all).subrange(0, k as int))),
                (self.entries@, extra@) == adopt_outcomes(start_entries, all.subrange(0, k as int)),
                start_entries.len() <= self.entries@.len(),
                self.entries@.subrange(0, start_entries.len() as int) == start_entries,
            decreases rest@.len(),
        {
            let ghost pre = outcome_view(all).subrange(0, k as int);
            let ghost next = outcome_view(all).subrange(0, k + 1);
            assert(next.drop_last() =~= pre);
            assert(next.last() == (all[k as int].0@, all[k as int].1 is Some));
            let ghost before = self.ids();
            assert(before == adopt_all(start, spawned(pre)));
            let ghost raw_next = all.subrange(0, k + 1);
            assert(raw_next.drop_last() =~= all.subrange(0, k as int));
            assert(raw_next.last() == all[k as int]);
            let ghost entries_before = self.entries@;
            let ghost extra_before = extra@;
            assert(entry_ids(entries_before) =~= self.ids());
            let (id, handle) = rest.remove(0);
            assert((id, handle) == all[k as int]);
            assert(id@ == all[k as int].0@);
            assert(rest@ =~= all.subrange(k + 1, all.len() as int));
            match handle {
                Some(h) => {
                    assert(spawned(next) == spawned(pre).push(id@));
                    assert(spawned(next).drop_last() == spawned(pre));
                    match self.adopt(id, h) {
                        Some(dup) => extra.push(dup),
                        None => {
                            assert(self.entries@.subrange(0, start_entries.len() as int) =~= entries_before.subrange(
                                0,
                                start_entries.len() as int,
                            ));
                        },
                    }
                },
                None => {
                    assert(spawned(next) == spawned(pre));
                },
            }
            k = k + 1;
        }
        assert(outcome_view(all).subrange(0, k as int) =~= outcome_view(all));
        assert(all.subrange(0, k as int) =~= all);
        extra
    }

    /// The servers of `desired` to spawn: those that do not run, in order,
    /// each once.
    pub fn plan_reconcile(&self, desired: &Vec<String>) -> (r: Vec<String>)
        ensures
            names(r@) == to_start(self.ids(), names(desired@)),
    {
        let mut out: Vec<String> = Vec::new();
        let mut i: usize = 0;
        while i < desired.len()
            invariant
                i <= desired@.len(),
                names(out@) == to_start(self.ids(), names(desired@).subrange(0, i as int)),
            decreases desired@.len() - i,
        {
            let ghost prefix = names(desired@).subrange(0, i + 1);
            assert(prefix.drop_last() =~= names(desired@).subrange(0, i as int));
            assert(prefix.last() == desired@[i as int]@);
            let id = &desired[i];
            let mut seen = false;
            let mut j: usize = 0;
            while j < out.len()
                invariant
                    j <= out@.len(),
                    !seen ==> forall|k: int| 0 <= k < j ==> out@[k]@ != id@,
                    seen ==> names(out@).contains(id@),
                decreases out@.len() - j,
            {
                if same_text(out[j].as_str(), id.as_str()) {
                    seen = true;
                    assert(names(out@)[j as int] == id@);
                }
                j = j + 1;
            }
            if !seen && !self.is_running(id.as_str()) {
                assert(!names(out@).contains(id@)) by {
                    if names(out@).contains(id@) {
                        let k = choose|k: int| 0 <= k < names(out@).len() && names(out@)[k] == id@;
                        assert(out@[k]@ == id@);
                    }
                }
                out.push(id.clone());
                assert(names(out@) =~= to_start(self.ids(), prefix));
            }
            i = i + 1;
        }
        assert(names(desired@).subrange(0, desired@.len() as int) =~= names(desired@));
        out
    }
}

} // verus!
