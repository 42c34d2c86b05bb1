//! The registry of running conversion jobs: each job's id, with the handle
//! by which it is cancelled. A job is registered when it starts and leaves
//! the registry when it ends or is cancelled.
use crate::text::str_eq;
use vstd::prelude::*;

verus! {

/// A running job: the handle that cancels it.
pub struct ActiveJob<T> {
    pub cancel_token: T,
}

/// Running jobs by id; no id occurs twice.
pub struct JobRegistry<T> {
    jobs: Vec<(String, ActiveJob<T>)>,
}

/// Some index at which the id `k` stands in `s`.
pub open spec fn index_of<T>(s: Seq<(Seq<char>, T)>, k: Seq<char>) -> int {
    choose|i: int| 0 <= i < s.len() && s[i].0 == k
}

pub open spec fn ids_distinct<T>(s: Seq<(Seq<char>, T)>) -> bool {
    forall|i: int, j: int| 0 <= i < s.len() && 0 <= j < s.len() && i != j ==> s[i].0 != s[j].0
}

/// The map from ids to handles that a list of entries stands for.
pub open spec fn entries_map<T>(s: Seq<(Seq<char>, T)>) -> Map<Seq<char>, T> {
    Map::new(
        |k: Seq<char>| exists|i: int| 0 <= i < s.len() && s[i].0 == k,
        |k: Seq<char>| s[index_of(s, k)].1,
    )
}

pub open spec fn entry_view<T>(e: (String, ActiveJob<T>)) -> (Seq<char>, T) {
    (e.0@, e.1.cancel_token)
}

impl<T> JobRegistry<T> {
    pub closed spec fn entries(&self) -> Seq<(Seq<char>, T)> {
        self.jobs@.map_values(|e: (String, ActiveJob<T>)| entry_view(e))
    }

    #[verifier::type_invariant]
    closed spec fn ids_unique(&self) -> bool {
        ids_distinct(self.entries())
    }

    /// The running jobs: each id with its handle.
    pub closed spec fn jobs(&self) -> Map<Seq<char>, T> {
        entries_map(self.entries())
    }

    pub fn new() -> (r: JobRegistry<T>)
        ensures
            r.jobs() == Map::<Seq<char>, T>::empty(),
    {
        let r = JobRegistry { jobs: Vec::new() };
        assert(r.jobs() =~= Map::<Seq<char>, T>::empty());
        r
    }

    fn position(&self, job_id: &str) -> (r: Option<usize>)
        ensures
            match r {
                Some(i) => i < self.entries().len() && self.entries()[i as int].0 == job_id@,
                None => !self.jobs().contains_key(job_id@),
            },
    {
        let mut i: usize = 0;
        while i < self.jobs.len()
            invariant
                i <= self.jobs@.len(),
                forall|j: int| 0 <= j < i ==> self.entries()[j].0 != job_id@,
            decreases self.jobs@.len() - i,
        {
            if str_eq(self.jobs[i].0.as_str(), job_id) {
                return Some(i);
            }
            i = i + 1;
        }
        None
    }

    /// Whether a job with this id is running.
    pub fn contains(&self, job_id: &str) -> (b: bool)
        ensures
            b == self.jobs().contains_key(job_id@),
    {
        self.position(job_id).is_some()
    }

    /// Registers a job; a job already registered under the same id is
    /// replaced.
    pub fn insert(&mut self, job_id: String, job: ActiveJob<T>)
        ensures
            final(self).jobs() == old(self).jobs().insert(job_id@, job.cancel_token),
    {
        proof {
            use_type_invariant(&*self);
        }
        let ghost s0 = self.entries();
        let ghost k = job_id@;
        let ghost v = job.cancel_token;
        match self.position(job_id.as_str()) {
            Some(i) => {
                let mut jobs = Vec::new();
                std::mem::swap(&mut jobs, &mut self.jobs);
                jobs.set(i, (job_id, job));
                let ghost s1 = jobs@.map_values(|e: (String, ActiveJob<T>)| entry_view(e));
                assert(s1 =~= s0.update(i as int, (k, v)));
                assert(ids_distinct(s1));
                assert(entries_map(s1) =~= entries_map(s0).insert(k, v)) by {
                    assert forall|x: Seq<char>| #[trigger]
                        entries_map(s1).contains_key(x) implies entries_map(s1)[x] == entries_map(
                        s0,
                    ).insert(k, v)[x] by {
                        let a = index_of(s1, x);
                        if x != k {
                            let b = index_of(s0, x);
                            assert(s1[a].0 == x);
                            assert(a != i);
                            assert(s0[a].0 == x);
                        }
                    }
                    assert forall|x: Seq<char>| #[trigger]
                        entries_map(s0).insert(k, v).contains_key(x) implies entries_map(
                        s1,
                    ).contains_key(x) by {
                        if x != k {
                            let b = index_of(s0, x);
                            assert(s1[b].0 == x);
                        } else {
                            assert(s1[i as int].0 == x);
                        }
                    }
                }
                self.jobs = jobs;
            },
            None => {
                let mut jobs = Vec::new();
                std::mem::swap(&mut jobs, &mut self.jobs);
                jobs.push((job_id, job));
                let ghost s1 = jobs@.map_values(|e: (String, ActiveJob<T>)| entry_view(e));
                assert(s1 =~= s0.push((k, v)));
                assert(ids_distinct(s1));
                assert(entries_map(s1) =~= entries_map(s0).insert(k, v)) by {
                    assert forall|x: Seq<char>| #[trigger]
                        entries_map(s1).contains_key(x) implies entries_map(s1)[x] == entries_map(
                        s0,
                    ).insert(k, v)[x] by {
                        let a = index_of(s1, x);
                        if x != k {
                            assert(a < s0.len());
                            assert(s0[a].0 == x);
                        }
                    }
                    assert forall|x: Seq<char>| #[trigger]
                        entries_map(s0).insert(k, v).contains_key(x) implies entries_map(
                        s1,
                    ).contains_key(x) by {
                        if x != k {
                            let b = index_of(s0, x);
                            assert(s1[b].0 == x);
                        } else {
                            assert(s1[s0.len() as int].0 == x);
                        }
                    }
                }
                self.jobs = jobs;
            },
        }
    }

    /// Takes the job with this id out of the registry, if it is there.
    pub fn remove(&mut self, job_id: &str) -> (r: Option<ActiveJob<T>>)
        ensures
            r is Some == old(self).jobs().contains_key(job_id@),
            r matches Some(j) ==> j.cancel_token == old(self).jobs()[job_id@],
            final(self).jobs() == old(self).jobs().remove(job_id@),
    {
        proof {
            use_type_invariant(&*self);
        }
        let ghost s0 = self.entries();
        let ghost k = job_id@;
        match self.position(job_id) {
            Some(i) => {
                let mut jobs = Vec::new();
                std::mem::swap(&mut jobs, &mut self.jobs);
                let (_, job) = jobs.remove(i);
                let ghost s1 = jobs@.map_values(|e: (String, ActiveJob<T>)| entry_view(e));
                assert(s1 =~= s0.remove(i as int));
                assert(ids_distinct(s1)) by {
                    assert forall|a: int, b: int|
                        0 <= a < s1.len() && 0 <= b < s1.len() && a != b implies s1[a].0
                        != s1[b].0 by {
                        let a0 = if a < i {
                            a
                        } else {
                            a + 1
                        };
                        let b0 = if b < i {
                            b
                        } else {
                            b + 1
                        };
                        assert(s1[a] == s0[a0]);
                        assert(s1[b] == s0[b0]);
                    }
                }
                assert(index_of(s0, k) == i);
                assert(entries_map(s1) =~= entries_map(s0).remove(k)) by {
                    assert forall|x: Seq<char>| #[trigger]
                        entries_map(s1).contains_key(x) implies entries_map(s1)[x] == entries_map(
                        s0,
                    )[x] && x != k by {
                        let a = index_of(s1, x);
                        let a0 = if a < i {
                            a
                        } else {
                            a + 1
                        };
                        assert(s1[a] == s0[a0]);
                        let b = index_of(s0, x);
                        assert(s0[b].0 == x);
                    }
                    assert forall|x: Seq<char>| #[trigger]
                        entries_map(s0).remove(k).contains_key(x) implies entries_map(
                        s1,
                    ).contains_key(x) by {
                        let b = index_of(s0, x);
                        assert(b != i);
                        let b1 = if b < i {
                            b
                        } else {
                            b - 1
                        };
                        assert(s1[b1] == s0[b]);
                    }
                }
                self.jobs = jobs;
                Some(job)
            },
            None => {
                assert(old(self).jobs().remove(k) =~= old(self).jobs());
                None
            },
        }
    }
}

} // verus!
