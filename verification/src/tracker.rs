//! The process tracker: the orchestrator's advisory memory of the processes
//! it believes it launched, keyed by service name, plus a per-name restart
//! counter that survives untracking so that restarts accumulate.

use vstd::prelude::*;
use vstd::string::StringExecFns;
use crate::clock::now_unix_seconds;
use crate::text::str_eq;
use crate::types::Health;

verus! {

/// The orchestrator's last-known belief about one service's process.
/// Advisory only: the process may have died since.
#[derive(Clone, Copy, Debug)]
pub struct ProcessInfo {
    pub pid: u32,
    /// Unix seconds at the moment the record was (re)created.
    pub start_time: u64,
    pub restart_count: u32,
    pub last_health_check: Option<u64>,
    pub health_status: Health,
}

/// One tracked record.
pub struct TrackedEntry {
    pub name: String,
    pub info: ProcessInfo,
}

/// One persistent restart counter.
pub struct CountEntry {
    pub name: String,
    pub count: u32,
}

/// Some record of `s` carries `n`.
pub open spec fn rec_has(s: Seq<TrackedEntry>, n: Seq<char>) -> bool {
    exists|i: int| 0 <= i < s.len() && s[i].name@ == n
}

/// The index of the record of `s` that carries `n`.
pub open spec fn rec_index(s: Seq<TrackedEntry>, n: Seq<char>) -> int {
    choose|i: int| 0 <= i < s.len() && s[i].name@ == n
}

/// Some counter of `s` carries `n`.
pub open spec fn cnt_has(s: Seq<CountEntry>, n: Seq<char>) -> bool {
    exists|i: int| 0 <= i < s.len() && s[i].name@ == n
}

/// The index of the counter of `s` that carries `n`.
pub open spec fn cnt_index(s: Seq<CountEntry>, n: Seq<char>) -> int {
    choose|i: int| 0 <= i < s.len() && s[i].name@ == n
}

/// The restart count recorded for `n`, 0 when none is.
pub open spec fn cnt_value(s: Seq<CountEntry>, n: Seq<char>) -> u32 {
    if cnt_has(s, n) {
        s[cnt_index(s, n)].count
    } else {
        0
    }
}

/// No two records carry the same name.
pub open spec fn unique_rec_names(s: Seq<TrackedEntry>) -> bool {
    forall|i: int, j: int|
        #![trigger s[i], s[j]]
        0 <= i < j < s.len() ==> s[i].name@ != s[j].name@
}

/// No two counters carry the same name.
pub open spec fn unique_cnt_names(s: Seq<CountEntry>) -> bool {
    forall|i: int, j: int|
        #![trigger s[i], s[j]]
        0 <= i < j < s.len() ==> s[i].name@ != s[j].name@
}

/// With unique names, a record that carries `n` is the looked-up record.
pub proof fn lemma_rec_index_unique(s: Seq<TrackedEntry>, n: Seq<char>, i: int)
    requires
        unique_rec_names(s),
        0 <= i < s.len(),
        s[i].name@ == n,
    ensures
        rec_has(s, n),
        rec_index(s, n) == i,
{
    assert(rec_has(s, n));
    let k = rec_index(s, n);
    assert(0 <= k < s.len() && s[k].name@ == n);
    if k != i {
        assert(s[k].name@ != s[i].name@);
        assert(false);
    }
}

/// With unique names, a counter that carries `n` is the looked-up counter.
pub proof fn lemma_cnt_index_unique(s: Seq<CountEntry>, n: Seq<char>, i: int)
    requires
        unique_cnt_names(s),
        0 <= i < s.len(),
        s[i].name@ == n,
    ensures
        cnt_has(s, n),
        cnt_index(s, n) == i,
        cnt_value(s, n) == s[i].count,
{
    assert(cnt_has(s, n));
    let k = cnt_index(s, n);
    assert(0 <= k < s.len() && s[k].name@ == n);
    if k != i {
        assert(s[k].name@ != s[i].name@);
        assert(false);
    }
}

/// Mutable map from service name to last-known process record, plus the
/// persistent restart counters.
pub struct ProcessTracker {
    pub records: Vec<TrackedEntry>,
    pub restart_counts: Vec<CountEntry>,
}

impl ProcessTracker {
    /// Record names and counter names are unique, and a present record's
    /// counter field agrees with the persistent counter of its name.
    pub open spec fn wf(&self) -> bool {
        &&& unique_rec_names(self.records@)
        &&& unique_cnt_names(self.restart_counts@)
        &&& forall|i: int|
            0 <= i < self.records@.len() ==> (#[trigger] self.records@[i]).info.restart_count
                == cnt_value(self.restart_counts@, self.records@[i].name@)
    }

    /// The record tracked for `n`, if any.
    pub open spec fn record_of(&self, n: Seq<char>) -> Option<ProcessInfo> {
        if rec_has(self.records@, n) {
            Some(self.records@[rec_index(self.records@, n)].info)
        } else {
            None
        }
    }

    /// The persistent restart count of `n` (0 until first incremented).
    pub open spec fn count_of(&self, n: Seq<char>) -> u32 {
        cnt_value(self.restart_counts@, n)
    }

    /// An empty tracker.
    pub fn new() -> (r: ProcessTracker)
        ensures
            r.wf(),
            forall|n: Seq<char>| #[trigger] r.record_of(n) is None,
            forall|n: Seq<char>| #[trigger] r.count_of(n) == 0,
    {
        ProcessTracker { records: Vec::new(), restart_counts: Vec::new() }
    }

    /// The index of the record carrying `name`, if one does.
    fn find_record(&self, name: &str) -> (r: Option<usize>)
        requires
            self.wf(),
        ensures
            match r {
                Some(i) => i < self.records@.len() && self.records@[i as int].name@ == name@
                    && rec_has(self.records@, name@) && rec_index(self.records@, name@) == i,
                None => !rec_has(self.records@, name@),
            },
    {
        let n = self.records.len();
        let mut i: usize = 0;
        while i < n
            invariant
                self.wf(),
                n == self.records@.len(),
                i <= n,
                forall|j: int| 0 <= j < i ==> self.records@[j].name@ != name@,
            decreases n - i,
        {
            if str_eq(self.records[i].name.as_str(), name) {
                proof {
                    lemma_rec_index_unique(self.records@, name@, i as int);
                }
                return Some(i);
            }
            i = i + 1;
        }
        None
    }

    /// The index of the counter carrying `name`, if one does.
    fn find_count(&self, name: &str) -> (r: Option<usize>)
        requires
            self.wf(),
        ensures
            match r {
                Some(i) => i < self.restart_counts@.len()
                    && self.restart_counts@[i as int].name@ == name@
                    && cnt_has(self.restart_counts@, name@)
                    && cnt_index(self.restart_counts@, name@) == i
                    && self.count_of(name@) == self.restart_counts@[i as int].count,
                None => !cnt_has(self.restart_counts@, name@) && self.count_of(name@) == 0,
            },
    {
        let n = self.restart_counts.len();
        let mut i: usize = 0;
        while i < n
            invariant
                self.wf(),
                n == self.restart_counts@.len(),
                i <= n,
                forall|j: int| 0 <= j < i ==> self.restart_counts@[j].name@ != name@,
            decreases n - i,
        {
            if str_eq(self.restart_counts[i].name.as_str(), name) {
                proof {
                    lemma_cnt_index_unique(self.restart_counts@, name@, i as int);
                }
                return Some(i);
            }
            i = i + 1;
        }
        None
    }

    /// The persistent restart count of `name`.
    pub fn restart_count_of(&self, name: &str) -> (r: u32)
        requires
            self.wf(),
        ensures
            r == self.count_of(name@),
    {
        match self.find_count(name) {
            Some(i) => self.restart_counts[i].count,
            None => 0,
        }
    }

    /// Inserts or overwrites the record of `service_name`: fresh start time
    /// read from the clock, health back to unknown, restart count carried
    /// over from the persistent counter. Counters do not change.
    pub fn track_process(&mut self, service_name: String, pid: u32)
        requires
            old(self).wf(),
        ensures
            final(self).wf(),
            final(self).restart_counts@ == old(self).restart_counts@,
            match final(self).record_of(service_name@) {
                Some(info) => info.pid == pid
                    && info.restart_count == old(self).count_of(service_name@)
                    && info.last_health_check is None
                    && info.health_status == Health::Unknown,
                None => false,
            },
            forall|n: Seq<char>|
                n != service_name@ ==> #[trigger] final(self).record_of(n)
                    == old(self).record_of(n),
    {
        let count = self.restart_count_of(service_name.as_str());
        let info = ProcessInfo {
            pid,
            start_time: now_unix_seconds(),
            restart_count: count,
            last_health_check: None,
            health_status: Health::Unknown,
        };
        match self.find_record(service_name.as_str()) {
            Some(i) => {
                self.records[i].info = info;
                proof {
                    let s_old = old(self).records@;
                    let s_new = self.records@;
                    assert(s_new == s_old.update(i as int, TrackedEntry {
                        name: s_old[i as int].name,
                        info,
                    }));
                    lemma_rec_index_unique(s_new, service_name@, i as int);
                    assert forall|n: Seq<char>| n != service_name@ implies
                        #[trigger] self.record_of(n) == old(self).record_of(n) by {
                        if rec_has(s_old, n) {
                            let j = rec_index(s_old, n);
                            assert(s_new[j].name@ == n);
                            lemma_rec_index_unique(s_new, n, j);
                        }
                        if rec_has(s_new, n) {
                            let j = rec_index(s_new, n);
                            assert(s_old[j].name@ == n);
                            lemma_rec_index_unique(s_old, n, j);
                        }
                    }
                }
            },
            None => {
                self.records.push(TrackedEntry { name: service_name, info });
                proof {
                    let s_old = old(self).records@;
                    let s_new = self.records@;
                    let len = s_old.len();
                    assert(s_new[len as int].name@ == service_name@);
                    assert forall|a: int, b: int|
                        #![trigger s_new[a], s_new[b]]
                        0 <= a < b < s_new.len() implies s_new[a].name@ != s_new[b].name@ by {
                        if b < len {
                            assert(s_old[a].name@ != s_old[b].name@);
                        } else {
                            assert(!rec_has(s_old, service_name@));
                            assert(s_new[a] == s_old[a]);
                            if s_new[a].name@ == service_name@ {
                                assert(rec_has(s_old, service_name@));
                            }
                        }
                    }
                    lemma_rec_index_unique(s_new, service_name@, len as int);
                    assert forall|n: Seq<char>| n != service_name@ implies
                        #[trigger] self.record_of(n) == old(self).record_of(n) by {
                        if rec_has(s_old, n) {
                            let j = rec_index(s_old, n);
                            assert(s_new[j].name@ == n);
                            lemma_rec_index_unique(s_new, n, j);
                        }
                        if rec_has(s_new, n) {
                            let j = rec_index(s_new, n);
                            assert(j != len);
                            assert(s_old[j].name@ == n);
                            lemma_rec_index_unique(s_old, n, j);
                        }
                    }
                }
            },
        }
    }

    /// The record tracked for `service_name`, if any.
    pub fn get_process_info(&self, service_name: &str) -> (r: Option<ProcessInfo>)
        requires
            self.wf(),
        ensures
            r == self.record_of(service_name@),
    {
        match self.find_record(service_name) {
            Some(i) => Some(self.records[i].info),
            None => None,
        }
    }

    /// Removes the record of `service_name`; does nothing when none is
    /// tracked. Counters do not change.
    pub fn remove_process(&mut self, service_name: &str)
        requires
            old(self).wf(),
        ensures
            final(self).wf(),
            final(self).restart_counts@ == old(self).restart_counts@,
            final(self).record_of(service_name@) is None,
            forall|n: Seq<char>|
                n != service_name@ ==> #[trigger] final(self).record_of(n)
                    == old(self).record_of(n),
    {
        match self.find_record(service_name) {
            Some(i) => {
                self.records.remove(i);
                proof {
                    let s_old = old(self).records@;
                    let s_new = self.records@;
                    assert(s_new == s_old.remove(i as int));
                    assert forall|a: int, b: int|
                        #![trigger s_new[a], s_new[b]]
                        0 <= a < b < s_new.len() implies s_new[a].name@ != s_new[b].name@ by {
                        let a0: int = if a < i { a } else { a + 1 };
                        let b0: int = if b < i { b } else { b + 1 };
                        assert(s_new[a] == s_old[a0]);
                        assert(s_new[b] == s_old[b0]);
                        assert(s_old[a0].name@ != s_old[b0].name@);
                    }
                    if rec_has(s_new, service_name@) {
                        let j = rec_index(s_new, service_name@);
                        let j0: int = if j < i { j } else { j + 1 };
                        assert(s_new[j] == s_old[j0]);
                        assert(s_old[j0].name@ == service_name@);
                        lemma_rec_index_unique(s_old, service_name@, j0);
                        assert(false);
                    }
                    assert forall|n: Seq<char>| n != service_name@ implies
                        #[trigger] self.record_of(n) == old(self).record_of(n) by {
                        if rec_has(s_old, n) {
                            let j = rec_index(s_old, n);
                            assert(j != i);
                            let j1: int = if j < i { j } else { j - 1 };
                            assert(s_new[j1] == s_old[j]);
                            assert(s_new[j1].name@ == n);
                            lemma_rec_index_unique(s_new, n, j1);
                        }
                        if rec_has(s_new, n) {
                            let j = rec_index(s_new, n);
                            let j0: int = if j < i { j } else { j + 1 };
                            assert(s_new[j] == s_old[j0]);
                            assert(s_old[j0].name@ == n);
                            lemma_rec_index_unique(s_old, n, j0);
                        }
                    }
                }
            },
            None => (),
        }
    }

    /// Adds one to the persistent restart counter of `service_name`
    /// (saturating at the counter's maximum), creating the counter when
    /// none exists yet, and keeps any present record's field in step: such
    /// a record keeps its pid, start time and health, and only its counter
    /// field moves. Records of other services do not change.
    pub fn increment_restart_count(&mut self, service_name: &str)
        requires
            old(self).wf(),
        ensures
            final(self).wf(),
            final(self).count_of(service_name@) == if old(self).count_of(service_name@)
                < u32::MAX { (old(self).count_of(service_name@) + 1) as u32 } else { u32::MAX },
            forall|n: Seq<char>|
                n != service_name@ ==> #[trigger] final(self).count_of(n)
                    == old(self).count_of(n),
            match old(self).record_of(service_name@) {
                Some(prev) => match final(self).record_of(service_name@) {
                    Some(info) => info.pid == prev.pid && info.start_time == prev.start_time
                        && info.last_health_check == prev.last_health_check
                        && info.health_status == prev.health_status
                        && info.restart_count == final(self).count_of(service_name@),
                    None => false,
                },
                None => final(self).record_of(service_name@) is None,
            },
            forall|n: Seq<char>|
                n != service_name@ ==> #[trigger] final(self).record_of(n)
                    == old(self).record_of(n),
    {
        let rec_idx = self.find_record(service_name);
        let new_count: u32 = match self.find_count(service_name) {
            Some(i) => {
                let c = self.restart_counts[i].count;
                let c2: u32 = if c < u32::MAX { c + 1 } else { u32::MAX };
                self.restart_counts[i].count = c2;
                proof {
                    let s_old = old(self).restart_counts@;
                    let s_new = self.restart_counts@;
                    assert(s_new == s_old.update(i as int, CountEntry {
                        name: s_old[i as int].name,
                        count: c2,
                    }));
                    lemma_cnt_index_unique(s_new, service_name@, i as int);
                    assert forall|n: Seq<char>| n != service_name@ implies
                        #[trigger] cnt_value(s_new, n) == cnt_value(s_old, n) by {
                        if cnt_has(s_old, n) {
                            let j = cnt_index(s_old, n);
                            assert(s_new[j].name@ == n);
                            lemma_cnt_index_unique(s_new, n, j);
                        }
                        if cnt_has(s_new, n) {
                            let j = cnt_index(s_new, n);
                            assert(s_old[j].name@ == n);
                            lemma_cnt_index_unique(s_old, n, j);
                        }
                    }
                }
                c2
            },
            None => {
                self.restart_counts.push(CountEntry {
                    name: String::from_str(service_name),
                    count: 1,
                });
                proof {
                    let s_old = old(self).restart_counts@;
                    let s_new = self.restart_counts@;
                    let len = s_old.len();
                    assert(s_new[len as int].name@ == service_name@);
                    assert forall|a: int, b: int|
                        #![trigger s_new[a], s_new[b]]
                        0 <= a < b < s_new.len() implies s_new[a].name@ != s_new[b].name@ by {
                        if b < len {
                            assert(s_old[a].name@ != s_old[b].name@);
                        } else {
                            assert(s_new[a] == s_old[a]);
                            if s_new[a].name@ == service_name@ {
                                assert(cnt_has(s_old, service_name@));
                            }
                        }
                    }
                    lemma_cnt_index_unique(s_new, service_name@, len as int);
                    assert forall|n: Seq<char>| n != service_name@ implies
                        #[trigger] cnt_value(s_new, n) == cnt_value(s_old, n) by {
                        if cnt_has(s_old, n) {
                            let j = cnt_index(s_old, n);
                            assert(s_new[j].name@ == n);
                            lemma_cnt_index_unique(s_new, n, j);
                        }
                        if cnt_has(s_new, n) {
                            let j = cnt_index(s_new, n);
                            assert(j != len);
                            assert(s_old[j].name@ == n);
                            lemma_cnt_index_unique(s_old, n, j);
                        }
                    }
                }
                1
            },
        };
        proof {
            assert(self.count_of(service_name@) == new_count);
        }
        match rec_idx {
            Some(i) => {
                self.records[i].info.restart_count = new_count;
                proof {
                    let s_old = old(self).records@;
                    let s_new = self.records@;
                    lemma_rec_index_unique(s_old, service_name@, i as int);
                    lemma_rec_index_unique(s_new, service_name@, i as int);
                    assert forall|n: Seq<char>| n != service_name@ implies
                        #[trigger] self.record_of(n) == old(self).record_of(n) by {
                        if rec_has(s_old, n) {
                            let j = rec_index(s_old, n);
                            assert(s_new[j].name@ == n);
                            lemma_rec_index_unique(s_new, n, j);
                        }
                        if rec_has(s_new, n) {
                            let j = rec_index(s_new, n);
                            assert(s_old[j].name@ == n);
                            lemma_rec_index_unique(s_old, n, j);
                        }
                    }
                }
            },
            None => (),
        }
    }

    /// Records a health verdict and stamps the probe time; does nothing when
    /// `service_name` is untracked. Counters do not change.
    pub fn update_health(&mut self, service_name: &str, health: Health)
        requires
            old(self).wf(),
        ensures
            final(self).wf(),
            final(self).restart_counts@ == old(self).restart_counts@,
            match old(self).record_of(service_name@) {
                Some(prev) => match final(self).record_of(service_name@) {
                    Some(info) => info.pid == prev.pid
                        && info.start_time == prev.start_time
                        && info.restart_count == prev.restart_count
                        && info.health_status == health
                        && info.last_health_check is Some,
                    None => false,
                },
                None => final(self).record_of(service_name@) is None,
            },
            forall|n: Seq<char>|
                n != service_name@ ==> #[trigger] final(self).record_of(n)
                    == old(self).record_of(n),
    {
        match self.find_record(service_name) {
            Some(i) => {
                let stamp = now_unix_seconds();
                self.records[i].info.health_status = health;
                self.records[i].info.last_health_check = Some(stamp);
                proof {
                    let s_old = old(self).records@;
                    let s_new = self.records@;
                    lemma_rec_index_unique(s_old, service_name@, i as int);
                    lemma_rec_index_unique(s_new, service_name@, i as int);
                    assert forall|n: Seq<char>| n != service_name@ implies
                        #[trigger] self.record_of(n) == old(self).record_of(n) by {
                        if rec_has(s_old, n) {
                            let j = rec_index(s_old, n);
                            assert(s_new[j].name@ == n);
                            lemma_rec_index_unique(s_new, n, j);
                        }
                        if rec_has(s_new, n) {
                            let j = rec_index(s_new, n);
                            assert(s_old[j].name@ == n);
                            lemma_rec_index_unique(s_old, n, j);
                        }
                    }
                }
            },
            None => (),
        }
    }
}

} // verus!
