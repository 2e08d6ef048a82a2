//! The registry of live child processes, shared by every supervisor task.

use vstd::prelude::*;

verus! {

/// One running child process.
pub struct ProcessEntry {
    /// Operating-system process id.
    pub pid: i32,
    /// Display name, `<type>.<number>`.
    pub name: String,
    /// Position of the process type in the manifest.
    pub index: usize,
}

/// A registry entry as the contracts see it.
pub struct EntryView {
    pub pid: int,
    pub name: Seq<char>,
    pub index: nat,
}

impl ProcessEntry {
    pub open spec fn model(&self) -> EntryView {
        EntryView { pid: self.pid as int, name: self.name@, index: self.index as nat }
    }

    /// A copy of the entry.
    pub fn duplicate(&self) -> (r: ProcessEntry)
        ensures
            r.model() == self.model(),
    {
        ProcessEntry { pid: self.pid, name: self.name.clone(), index: self.index }
    }
}

/// Every pid is positive and occurs once.
pub open spec fn pids_unique(s: Seq<EntryView>) -> bool {
    &&& forall|i: int| 0 <= i < s.len() ==> (#[trigger] s[i]).pid > 0
    &&& forall|i: int, j: int| 0 <= i < j < s.len() ==> (#[trigger] s[i]).pid != (#[trigger] s[j]).pid
}

pub open spec fn has_pid(s: Seq<EntryView>, pid: int) -> bool {
    exists|i: int| 0 <= i < s.len() && (#[trigger] s[i]).pid == pid
}

/// The registry after the process `pid` is confirmed gone.
pub open spec fn without_pid(s: Seq<EntryView>, pid: int) -> Seq<EntryView> {
    if has_pid(s, pid) {
        s.remove(choose|i: int| 0 <= i < s.len() && (#[trigger] s[i]).pid == pid)
    } else {
        s
    }
}

/// The live child processes, in order of registration.
pub struct Registry {
    entries: Vec<ProcessEntry>,
}

impl View for Registry {
    type V = Seq<EntryView>;

    closed spec fn view(&self) -> Seq<EntryView> {
        self.entries@.map_values(|e: ProcessEntry| e.model())
    }
}

impl Registry {
    pub open spec fn wf(&self) -> bool {
        pids_unique(self@)
    }

    /// An empty registry.
    pub fn new() -> (r: Registry)
        ensures
            r.wf(),
            r@.len() == 0,
    {
        let r = Registry { entries: Vec::new() };
        assert(r@.len() == 0);
        r
    }

    /// Number of live processes.
    pub fn len(&self) -> (r: usize)
        ensures
            r == self@.len(),
    {
        self.entries.len()
    }

    /// True when no process is registered: the registry has drained.
    pub fn is_empty(&self) -> (r: bool)
        ensures
            r == (self@.len() == 0),
    {
        self.entries.len() == 0
    }

    /// The entry at position `i`.
    pub fn get(&self, i: usize) -> (r: &ProcessEntry)
        requires
            i < self@.len(),
        ensures
            r.model() == self@[i as int],
    {
        &self.entries[i]
    }

    /// True when a process with this pid is registered.
    pub fn contains(&self, pid: i32) -> (r: bool)
        ensures
            r == has_pid(self@, pid as int),
    {
        let n = self.entries.len();
        let mut i: usize = 0;
        while i < n
            invariant
                n == self@.len(),
                i <= n,
                forall|j: int| 0 <= j < i ==> (#[trigger] self@[j]).pid != pid,
            decreases n - i,
        {
            assert(self@[i as int] == self.entries@[i as int].model());
            if self.entries[i].pid == pid {
                return true;
            }
            i = i + 1;
        }
        false
    }

    /// Registers a process. A pid that is not positive, or is registered
    /// already, is refused and the registry is left as it was.
    pub fn insert(&mut self, entry: ProcessEntry) -> (r: bool)
        requires
            old(self).wf(),
        ensures
            final(self).wf(),
            r == (entry.pid > 0 && !has_pid(old(self)@, entry.pid as int)),
            r ==> final(self)@ == old(self)@.push(entry.model()),
            !r ==> final(self)@ == old(self)@,
    {
        if entry.pid <= 0 || self.contains(entry.pid) {
            return false;
        }
        let ghost pre = self@;
        let ghost m = entry.model();
        self.entries.push(entry);
        assert(self@ == pre.push(m));
        true
    }

    /// Removes the process `pid` and hands its entry back; `None` when it is
    /// not registered.
    pub fn remove(&mut self, pid: i32) -> (r: Option<ProcessEntry>)
        requires
            old(self).wf(),
        ensures
            final(self).wf(),
            final(self)@ == without_pid(old(self)@, pid as int),
            r is Some == has_pid(old(self)@, pid as int),
            r matches Some(e) ==> e.pid == pid && old(self)@.contains(e.model()),
    {
        let ghost pre = self@;
        let n = self.entries.len();
        let mut i: usize = 0;
        while i < n
            invariant
                n == self@.len(),
                i <= n,
                pre == self@,
                pre == old(self)@,
                pids_unique(pre),
                forall|j: int| 0 <= j < i ==> (#[trigger] pre[j]).pid != pid,
            decreases n - i,
        {
            assert(pre[i as int] == self.entries@[i as int].model());
            if self.entries[i].pid == pid {
                let ghost w = choose|w: int| 0 <= w < pre.len() && (#[trigger] pre[w]).pid == pid;
                assert(w == i);
                let e = self.entries.remove(i);
                assert(self@ == pre.remove(i as int));
                assert(pre.contains(e.model()));
                assert(self@ == without_pid(pre, pid as int));
                return Some(e);
            }
            i = i + 1;
        }
        None
    }

    /// A copy of the registry, to work through without holding its lock.
    pub fn snapshot(&self) -> (r: Registry)
        ensures
            r@ == self@,
    {
        let mut v: Vec<ProcessEntry> = Vec::new();
        let n = self.entries.len();
        let mut i: usize = 0;
        while i < n
            invariant
                n == self@.len(),
                i <= n,
                v@.map_values(|e: ProcessEntry| e.model()) == self@.take(i as int),
            decreases n - i,
        {
            let e = self.entries[i].duplicate();
            let ghost before = v@;
            assert(self@[i as int] == self.entries@[i as int].model());
            v.push(e);
            assert(v@ == before.push(e));
            assert(v@.map_values(|e: ProcessEntry| e.model()) == before.map_values(|e: ProcessEntry| e.model()).push(
                e.model(),
            ));
            assert(v@.map_values(|e: ProcessEntry| e.model()) == self@.take(i + 1));
            i = i + 1;
        }
        let r = Registry { entries: v };
        assert(self@.take(n as int) == self@);
        assert(r@ == v@.map_values(|e: ProcessEntry| e.model()));
        r
    }
}

} // verus!
