//! What each replica is launched with: its port, its display name and its
//! environment, and the list of replicas a manifest asks for.

use crate::decimal::{decimal_chars, decimal_text, read_unsigned, parse_u32};
use crate::procfile::{total_concurrency, ProcessType, Procfile, ProcfileEntry};
use vstd::prelude::*;
use vstd::string::*;

verus! {

/// The base port when neither the options nor the environment give one.
pub const DEFAULT_PORT: u32 = 5000;

/// Port of replica `ordinal` (counted from zero) of a process type.
pub open spec fn port_of(base: int, ordinal: int) -> int {
    base + ordinal
}

/// Port of a replica when exported: each process type gets a band of a hundred ports.
pub open spec fn export_port_of(base: int, group: int, ordinal: int) -> int {
    base + group * 100 + ordinal
}

/// Display name of a replica: `<name>.<number>`.
pub open spec fn ps_text(name: Seq<char>, number: nat) -> Seq<char> {
    name + seq!['.'] + decimal_chars(number)
}

/// The base port: an explicit port first, then `PORT` from the environment
/// file, then `PORT` from the supervisor's own environment, then 5000. `None`
/// when the text chosen is not a port number.
pub open spec fn resolve_base_port(
    port: Option<u32>,
    file_port: Option<Seq<char>>,
    own_port: Option<Seq<char>>,
) -> Option<int> {
    match port {
        Some(p) => Some(p as int),
        None => match file_port {
            Some(t) => read_unsigned(t, u32::MAX as int),
            None => match own_port {
                Some(t) => read_unsigned(t, u32::MAX as int),
                None => Some(DEFAULT_PORT as int),
            },
        },
    }
}

pub open spec fn opt_view(t: Option<&str>) -> Option<Seq<char>> {
    match t {
        Some(s) => Some(s@),
        None => None,
    }
}

/// Chooses the base port (see `resolve_base_port`).
pub fn base_port(port: Option<u32>, file_port: Option<&str>, own_port: Option<&str>) -> (r: Option<
    u32,
>)
    ensures
        r matches Some(p) ==> resolve_base_port(port, opt_view(file_port), opt_view(own_port))
            == Some(p as int),
        r is None ==> resolve_base_port(port, opt_view(file_port), opt_view(own_port)) is None,
{
    match port {
        Some(p) => Some(p),
        None => match file_port {
            Some(t) => parse_u32(t),
            None => match own_port {
                Some(t) => parse_u32(t),
                None => Some(DEFAULT_PORT),
            },
        },
    }
}

/// The port of replica `concurrency_index` (from zero) of a process type.
pub fn port_for(base: u32, concurrency_index: usize) -> (r: u32)
    requires
        port_of(base as int, concurrency_index as int) <= u32::MAX,
    ensures
        r == port_of(base as int, concurrency_index as int),
{
    base + concurrency_index as u32
}

/// The exported port of replica `ordinal` of the process type at `group`.
pub fn export_port_for(base: u32, group: usize, ordinal: usize) -> (r: Option<u32>)
    ensures
        r matches Some(p) ==> p == export_port_of(base as int, group as int, ordinal as int),
        r is None ==> export_port_of(base as int, group as int, ordinal as int) > u32::MAX,
{
    if group > 42949672 {
        return None;
    }
    if ordinal > u32::MAX as usize {
        return None;
    }
    let band = (group as u64) * 100;
    let total = base as u64 + band + ordinal as u64;
    if total > u32::MAX as u64 {
        None
    } else {
        Some(total as u32)
    }
}

/// The display name of a replica, `<name>.<number>`.
pub fn ps_for(process_name: &str, number: usize) -> (r: String)
    ensures
        r@ == ps_text(process_name@, number as nat),
{
    let mut s = process_name.to_string();
    let dot = ".";
    proof {
        reveal_strlit(".");
    }
    s.append(dot);
    let digits = decimal_text(number as u64);
    s.append(digits.as_str());
    s
}

/// An environment as the contracts see it: key and value of each variable.
pub open spec fn env_view(env: Seq<(String, String)>) -> Seq<(Seq<char>, Seq<char>)> {
    env.map_values(|p: (String, String)| (p.0@, p.1@))
}

pub open spec fn keys_unique(e: Seq<(Seq<char>, Seq<char>)>) -> bool {
    forall|i: int, j: int| 0 <= i < j < e.len() ==> #[trigger] e[i].0 != #[trigger] e[j].0
}

/// The environment with `key` set to `value`: replaced where it is, else added last.
pub open spec fn set_var(e: Seq<(Seq<char>, Seq<char>)>, key: Seq<char>, value: Seq<char>) -> Seq<
    (Seq<char>, Seq<char>),
> {
    if exists|i: int| 0 <= i < e.len() && (#[trigger] e[i]).0 == key {
        let i = choose|i: int| 0 <= i < e.len() && (#[trigger] e[i]).0 == key;
        e.update(i, (key, value))
    } else {
        e.push((key, value))
    }
}

/// Sets one variable of an environment.
pub fn set_env_var(env: &mut Vec<(String, String)>, key: &str, value: String)
    requires
        keys_unique(env_view(old(env)@)),
    ensures
        keys_unique(env_view(final(env)@)),
        env_view(final(env)@) == set_var(env_view(old(env)@), key@, value@),
{
    let ghost pre = env_view(env@);
    let n = env.len();
    let mut i: usize = 0;
    while i < n
        invariant
            n == env@.len(),
            i <= n,
            pre == env_view(env@),
            pre == env_view(old(env)@),
            keys_unique(pre),
            forall|j: int| 0 <= j < i ==> (#[trigger] pre[j]).0 != key@,
        decreases n - i,
    {
        if crate::text::same_text(env[i].0.as_str(), key) {
            assert(pre[i as int].0 == key@);
            let k = env[i].0.clone();
            let ghost vv = value@;
            env.set(i, (k, value));
            let ghost w = choose|w: int| 0 <= w < pre.len() && (#[trigger] pre[w]).0 == key@;
            assert(w == i);
            assert(env_view(env@) == pre.update(i as int, (key@, vv)));
            assert(env_view(env@) == set_var(pre, key@, vv));
            return;
        }
        i = i + 1;
    }
    let ghost vv = value@;
    env.push((key.to_string(), value));
    assert(env_view(env@) == pre.push((key@, vv)));
}

/// The environment of a replica: the loaded variables with `PORT` and `PS` set.
pub fn launch_env(env: &Vec<(String, String)>, port: u32, ps: &str) -> (r: Vec<(String, String)>)
    requires
        keys_unique(env_view(env@)),
    ensures
        keys_unique(env_view(r@)),
        env_view(r@) == set_var(
            set_var(env_view(env@), "PORT"@, decimal_chars(port as nat)),
            "PS"@,
            ps@,
        ),
{
    let mut out: Vec<(String, String)> = Vec::new();
    let mut i: usize = 0;
    while i < env.len()
        invariant
            i <= env@.len(),
            env_view(out@) == env_view(env@).take(i as int),
        decreases env@.len() - i,
    {
        let a = env[i].0.clone();
        let b = env[i].1.clone();
        let ghost before = out@;
        out.push((a, b));
        assert(out@ == before.push((a, b)));
        assert(env_view(out@) == env_view(before).push((env@[i as int].0@, env@[i as int].1@)));
        assert(env_view(out@) == env_view(env@).take(i + 1));
        i = i + 1;
    }
    assert(env_view(env@).take(env@.len() as int) == env_view(env@));
    set_env_var(&mut out, "PORT", decimal_text(port as u64));
    set_env_var(&mut out, "PS", ps.to_string());
    out
}

/// One replica to launch.
pub struct Replica {
    pub name: String,
    pub command: String,
    /// Position of the process type in the manifest, for stable log colours.
    pub group: usize,
    /// Number of the replica within its type, from zero.
    pub ordinal: usize,
    pub port: u32,
    /// Display name, `<name>.<ordinal + 1>`.
    pub ps: String,
}

/// A replica as the contracts see it.
pub struct ReplicaView {
    pub name: Seq<char>,
    pub command: Seq<char>,
    pub group: nat,
    pub ordinal: nat,
    pub port: int,
    pub ps: Seq<char>,
}

impl Replica {
    pub open spec fn model(&self) -> ReplicaView {
        ReplicaView {
            name: self.name@,
            command: self.command@,
            group: self.group as nat,
            ordinal: self.ordinal as nat,
            port: self.port as int,
            ps: self.ps@,
        }
    }
}

pub open spec fn replica_of(t: ProcessType, group: nat, ordinal: nat, base: int) -> ReplicaView {
    ReplicaView {
        name: t.name,
        command: t.command,
        group,
        ordinal,
        port: port_of(base, ordinal as int),
        ps: ps_text(t.name, ordinal + 1),
    }
}

/// The replicas of a manifest: for each type in order, its replicas in order.
pub open spec fn replicas_of(s: Seq<ProcessType>, base: int) -> Seq<ReplicaView>
    decreases s.len(),
{
    if s.len() == 0 {
        Seq::empty()
    } else {
        let g = (s.len() - 1) as nat;
        replicas_of(s.drop_last(), base) + Seq::new(
            s.last().concurrency,
            |n: int| replica_of(s.last(), g, n as nat, base),
        )
    }
}

/// True when every replica's port fits in a port number.
pub open spec fn ports_fit(s: Seq<ProcessType>, base: int) -> bool {
    forall|i: int| 0 <= i < s.len() ==> #[trigger] s[i].concurrency == 0 || port_of(base, s[i].concurrency - 1) <= u32::MAX
}

proof fn lemma_replicas_len(s: Seq<ProcessType>, base: int)
    ensures
        replicas_of(s, base).len() == total_concurrency(s),
    decreases s.len(),
{
    if s.len() > 0 {
        lemma_replicas_len(s.drop_last(), base);
    }
}

/// Lists the replicas to launch, or `None` when a port would not fit in a port number.
pub fn launch_plan(procfile: &Procfile, base: u32) -> (r: Option<Vec<Replica>>)
    ensures
        r matches Some(v) ==> ports_fit(procfile@, base as int) && v@.map_values(
            |x: Replica| x.model(),
        ) == replicas_of(procfile@, base as int),
        r is None ==> !ports_fit(procfile@, base as int),
{
    let mut plan: Vec<Replica> = Vec::new();
    let n = procfile.data.len();
    let mut g: usize = 0;
    assert(procfile@.take(0) == Seq::<ProcessType>::empty());
    while g < n
        invariant
            n == procfile@.len(),
            g <= n,
            plan@.map_values(|x: Replica| x.model()) == replicas_of(procfile@.take(g as int), base as int),
            ports_fit(procfile@.take(g as int), base as int),
        decreases n - g,
    {
        let entry: &ProcfileEntry = &procfile.data[g];
        let ghost t = procfile@[g as int];
        assert(entry.model() == t);
        let ghost pre = plan@.map_values(|x: Replica| x.model());
        let ghost s1 = procfile@.take(g + 1);
        assert(s1.drop_last() == procfile@.take(g as int));
        assert(s1.last() == t);
        let con = entry.concurrency;
        if con > 0 && con - 1 > (u32::MAX - base) as usize {
            assert(!ports_fit(procfile@, base as int)) by {
                assert(procfile@[g as int].concurrency == con);
                assert(port_of(base as int, con - 1) > u32::MAX);
            }
            return None;
        }
        let mut k: usize = 0;
        while k < con
            invariant
                k <= con,
                con == t.concurrency,
                entry.model() == t,
                con == 0 || (con - 1) + base <= u32::MAX,
                plan@.map_values(|x: Replica| x.model()) == pre + Seq::new(
                    k as nat,
                    |q: int| replica_of(t, g as nat, q as nat, base as int),
                ),
            decreases con - k,
        {
            let port = port_for(base, k);
            let ps = ps_for(entry.name.as_str(), k + 1);
            let rep = Replica {
                name: entry.name.clone(),
                command: entry.command.clone(),
                group: g,
                ordinal: k,
                port,
                ps,
            };
            assert(rep.model() == replica_of(t, g as nat, k as nat, base as int));
            let ghost before = plan@;
            plan.push(rep);
            assert(plan@ == before.push(rep));
            assert(plan@.map_values(|x: Replica| x.model()) == before.map_values(|x: Replica| x.model()).push(
                rep.model(),
            ));
            assert(Seq::new((k + 1) as nat, |q: int| replica_of(t, g as nat, q as nat, base as int))
                == Seq::new(k as nat, |q: int| replica_of(t, g as nat, q as nat, base as int)).push(
                replica_of(t, g as nat, k as nat, base as int),
            ));
            k = k + 1;
        }
        assert(ports_fit(s1, base as int)) by {
            assert forall|i: int| 0 <= i < s1.len() implies #[trigger] s1[i].concurrency == 0
                || port_of(base as int, s1[i].concurrency - 1) <= u32::MAX by {
                if i < g {
                    assert(s1[i] == procfile@.take(g as int)[i]);
                }
            }
        }
        g = g + 1;
    }
    assert(procfile@.take(n as int) == procfile@);
    Some(plan)
}

/// The ports of a process type with `count` replicas are exactly the `count`
/// consecutive ports from the base, none repeated.
pub proof fn lemma_replica_ports(base: int, count: nat)
    requires
        count >= 1,
    ensures
        Seq::new(count, |i: int| port_of(base, i)).no_duplicates(),
        Seq::new(count, |i: int| port_of(base, i)).to_set() == Set::new(
            |p: int| base <= p < base + count,
        ),
{
    let ports = Seq::new(count, |i: int| port_of(base, i));
    assert forall|p: int| ports.to_set().contains(p) <==> base <= p < base + count by {
        if base <= p < base + count {
            assert(ports[p - base] == p);
        }
    }
    assert(ports.to_set() =~= Set::new(|p: int| base <= p < base + count));
}

/// A manifest whose process types all have zero replicas launches nothing.
pub proof fn lemma_no_replicas(s: Seq<ProcessType>, base: int)
    requires
        forall|i: int| 0 <= i < s.len() ==> (#[trigger] s[i]).concurrency == 0,
    ensures
        replicas_of(s, base).len() == 0,
        total_concurrency(s) == 0,
    decreases s.len(),
{
    if s.len() > 0 {
        assert(s.last() == s[s.len() - 1]);
        lemma_no_replicas(s.drop_last(), base);
    }
    lemma_replicas_len(s, base);
}

} // verus!
