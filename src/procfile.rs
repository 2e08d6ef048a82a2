//! The application manifest: named process types, each with a command and a
//! replica count ("concurrency"), kept in order of name.

use crate::decimal::{parse_usize, read_unsigned};
use crate::text::{
    compare_text, lemma_lex_irreflexive, lemma_lex_transitive, lemma_split_nonempty, lex_lt,
    same_text, split, split_text, strip_white_space, strip_white_space_text, TextOrder,
    is_white_space, is_white_space_char,
};
use vstd::prelude::*;
use vstd::string::*;
use vstd::utf8::*;

verus! {

/// A process type as the contracts see it.
pub struct ProcessType {
    pub name: Seq<char>,
    pub command: Seq<char>,
    pub concurrency: nat,
}

/// One process type of the manifest.
pub struct ProcfileEntry {
    pub name: String,
    pub command: String,
    pub concurrency: usize,
}

impl ProcfileEntry {
    pub open spec fn model(&self) -> ProcessType {
        ProcessType { name: self.name@, command: self.command@, concurrency: self.concurrency as nat }
    }
}

/// The process types of a manifest, in increasing order of name.
pub struct Procfile {
    pub data: Vec<ProcfileEntry>,
}

impl View for Procfile {
    type V = Seq<ProcessType>;

    open spec fn view(&self) -> Seq<ProcessType> {
        self.data@.map_values(|e: ProcfileEntry| e.model())
    }
}

/// Names strictly increase along the sequence, so no name occurs twice.
pub open spec fn names_ordered(s: Seq<ProcessType>) -> bool {
    forall|i: int, j: int| 0 <= i < j < s.len() ==> lex_lt(#[trigger] s[i].name, #[trigger] s[j].name)
}

pub open spec fn has_type(s: Seq<ProcessType>, name: Seq<char>) -> bool {
    exists|i: int| 0 <= i < s.len() && (#[trigger] s[i]).name == name
}

/// Length in bytes of a text in UTF-8.
pub open spec fn byte_len(s: Seq<char>) -> nat {
    encode_utf8(s).len()
}

/// The longest name, in bytes.
pub open spec fn max_name_bytes(s: Seq<ProcessType>) -> nat
    decreases s.len(),
{
    if s.len() == 0 {
        0
    } else {
        let m = max_name_bytes(s.drop_last());
        let b = byte_len(s.last().name);
        if b > m {
            b
        } else {
            m
        }
    }
}

/// The number of processes the manifest asks for, over all types.
pub open spec fn total_concurrency(s: Seq<ProcessType>) -> nat
    decreases s.len(),
{
    if s.len() == 0 {
        0
    } else {
        total_concurrency(s.drop_last()) + s.last().concurrency
    }
}

/// The texts joined with `", "` between them.
pub open spec fn join_names(names: Seq<Seq<char>>) -> Seq<char>
    decreases names.len(),
{
    if names.len() == 0 {
        Seq::<char>::empty()
    } else if names.len() == 1 {
        names[0]
    } else {
        join_names(names.drop_last()) + seq![',', ' '] + names.last()
    }
}

proof fn lemma_total_prefix(s: Seq<ProcessType>, i: int)
    requires
        0 <= i <= s.len(),
    ensures
        total_concurrency(s.take(i)) <= total_concurrency(s),
    decreases s.len(),
{
    if i < s.len() {
        assert(s.drop_last().take(i) == s.take(i));
        lemma_total_prefix(s.drop_last(), i);
    } else {
        assert(s.take(i) == s);
    }
}


/// The formation that leaves every replica count as it is.
pub const DEFAULT_FORMATION: &'static str = "all=1";

/// Why a formation was refused.
#[derive(PartialEq, Eq, Structural, Clone, Copy, Debug)]
pub enum FormationError {
    /// A part is not of the form `name=count` with a decimal count.
    Malformed,
    /// A part names a process type that the manifest does not define.
    UnknownProcess,
}

/// The name in a `name=count` part: the text before the first `=`.
pub open spec fn pair_name(pair: Seq<char>) -> Seq<char> {
    split(pair, '=')[0]
}

/// The count in a `name=count` part: the text after the first `=` (up to a
/// second one) read as a number.
pub open spec fn pair_count(pair: Seq<char>) -> Option<int> {
    let parts = split(pair, '=');
    if parts.len() >= 2 {
        read_unsigned(parts[1], usize::MAX as int)
    } else {
        None
    }
}

/// The parts of a formation such as `app=2, web=3`, whitespace removed.
pub open spec fn formation_pairs(f: Seq<char>) -> Seq<Seq<char>> {
    split(strip_white_space(f), ',')
}

/// The count that the last part naming `name` gives, or zero.
pub open spec fn count_for(pairs: Seq<Seq<char>>, name: Seq<char>) -> nat
    decreases pairs.len(),
{
    if pairs.len() == 0 {
        0
    } else if pair_name(pairs.last()) == name {
        match pair_count(pairs.last()) {
            Some(c) => c as nat,
            None => 0,
        }
    } else {
        count_for(pairs.drop_last(), name)
    }
}

pub open spec fn with_concurrency(t: ProcessType, c: nat) -> ProcessType {
    ProcessType { name: t.name, command: t.command, concurrency: c }
}

/// The manifest after a formation, or why the formation is refused.
///
/// `all=1` changes nothing; `all=N` gives every type `N` replicas; otherwise
/// each type gets the count of the last part that names it, or zero, and every
/// part must name a type of the manifest.
pub open spec fn apply_formation(s: Seq<ProcessType>, f: Seq<char>) -> Result<Seq<ProcessType>, FormationError> {
    let head = split(f, '=');
    if f == DEFAULT_FORMATION@ {
        Ok(s)
    } else if head[0] == "all"@ {
        match pair_count(f) {
            Some(c) => Ok(s.map_values(|t: ProcessType| with_concurrency(t, c as nat))),
            None => Err(FormationError::Malformed),
        }
    } else {
        let pairs = formation_pairs(f);
        if !(forall|i: int| 0 <= i < pairs.len() ==> (#[trigger] pair_count(pairs[i])) is Some) {
            Err(FormationError::Malformed)
        } else if !(forall|i: int| 0 <= i < pairs.len() ==> has_type(s, pair_name(#[trigger] pairs[i]))) {
            Err(FormationError::UnknownProcess)
        } else {
            Ok(s.map_values(|t: ProcessType| with_concurrency(t, count_for(pairs, t.name))))
        }
    }
}

/// Reads one `name=count` part.
fn read_pair(pair: &str) -> (r: Option<(String, usize)>)
    ensures
        r matches Some(p) ==> p.0@ == pair_name(pair@) && pair_count(pair@) == Some(p.1 as int),
        r is None ==> pair_count(pair@) is None,
{
    let parts = split_text(pair, '=');
    proof {
        lemma_split_nonempty(pair@, '=');
    }
    assert(parts@.map_values(|p: String| p@)[0] == parts@[0]@);
    if parts.len() < 2 {
        return None;
    }
    assert(parts@.map_values(|p: String| p@)[1] == parts@[1]@);
    match parse_usize(parts[1].as_str()) {
        Some(c) => Some((parts[0].clone(), c)),
        None => None,
    }
}

/// Characters allowed in a process type name.
pub open spec fn is_name_char(c: char) -> bool {
    ('A' <= c && c <= 'Z') || ('a' <= c && c <= 'z') || ('0' <= c && c <= '9') || c == '_' || c
        == '-'
}

/// Length of the leading run of name characters.
pub open spec fn name_run(s: Seq<char>) -> nat
    decreases s.len(),
{
    if s.len() > 0 && is_name_char(s[0]) {
        1 + name_run(s.drop_first())
    } else {
        0
    }
}

/// Length of the leading run of whitespace.
pub open spec fn blank_run(s: Seq<char>) -> nat
    decreases s.len(),
{
    if s.len() > 0 && is_white_space(s[0]) {
        1 + blank_run(s.drop_first())
    } else {
        0
    }
}

/// A manifest line `name: command`: a name of one or more name characters, a
/// colon, optional whitespace and a command of at least one character (when
/// only whitespace follows the colon, its last character is the command).
pub open spec fn procfile_line(l: Seq<char>) -> Option<(Seq<char>, Seq<char>)> {
    let k = name_run(l);
    if k == 0 || k >= l.len() || l[k as int] != ':' {
        None
    } else {
        let rest = l.skip(k + 1 as int);
        let w = blank_run(rest);
        if rest.len() == 0 {
            None
        } else if w < rest.len() {
            Some((l.take(k as int), rest.skip(w as int)))
        } else {
            Some((l.take(k as int), rest.skip(rest.len() - 1)))
        }
    }
}

/// A line without the carriage return of a CRLF line end.
pub open spec fn without_cr(p: Seq<char>) -> Seq<char> {
    if p.len() > 0 && p.last() == '\r' {
        p.drop_last()
    } else {
        p
    }
}

/// The lines of a manifest text, as `BufRead::lines` yields them.
pub open spec fn source_lines(text: Seq<char>) -> Seq<Seq<char>> {
    let pieces = split(text, '\n');
    Seq::new(
        pieces.len(),
        |i: int|
            if i + 1 < pieces.len() {
                without_cr(pieces[i])
            } else {
                pieces[i]
            },
    )
}

/// The `(name, command)` pairs of the lines that are process definitions.
pub open spec fn manifest_entries(lines: Seq<Seq<char>>) -> Seq<(Seq<char>, Seq<char>)>
    decreases lines.len(),
{
    if lines.len() == 0 {
        Seq::empty()
    } else {
        let e = manifest_entries(lines.drop_last());
        match procfile_line(lines.last()) {
            Some(p) => e.push(p),
            None => e,
        }
    }
}

/// The command of the last definition of `name`.
pub open spec fn last_command(entries: Seq<(Seq<char>, Seq<char>)>, name: Seq<char>) -> Option<Seq<char>>
    decreases entries.len(),
{
    if entries.len() == 0 {
        None
    } else if entries.last().0 == name {
        Some(entries.last().1)
    } else {
        last_command(entries.drop_last(), name)
    }
}

/// True when a manifest holds exactly the definitions of `entries`, the last
/// definition of a name winning, each with one replica.
pub open spec fn holds_entries(s: Seq<ProcessType>, entries: Seq<(Seq<char>, Seq<char>)>) -> bool {
    &&& forall|n: Seq<char>| has_type(s, n) <==> (#[trigger] last_command(entries, n)) is Some
    &&& forall|i: int|
        0 <= i < s.len() ==> (#[trigger] s[i]).concurrency == 1 && last_command(entries, s[i].name)
            == Some(s[i].command)
}

fn is_name_char_exec(c: char) -> (r: bool)
    ensures
        r == is_name_char(c),
{
    ('A' <= c && c <= 'Z') || ('a' <= c && c <= 'z') || ('0' <= c && c <= '9') || c == '_' || c
        == '-'
}

/// Reads one manifest line.
fn read_line(l: &str) -> (r: Option<(String, String)>)
    ensures
        r matches Some(p) ==> procfile_line(l@) == Some((p.0@, p.1@)),
        r is None ==> procfile_line(l@) is None,
{
    let n = l.unicode_len();
    let mut k: usize = 0;
    assert(l@.skip(0) == l@);
    while k < n && is_name_char_exec(l.get_char(k))
        invariant
            n == l@.len(),
            k <= n,
            name_run(l@) == k + name_run(l@.skip(k as int)),
        decreases n - k,
    {
        assert(l@.skip(k as int).drop_first() == l@.skip(k + 1));
        k = k + 1;
    }
    if k == n {
        assert(l@.skip(k as int).len() == 0);
    }
    if k == 0 || k >= n || l.get_char(k) != ':' {
        return None;
    }
    let ghost rest = l@.skip(k + 1);
    let mut w: usize = k + 1;
    assert(l@.skip(w as int) == rest);
    while w < n && is_white_space_char(l.get_char(w))
        invariant
            n == l@.len(),
            k + 1 <= w <= n,
            rest == l@.skip(k + 1),
            blank_run(rest) == (w - (k + 1)) + blank_run(l@.skip(w as int)),
        decreases n - w,
    {
        assert(l@.skip(w as int).drop_first() == l@.skip(w + 1));
        w = w + 1;
    }
    if w == n {
        assert(l@.skip(w as int).len() == 0);
    }
    if k + 1 == n {
        return None;
    }
    let name = l.substring_char(0, k).to_string();
    let start = if w < n {
        w
    } else {
        n - 1
    };
    let command = l.substring_char(start, n).to_string();
    assert(rest.skip((start - (k + 1)) as int) == l@.subrange(start as int, n as int));
    Some((name, command))
}

/// Reads a manifest: every line `name: command` defines a process type with
/// one replica; other lines are ignored, and a later definition of a name
/// replaces an earlier one.
pub fn parse_procfile(text: &str) -> (r: Procfile)
    ensures
        r.wf(),
        holds_entries(r@, manifest_entries(source_lines(text@))),
{
    let pieces = split_text(text, '\n');
    let ghost lines = source_lines(text@);
    let mut pf = Procfile::new();
    let mut i: usize = 0;
    assert(lines.take(0) == Seq::<Seq<char>>::empty());
    while i < pieces.len()
        invariant
            i <= pieces@.len(),
            lines.len() == pieces@.len(),
            lines == source_lines(text@),
            pieces@.map_values(|p: String| p@) == split(text@, '\n'),
            pf.wf(),
            holds_entries(pf@, manifest_entries(lines.take(i as int))),
        decreases pieces@.len() - i,
    {
        let piece = pieces[i].as_str();
        assert(piece@ == split(text@, '\n')[i as int]);
        let m = piece.unicode_len();
        let line = if i + 1 < pieces.len() && m > 0 && piece.get_char(m - 1) == '\r' {
            piece.substring_char(0, m - 1)
        } else {
            piece
        };
        assert(line@ == lines[i as int]);
        let ghost before = manifest_entries(lines.take(i as int));
        assert(lines.take(i + 1).drop_last() == lines.take(i as int));
        assert(lines.take(i + 1).last() == lines[i as int]);
        match read_line(line) {
            Some((name, command)) => {
                let ghost p = (name@, command@);
                let ghost after = before.push(p);
                let ghost prev = pf@;
                assert(after.drop_last() == before);
                pf.insert(name, command);
                assert forall|n: Seq<char>|
                    has_type(pf@, n) <==> (#[trigger] last_command(after, n)) is Some by {
                    assert(last_command(after, n) == if p.0 == n {
                        Some(p.1)
                    } else {
                        last_command(before, n)
                    });
                    assert(has_type(prev, n) <==> last_command(before, n) is Some);
                }
                assert forall|j: int| 0 <= j < pf@.len() implies (#[trigger] pf@[j]).concurrency == 1
                    && last_command(after, pf@[j].name) == Some(pf@[j].command) by {
                    if pf@[j].name != p.0 {
                        assert(prev.contains(pf@[j]));
                        let q = choose|q: int| 0 <= q < prev.len() && prev[q] == pf@[j];
                        assert(prev[q].concurrency == 1 && last_command(before, prev[q].name) == Some(
                            prev[q].command,
                        ));
                    }
                }
            },
            None => {},
        }
        i = i + 1;
    }
    assert(lines.take(pieces@.len() as int) == lines);
    pf
}

/// Where a name stands, or would stand, in an ordered manifest.
enum Position {
    At(usize),
    Before(usize),
}

impl Procfile {
    pub open spec fn wf(&self) -> bool {
        names_ordered(self@)
    }

    /// A manifest with no process types.
    pub fn new() -> (r: Procfile)
        ensures
            r.wf(),
            r@.len() == 0,
    {
        Procfile { data: Vec::new() }
    }

    /// Finds `name`: the index of its entry, or the index where it would go.
    fn position(&self, name: &str) -> (r: Position)
        requires
            self.wf(),
        ensures
            r matches Position::At(i) ==> i < self@.len() && self@[i as int].name == name@,
            r matches Position::Before(k) ==> k <= self@.len() && (forall|j: int|
                0 <= j < k ==> lex_lt(#[trigger] self@[j].name, name@)) && (forall|j: int|
                k <= j < self@.len() ==> lex_lt(name@, #[trigger] self@[j].name)),
    {
        let n = self.data.len();
        let mut i: usize = 0;
        while i < n
            invariant
                n == self@.len(),
                i <= n,
                self.wf(),
                forall|j: int| 0 <= j < i ==> lex_lt(#[trigger] self@[j].name, name@),
            decreases n - i,
        {
            let ord = compare_text(self.data[i].name.as_str(), name);
            assert(self.data@[i as int].model() == self@[i as int]);
            match ord {
                TextOrder::Less => {},
                TextOrder::Equal => {
                    return Position::At(i);
                },
                TextOrder::Greater => {
                    assert forall|j: int| i <= j < self@.len() implies lex_lt(
                        name@,
                        #[trigger] self@[j].name,
                    ) by {
                        if j > i {
                            lemma_lex_transitive(name@, self@[i as int].name, self@[j].name);
                        }
                    }
                    return Position::Before(i);
                },
            }
            i = i + 1;
        }
        Position::Before(n)
    }

    /// True when the manifest has a process type called `name`.
    pub fn contains(&self, name: &str) -> (r: bool)
        requires
            self.wf(),
        ensures
            r == has_type(self@, name@),
    {
        match self.position(name) {
            Position::At(_) => true,
            Position::Before(k) => {
                assert forall|j: int| 0 <= j < self@.len() implies #[trigger] self@[j].name
                    != name@ by {
                    lemma_lex_irreflexive(name@);
                }
                false
            },
        }
    }

    /// Adds a process type with one replica; a type of the same name is replaced.
    pub fn insert(&mut self, name: String, command: String)
        requires
            old(self).wf(),
        ensures
            final(self).wf(),
            forall|n: Seq<char>|
                has_type(final(self)@, n) <==> (has_type(old(self)@, n) || n == name@),
            forall|i: int|
                0 <= i < final(self)@.len() && (#[trigger] final(self)@[i]).name == name@
                    ==> final(self)@[i].command == command@ && final(self)@[i].concurrency == 1,
            forall|i: int|
                0 <= i < final(self)@.len() && (#[trigger] final(self)@[i]).name != name@
                    ==> old(self)@.contains(final(self)@[i]),
    {
        let ghost pre = self@;
        let ghost nm = name@;
        let ghost new_type = ProcessType { name: name@, command: command@, concurrency: 1 };
        let pos = self.position(name.as_str());
        let entry = ProcfileEntry { name, command, concurrency: 1 };
        assert(entry.model() == new_type);
        match pos {
            Position::At(i) => {
                self.data.set(i, entry);
                assert(self@ == pre.update(i as int, new_type));
                assert forall|n: Seq<char>|
                    has_type(self@, n) <==> (has_type(pre, n) || n == nm) by {
                    if has_type(pre, n) {
                        let j = choose|j: int| 0 <= j < pre.len() && (#[trigger] pre[j]).name == n;
                        assert(self@[j].name == n);
                    }
                    if has_type(self@, n) {
                        let j = choose|j: int| 0 <= j < self@.len() && (#[trigger] self@[j]).name == n;
                        if j != i {
                            assert(pre[j].name == n);
                        }
                    }
                    if n == nm {
                        assert(self@[i as int].name == n);
                    }
                }
                assert forall|j: int| 0 <= j < self@.len() && (#[trigger] self@[j]).name != nm
                    implies pre.contains(self@[j]) by {
                    assert(j != i);
                    assert(pre[j] == self@[j]);
                }
                assert forall|j: int| 0 <= j < self@.len() && (#[trigger] self@[j]).name == nm
                    implies j == i by {
                    lemma_lex_irreflexive(nm);
                    if j < i {
                        assert(lex_lt(pre[j].name, pre[i as int].name));
                    } else if j > i {
                        assert(lex_lt(pre[i as int].name, pre[j].name));
                    }
                }
            },
            Position::Before(k) => {
                self.data.insert(k, entry);
                assert(self@ == pre.insert(k as int, new_type));
                assert forall|a: int, b: int| 0 <= a < b < self@.len() implies lex_lt(
                    #[trigger] self@[a].name,
                    #[trigger] self@[b].name,
                ) by {
                    if b < k {
                    } else if b == k {
                    } else if a < k {
                        assert(self@[b] == pre[b - 1]);
                        lemma_lex_transitive(self@[a].name, nm, self@[b].name);
                    } else if a == k {
                        assert(self@[b] == pre[b - 1]);
                    } else {
                        assert(self@[a] == pre[a - 1]);
                        assert(self@[b] == pre[b - 1]);
                    }
                }
                assert forall|n: Seq<char>|
                    has_type(self@, n) <==> (has_type(pre, n) || n == nm) by {
                    if has_type(pre, n) {
                        let j = choose|j: int| 0 <= j < pre.len() && (#[trigger] pre[j]).name == n;
                        if j < k {
                            assert(self@[j].name == n);
                        } else {
                            assert(self@[j + 1].name == n);
                        }
                    }
                    if has_type(self@, n) {
                        let j = choose|j: int| 0 <= j < self@.len() && (#[trigger] self@[j]).name == n;
                        if j < k {
                            assert(pre[j].name == n);
                        } else if j > k {
                            assert(pre[j - 1].name == n);
                        }
                    }
                    if n == nm {
                        assert(self@[k as int].name == n);
                    }
                }
                assert forall|i: int| 0 <= i < self@.len() && (#[trigger] self@[i]).name == nm
                    implies i == k by {
                    if i < k {
                        lemma_lex_irreflexive(nm);
                    } else if i > k {
                        assert(self@[i] == pre[i - 1]);
                        lemma_lex_irreflexive(nm);
                    }
                }
                assert forall|j: int| 0 <= j < self@.len() && (#[trigger] self@[j]).name != nm
                    implies pre.contains(self@[j]) by {
                    if j < k {
                        assert(pre[j] == self@[j]);
                    } else {
                        assert(pre[j - 1] == self@[j]);
                    }
                }
            },
        }
        assert(nm == name@);
        assert(forall|n: Seq<char>| has_type(self@, n) <==> (has_type(pre, n) || n == nm));
    }

    /// The entry of the process type called `name`.
    pub fn find_by(&self, name: &str) -> (r: &ProcfileEntry)
        requires
            self.wf(),
            has_type(self@, name@),
        ensures
            r.name@ == name@,
            self@.contains(r.model()),
    {
        match self.position(name) {
            Position::At(i) => {
                assert(self@[i as int] == self.data@[i as int].model());
                &self.data[i]
            },
            Position::Before(k) => {
                // The name is present, so the scan cannot have passed it.
                let ghost j = choose|j: int| 0 <= j < self@.len() && (#[trigger] self@[j]).name == name@;
                proof {
                    lemma_lex_irreflexive(name@);
                }
                assert(false);
                &self.data[0]
            },
        }
    }

    /// Sets the replica count of every process type from a formation such as
    /// `app=2, web=3` or `all=4`; on an error nothing changes.
    pub fn set_concurrency(&mut self, formation: &str) -> (r: Result<(), FormationError>)
        requires
            old(self).wf(),
        ensures
            final(self).wf(),
            match apply_formation(old(self)@, formation@) {
                Ok(s) => r is Ok && final(self)@ == s,
                Err(e) => r == Err::<(), FormationError>(e) && final(self)@ == old(self)@,
            },
    {
        if same_text(formation, DEFAULT_FORMATION) {
            return Ok(());
        }
        let head = split_text(formation, '=');
        proof {
            lemma_split_nonempty(formation@, '=');
        }
        assert(head@.map_values(|p: String| p@)[0] == head@[0]@);
        if same_text(head[0].as_str(), "all") {
            match read_pair(formation) {
                Some((_, c)) => {
                    self.set_all(c);
                    return Ok(());
                },
                None => {
                    assert(apply_formation(old(self)@, formation@) == Err::<Seq<ProcessType>, FormationError>(FormationError::Malformed));
                    return Err(FormationError::Malformed);
                },
            }
        }
        assert(split(formation@, '=')[0] != "all"@);
        let stripped = strip_white_space_text(formation);
        let parts = split_text(stripped.as_str(), ',');
        let ghost pairs = formation_pairs(formation@);
        assert(parts@.map_values(|p: String| p@) == pairs);
        let mut read: Vec<(String, usize)> = Vec::new();
        let mut i: usize = 0;
        while i < parts.len()
            invariant
                i <= parts@.len(),
                parts@.map_values(|p: String| p@) == pairs,
                pairs == formation_pairs(formation@),
                formation@ != DEFAULT_FORMATION@,
                split(formation@, '=')[0] != "all"@,
                self@ == old(self)@,
                self.wf(),
                read@.len() == i,
                forall|j: int|
                    0 <= j < i ==> (#[trigger] read@[j]).0@ == pair_name(pairs[j]) && pair_count(
                        pairs[j],
                    ) == Some(read@[j].1 as int),
            decreases parts@.len() - i,
        {
            assert(pairs[i as int] == parts@[i as int]@);
            match read_pair(parts[i].as_str()) {
                Some(p) => {
                    read.push(p);
                },
                None => {
                    assert(!(pair_count(pairs[i as int]) is Some));
                    return Err(FormationError::Malformed);
                },
            }
            i = i + 1;
        }
        assert forall|k: int| 0 <= k < pairs.len() implies (#[trigger] pair_count(pairs[k])) is Some by {
            assert(pair_count(pairs[k]) == Some(read@[k].1 as int));
        }
        let mut j: usize = 0;
        while j < read.len()
            invariant
                forall|k: int| 0 <= k < pairs.len() ==> (#[trigger] pair_count(pairs[k])) is Some,
                j <= read@.len(),
                read@.len() == pairs.len(),
                pairs == formation_pairs(formation@),
                formation@ != DEFAULT_FORMATION@,
                split(formation@, '=')[0] != "all"@,
                self@ == old(self)@,
                self.wf(),
                forall|k: int|
                    0 <= k < read@.len() ==> (#[trigger] read@[k]).0@ == pair_name(pairs[k]) && pair_count(
                        pairs[k],
                    ) == Some(read@[k].1 as int),
                forall|k: int| 0 <= k < j ==> has_type(self@, pair_name(#[trigger] pairs[k])),
            decreases read@.len() - j,
        {
            if !self.contains(read[j].0.as_str()) {
                assert(!has_type(self@, pair_name(pairs[j as int])));
                return Err(FormationError::UnknownProcess);
            }
            j = j + 1;
        }
        self.assign_counts(&read, Ghost(pairs));
        Ok(())
    }

    /// Gives every process type `c` replicas.
    fn set_all(&mut self, c: usize)
        requires
            old(self).wf(),
        ensures
            final(self)@ == old(self)@.map_values(|t: ProcessType| with_concurrency(t, c as nat)),
            final(self).wf(),
    {
        let ghost pre = self@;
        let n = self.data.len();
        let mut k: usize = 0;
        while k < n
            invariant
                n == self@.len(),
                n == pre.len(),
                k <= n,
                forall|i: int| 0 <= i < k ==> #[trigger] self@[i] == with_concurrency(pre[i], c as nat),
                forall|i: int| k <= i < n ==> #[trigger] self@[i] == pre[i],
            decreases n - k,
        {
            assert(self@[k as int] == self.data@[k as int].model());
            let e = ProcfileEntry {
                name: self.data[k].name.clone(),
                command: self.data[k].command.clone(),
                concurrency: c,
            };
            let ghost before = self@;
            assert(e.model() == with_concurrency(pre[k as int], c as nat));
            let ghost em = e.model();
            self.data.set(k, e);
            assert(self@ == before.update(k as int, em));
            k = k + 1;
        }
        assert(self@ == pre.map_values(|t: ProcessType| with_concurrency(t, c as nat)));
    }

    /// Gives every process type the count of the last part that names it, or zero.
    fn assign_counts(&mut self, read: &Vec<(String, usize)>, pairs: Ghost<Seq<Seq<char>>>)
        requires
            old(self).wf(),
            read@.len() == pairs@.len(),
            forall|k: int|
                0 <= k < read@.len() ==> (#[trigger] read@[k]).0@ == pair_name(pairs@[k]) && pair_count(
                    pairs@[k],
                ) == Some(read@[k].1 as int),
        ensures
            final(self)@ == old(self)@.map_values(
                |t: ProcessType| with_concurrency(t, count_for(pairs@, t.name)),
            ),
            final(self).wf(),
    {
        let ghost pre = self@;
        let n = self.data.len();
        let mut k: usize = 0;
        while k < n
            invariant
                n == self@.len(),
                n == pre.len(),
                k <= n,
                read@.len() == pairs@.len(),
                forall|q: int|
                    0 <= q < read@.len() ==> (#[trigger] read@[q]).0@ == pair_name(pairs@[q]) && pair_count(
                        pairs@[q],
                    ) == Some(read@[q].1 as int),
                forall|i: int|
                    0 <= i < k ==> #[trigger] self@[i] == with_concurrency(
                        pre[i],
                        count_for(pairs@, pre[i].name),
                    ),
                forall|i: int| k <= i < n ==> #[trigger] self@[i] == pre[i],
            decreases n - k,
        {
            let mut c: usize = 0;
            let mut q: usize = 0;
            assert(self@[k as int] == self.data@[k as int].model());
            while q < read.len()
                invariant
                    q <= read@.len(),
                    read@.len() == pairs@.len(),
                    k < n,
                    n == self@.len(),
                    forall|x: int|
                        0 <= x < read@.len() ==> (#[trigger] read@[x]).0@ == pair_name(pairs@[x])
                            && pair_count(pairs@[x]) == Some(read@[x].1 as int),
                    c == count_for(pairs@.take(q as int), self.data@[k as int].name@),
                decreases read@.len() - q,
            {
                let ghost t = pairs@.take(q + 1);
                assert(t.drop_last() == pairs@.take(q as int));
                assert(t.last() == pairs@[q as int]);
                if same_text(read[q].0.as_str(), self.data[k].name.as_str()) {
                    c = read[q].1;
                }
                q = q + 1;
            }
            let ghost ps = pairs@;
            assert(q == ps.len());
            assert(ps.take(q as int) =~= ps);
            let e = ProcfileEntry {
                name: self.data[k].name.clone(),
                command: self.data[k].command.clone(),
                concurrency: c,
            };
            let ghost before = self@;
            assert(e.model() == with_concurrency(pre[k as int], count_for(pairs@, pre[k as int].name)));
            let ghost em = e.model();
            self.data.set(k, e);
            assert(self@ == before.update(k as int, em));
            k = k + 1;
        }
        assert(self@ == pre.map_values(
            |t: ProcessType| with_concurrency(t, count_for(pairs@, t.name)),
        ));
    }

    /// True when the manifest defines at least one process type.
    pub fn check(&self) -> (r: bool)
        ensures
            r == (self@.len() > 0),
    {
        self.data.len() > 0
    }

    /// Width of the name column in log lines: the longest name, in bytes, plus three.
    pub fn padding(&self) -> (r: usize)
        requires
            self@.len() > 0,
            max_name_bytes(self@) + 3 <= usize::MAX,
        ensures
            r == max_name_bytes(self@) + 3,
    {
        let n = self.data.len();
        let mut m: usize = 0;
        let mut i: usize = 0;
        while i < n
            invariant
                n == self@.len(),
                i <= n,
                m == max_name_bytes(self@.take(i as int)),
                max_name_bytes(self@) + 3 <= usize::MAX,
            decreases n - i,
        {
            let b = self.data[i].name.as_str().len();
            let ghost t = self@.take(i + 1);
            assert(t.drop_last() == self@.take(i as int));
            assert(t.last() == self.data@[i as int].model());
            proof {
                lemma_max_name_prefix(self@, i + 1);
            }
            if b > m {
                m = b;
            }
            i = i + 1;
        }
        assert(self@.take(n as int) == self@);
        m + 3
    }

    /// The number of processes the manifest runs, over all types.
    pub fn process_len(&self) -> (r: usize)
        requires
            total_concurrency(self@) <= usize::MAX,
        ensures
            r == total_concurrency(self@),
    {
        let n = self.data.len();
        let mut sum: usize = 0;
        let mut i: usize = 0;
        while i < n
            invariant
                n == self@.len(),
                i <= n,
                sum == total_concurrency(self@.take(i as int)),
                total_concurrency(self@) <= usize::MAX,
            decreases n - i,
        {
            let ghost t = self@.take(i + 1);
            assert(t.drop_last() == self@.take(i as int));
            assert(t.last() == self.data@[i as int].model());
            proof {
                lemma_total_prefix(self@, i + 1);
            }
            sum = sum + self.data[i].concurrency;
            i = i + 1;
        }
        assert(self@.take(n as int) == self@);
        sum
    }

    /// The names of the process types, in order, joined by `", "`.
    pub fn process_names(&self) -> (r: String)
        ensures
            r@ == join_names(self@.map_values(|t: ProcessType| t.name)),
    {
        let sep = ", ";
        proof {
            reveal_strlit(", ");
        }
        let n = self.data.len();
        let mut out = String::new();
        let mut i: usize = 0;
        while i < n
            invariant
                n == self@.len(),
                i <= n,
                sep@ == seq![',', ' '],
                out@ == join_names(self@.take(i as int).map_values(|t: ProcessType| t.name)),
            decreases n - i,
        {
            let ghost names = self@.take(i + 1).map_values(|t: ProcessType| t.name);
            assert(names.drop_last() == self@.take(i as int).map_values(|t: ProcessType| t.name));
            assert(names.last() == self.data@[i as int].name@);
            if i > 0 {
                out.append(sep);
            }
            out.append(self.data[i].name.as_str());
            i = i + 1;
        }
        assert(self@.take(n as int) == self@);
        out
    }
}

proof fn lemma_max_name_prefix(s: Seq<ProcessType>, i: int)
    requires
        0 <= i <= s.len(),
    ensures
        max_name_bytes(s.take(i)) <= max_name_bytes(s),
    decreases s.len(),
{
    if i < s.len() {
        assert(s.drop_last().take(i) == s.take(i));
        lemma_max_name_prefix(s.drop_last(), i);
    } else {
        assert(s.take(i) == s);
    }
}

} // verus!
