//! The symbol table and the symbol resolver: subroutine names mapped
//! to absolute addresses by a two-pass pre-scan over the source lines.
//!
//! Built once per assembly run and read-only during encoding.  Owned
//! state passed by reference, so that one process can run several
//! assemblies independently.

use crate::strutil::{
    chars_of, copy_span, digits_end, is_ws, parse_dec_u16, skip_ws, spec_dec_val,
    spec_digits_end, spec_is_ws, spec_skip_ws,
};
use vstd::prelude::*;

verus! {

/// The address a name resolves to, searching entries front to back.
pub open spec fn spec_lookup(entries: Seq<(Vec<char>, u16)>, name: Seq<char>) -> Option<u16>
    decreases entries.len(),
{
    if entries.len() == 0 {
        None
    } else if entries[0].0@ == name {
        Some(entries[0].1)
    } else {
        spec_lookup(entries.drop_first(), name)
    }
}

/// A mapping from subroutine name to absolute memory address.
pub struct SymbolTable {
    entries: Vec<(Vec<char>, u16)>,
}

impl SymbolTable {
    pub closed spec fn view(self) -> Seq<(Vec<char>, u16)> {
        self.entries@
    }

    /// What a name resolves to in this table.
    pub open spec fn spec_get(self, name: Seq<char>) -> Option<u16> {
        spec_lookup(self@, name)
    }

    pub fn new() -> (r: SymbolTable)
        ensures
            r@ == Seq::<(Vec<char>, u16)>::empty(),
    {
        SymbolTable { entries: Vec::new() }
    }

    /// Records one name.  A name inserted twice keeps its first address.
    pub fn insert(&mut self, name: Vec<char>, addr: u16)
        ensures
            final(self)@ == old(self)@.push((name, addr)),
    {
        self.entries.push((name, addr));
    }

    pub fn contains(&self, name: &Vec<char>) -> (r: bool)
        ensures
            r == (self.spec_get(name@) is Some),
    {
        self.get(name).is_some()
    }

    /// Looks a subroutine name up.
    pub fn get(&self, name: &Vec<char>) -> (r: Option<u16>)
        ensures
            r == self.spec_get(name@),
    {
        let mut i: usize = 0;
        proof {
            assert(self.entries@.subrange(0, self.entries@.len() as int) =~= self.entries@);
        }
        while i < self.entries.len()
            invariant
                i <= self.entries@.len(),
                spec_lookup(self.entries@, name@) == spec_lookup(
                    self.entries@.subrange(i as int, self.entries@.len() as int),
                    name@,
                ),
            decreases self.entries@.len() - i,
        {
            let ghost pre = self.entries@.subrange(i as int, self.entries@.len() as int);
            if vec_chars_eq(&self.entries[i].0, name) {
                return Some(self.entries[i].1);
            }
            proof {
                assert(pre.drop_first() =~= self.entries@.subrange(
                    i + 1,
                    self.entries@.len() as int,
                ));
            }
            i = i + 1;
        }
        None
    }

    /// How many names are recorded.
    pub fn len(&self) -> (r: usize)
        ensures
            r == self@.len(),
    {
        self.entries.len()
    }

    /// The entry at an index, for a caller that walks the table.
    pub fn entry(&self, i: usize) -> (r: (Vec<char>, u16))
        requires
            i < self@.len(),
        ensures
            r.0@ == self@[i as int].0@,
            r.1 == self@[i as int].1,
    {
        let e = &self.entries[i];
        (e.0.clone(), e.1)
    }

    /// No name stands in the table twice.
    pub open spec fn unique_names(self) -> bool {
        forall|i: int, j: int|
            0 <= i < j < self@.len() ==> self@[i].0@ != self@[j].0@
    }

    /// The table's entries as plain name text and address pairs.
    pub open spec fn entries_view(self) -> Seq<(Seq<char>, u16)> {
        Seq::new(self@.len(), |i: int| (self@[i].0@, self@[i].1))
    }
}

/// Whether two character vectors hold the same text.
fn vec_chars_eq(a: &Vec<char>, b: &Vec<char>) -> (r: bool)
    ensures
        r == (a@ == b@),
{
    if a.len() != b.len() {
        return false;
    }
    let mut i: usize = 0;
    while i < a.len()
        invariant
            i <= a@.len(),
            a@.len() == b@.len(),
            forall|k: int| 0 <= k < i ==> a@[k] == b@[k],
        decreases a@.len() - i,
    {
        if a[i] != b[i] {
            return false;
        }
        i = i + 1;
    }
    proof {
        assert(a@ =~= b@);
    }
    true
}

/// The position where a line's comment begins: its first `;`, or the
/// line's length.
pub open spec fn spec_semi_end(s: Seq<char>, j: int) -> int
    decreases s.len() - j,
{
    if j < 0 || j >= s.len() || s[j] == ';' {
        j
    } else {
        spec_semi_end(s, j + 1)
    }
}

fn semi_end(s: &Vec<char>, j: usize) -> (r: usize)
    requires
        j <= s@.len(),
    ensures
        r == spec_semi_end(s@, j as int),
        j <= r <= s@.len(),
    decreases s@.len() - j,
{
    if j >= s.len() || s[j] == ';' {
        j
    } else {
        semi_end(s, j + 1)
    }
}

/// The end of a span after trailing whitespace is dropped, never
/// moving below `start`.
pub open spec fn spec_trim_hi(s: Seq<char>, start: int, end: int) -> int
    decreases end,
{
    if end <= start || end <= 0 || end > s.len() || !spec_is_ws(s[end - 1]) {
        end
    } else {
        spec_trim_hi(s, start, end - 1)
    }
}

fn trim_hi(s: &Vec<char>, start: usize, end: usize) -> (r: usize)
    requires
        start <= end <= s@.len(),
    ensures
        r == spec_trim_hi(s@, start as int, end as int),
        start <= r <= end,
    decreases end,
{
    if end <= start || !is_ws(s[end - 1]) {
        end
    } else {
        trim_hi(s, start, end - 1)
    }
}

/// The comment-stripped, trimmed text of one source line.
pub open spec fn spec_trimmed(s: Seq<char>) -> Seq<char> {
    let e0 = spec_semi_end(s, 0);
    let lo = spec_skip_ws(s, e0, 0);
    let hi = spec_trim_hi(s, lo, e0);
    s.subrange(lo, hi)
}

fn trimmed_line(line: &str) -> (r: Vec<char>)
    ensures
        r@ == spec_trimmed(line@),
{
    let cs = chars_of(line);
    let e0 = semi_end(&cs, 0);
    let lo = skip_ws(&cs, e0, 0);
    let hi = trim_hi(&cs, lo, e0);
    copy_span(&cs, lo, hi)
}

/// Whether any character of a span is whitespace.
pub open spec fn spec_has_ws(s: Seq<char>) -> bool {
    exists|k: int| 0 <= k < s.len() && spec_is_ws(s[k])
}

/// The start of the trailing run of colons that ends at `end`.
pub open spec fn spec_colon_start(s: Seq<char>, end: int) -> int
    decreases end,
{
    if end <= 0 || end > s.len() || s[end - 1] != ':' {
        end
    } else {
        spec_colon_start(s, end - 1)
    }
}

fn colon_start(s: &Vec<char>, end: usize) -> (r: usize)
    requires
        end <= s@.len(),
    ensures
        r == spec_colon_start(s@, end as int),
        r <= end,
    decreases end,
{
    if end == 0 || s[end - 1] != ':' {
        end
    } else {
        colon_start(s, end - 1)
    }
}

/// The subroutine name a bare declaration line records: the trimmed
/// text ends with `:` and holds no inner whitespace; the name is the
/// text before the trailing colons.  Any other line declares nothing.
pub open spec fn spec_decl_name(t: Seq<char>) -> Option<Seq<char>> {
    if t.len() == 0 || t.last() != ':' || spec_has_ws(t) {
        None
    } else {
        Some(t.subrange(0, spec_colon_start(t, t.len() as int)))
    }
}

fn decl_name(t: &Vec<char>) -> (r: Option<Vec<char>>)
    ensures
        match r {
            Some(nm) => spec_decl_name(t@) == Some(nm@),
            None => spec_decl_name(t@) is None,
        },
{
    if t.len() == 0 {
        return None;
    }
    if t[t.len() - 1] != ':' {
        return None;
    }
    let mut i: usize = 0;
    while i < t.len()
        invariant
            i <= t@.len(),
            forall|k: int| 0 <= k < i ==> !spec_is_ws(t@[k]),
        decreases t@.len() - i,
    {
        if is_ws(t[i]) {
            return None;
        }
        i = i + 1;
    }
    let end = colon_start(t, t.len());
    Some(copy_span(t, 0, end))
}

/// Whether a trimmed line is a `.start` directive line.
pub open spec fn spec_is_start(t: Seq<char>) -> bool {
    t.len() >= 6 && t[0] == '.' && t[1] == 's' && t[2] == 't' && t[3] == 'a' && t[4] == 'r'
        && t[5] == 't'
}

/// How many `.start` directive lines a source holds.
pub open spec fn spec_start_count(lines: Seq<String>) -> int
    decreases lines.len(),
{
    if lines.len() == 0 {
        0
    } else {
        spec_start_count(lines.drop_last()) + if spec_is_start(spec_trimmed(lines.last()@)) {
            1int
        } else {
            0int
        }
    }
}

/// The load address a `.start` line configures: its second field, an
/// optional `$` and an optional opening bracket stripped, read in
/// decimal.  `None` when no address can be read.
pub open spec fn spec_start_val(t: Seq<char>) -> Option<u16> {
    let p1 = spec_skip_ws(t, t.len() as int, 6);
    let p2 = if p1 < t.len() && t[p1] == '$' {
        p1 + 1
    } else {
        p1
    };
    let p3 = if p2 < t.len() && t[p2] == '[' {
        p2 + 1
    } else {
        p2
    };
    let e = spec_digits_end(t, p3);
    let v = spec_dec_val(t.subrange(p3, e));
    if e == p3 || v > u16::MAX {
        None
    } else {
        Some(v as u16)
    }
}

/// The configured address of the last `.start` line, if any; the inner
/// option is that line's readable address.
pub open spec fn spec_last_start(lines: Seq<String>) -> Option<Option<u16>>
    decreases lines.len(),
{
    if lines.len() == 0 {
        None
    } else if spec_is_start(spec_trimmed(lines.last()@)) {
        Some(spec_start_val(spec_trimmed(lines.last()@)))
    } else {
        spec_last_start(lines.drop_last())
    }
}

/// Once a prefix holds two `.start` lines, so does the source.
proof fn lemma_start_count_grows(lines: Seq<String>, i: int)
    requires
        0 <= i <= lines.len(),
        spec_start_count(lines.subrange(0, i)) >= 2,
    ensures
        spec_start_count(lines) >= 2,
    decreases lines.len() - i,
{
    if i == lines.len() {
        assert(lines.subrange(0, i) =~= lines);
    } else {
        assert(lines.subrange(0, i + 1).drop_last() =~= lines.subrange(0, i));
        lemma_start_count_grows(lines, i + 1);
    }
}

/// When no `.start` line follows a prefix, the prefix's last `.start`
/// is the source's last.
proof fn lemma_last_start_prefix(lines: Seq<String>, i: int)
    requires
        0 <= i <= lines.len(),
        spec_start_count(lines) == spec_start_count(lines.subrange(0, i)),
        spec_start_count(lines.subrange(0, i)) >= 0,
    ensures
        spec_last_start(lines) == spec_last_start(lines.subrange(0, i)),
    decreases lines.len() - i,
{
    if i == lines.len() {
        assert(lines.subrange(0, i) =~= lines);
    } else {
        assert(lines.subrange(0, i + 1).drop_last() =~= lines.subrange(0, i));
        lemma_start_count_nonneg(lines, i + 1);
        if spec_is_start(spec_trimmed(lines.subrange(0, i + 1).last()@)) {
            lemma_start_count_mono(lines, i + 1);
            assert(false);
        }
        lemma_last_start_prefix(lines, i + 1);
    }
}

/// A prefix never holds more `.start` lines than the source.
proof fn lemma_start_count_mono(lines: Seq<String>, i: int)
    requires
        0 <= i <= lines.len(),
    ensures
        spec_start_count(lines.subrange(0, i)) <= spec_start_count(lines),
    decreases lines.len() - i,
{
    if i == lines.len() {
        assert(lines.subrange(0, i) =~= lines);
    } else {
        assert(lines.subrange(0, i + 1).drop_last() =~= lines.subrange(0, i));
        lemma_start_count_mono(lines, i + 1);
    }
}

/// `.start` counts are never negative.
proof fn lemma_start_count_nonneg(lines: Seq<String>, i: int)
    requires
        0 <= i <= lines.len(),
    ensures
        spec_start_count(lines.subrange(0, i)) >= 0,
    decreases i,
{
    if i > 0 {
        assert(lines.subrange(0, i).drop_last() =~= lines.subrange(0, i - 1));
        lemma_start_count_nonneg(lines, i - 1);
    }
}

/// Pass one of the resolver: finds the `.start` directive and returns
/// the configured load address, 0 when absent.  More than one `.start`
/// is an error, and so is an unreadable address.
pub fn process_start(lines: &Vec<String>) -> (r: Result<u16, String>)
    ensures
        ({
            let n = spec_start_count(lines@);
            if n == 0 {
                r == Ok::<u16, String>(0u16)
            } else if n >= 2 {
                r is Err
            } else {
                match spec_last_start(lines@) {
                    Some(Some(v)) => r == Ok::<u16, String>(v),
                    Some(None) => r is Err,
                    None => false,
                }
            }
        }),
{
    let mut found = false;
    let mut start: u16 = 0;
    let mut li: usize = 0;
    proof {
        lemma_start_count_nonneg(lines@, lines@.len() as int);
    }
    while li < lines.len()
        invariant
            li <= lines@.len(),
            0 <= spec_start_count(lines@.subrange(0, li as int)) <= 1,
            found == (spec_start_count(lines@.subrange(0, li as int)) == 1),
            match spec_last_start(lines@.subrange(0, li as int)) {
                None => !found && start == 0,
                Some(inner) => found && inner == Some(start),
            },
        decreases lines@.len() - li,
    {
        let t = trimmed_line(lines[li].as_str());
        proof {
            assert(lines@.subrange(0, li + 1).drop_last() =~= lines@.subrange(0, li as int));
            assert(lines@.subrange(0, li + 1).last() == lines@[li as int]);
        }
        let is_start_line = t.len() >= 6 && t[0] == '.' && t[1] == 's' && t[2] == 't' && t[3]
            == 'a' && t[4] == 'r' && t[5] == 't';
        if is_start_line {
            if found {
                proof {
                    lemma_start_count_grows(lines@, li + 1);
                }
                return Err("more than one .start directive".to_owned());
            }
            found = true;
            let p1 = skip_ws(&t, t.len(), 6);
            let p2 = if p1 < t.len() && t[p1] == '$' {
                p1 + 1
            } else {
                p1
            };
            let p3 = if p2 < t.len() && t[p2] == '[' {
                p2 + 1
            } else {
                p2
            };
            let e = digits_end(&t, p3);
            let digits = copy_span(&t, p3, e);
            match parse_dec_u16(&digits) {
                Some(v) => {
                    start = v;
                },
                None => {
                    proof {
                        if spec_start_count(lines@) >= 2 {
                        } else {
                            lemma_start_count_mono(lines@, li + 1);
                            lemma_last_start_prefix(lines@, li + 1);
                        }
                    }
                    return Err("the .start directive needs a readable address".to_owned());
                },
            }
        }
        li = li + 1;
    }
    proof {
        assert(lines@.subrange(0, lines@.len() as int) =~= lines@);
    }
    Ok(start)
}

/// The table and running counter after the resolver's second pass has
/// walked the lines: a bare declaration records its name at the
/// current counter without advancing it; every other non-blank,
/// non-comment, non-directive line advances the counter by one.
pub open spec fn spec_resolve_state(lines: Seq<String>, start: int) -> (Seq<(Seq<char>, u16)>, int)
    decreases lines.len(),
{
    if lines.len() == 0 {
        (Seq::empty(), start)
    } else {
        let prev = spec_resolve_state(lines.drop_last(), start);
        let t = spec_trimmed(lines.last()@);
        if t.len() > 0 && t[0] != '.' {
            match spec_decl_name(t) {
                Some(nm) => (prev.0.push((nm, prev.1 as u16)), prev.1),
                None => (
                    prev.0,
                    if prev.1 < u32::MAX {
                        prev.1 + 1
                    } else {
                        prev.1
                    },
                ),
            }
        } else {
            prev
        }
    }
}

/// Whether a name already stands among recorded entries.
pub open spec fn spec_has_name(entries: Seq<(Seq<char>, u16)>, name: Seq<char>) -> bool {
    exists|i: int| 0 <= i < entries.len() && entries[i].0 == name
}

/// Whether the second pass succeeds: no declaration repeats a name
/// already recorded.
pub open spec fn spec_resolve_ok(lines: Seq<String>, start: int) -> bool
    decreases lines.len(),
{
    if lines.len() == 0 {
        true
    } else {
        let prevok = spec_resolve_ok(lines.drop_last(), start);
        let prev = spec_resolve_state(lines.drop_last(), start);
        let t = spec_trimmed(lines.last()@);
        if t.len() > 0 && t[0] != '.' {
            match spec_decl_name(t) {
                Some(nm) => prevok && !spec_has_name(prev.0, nm),
                None => prevok,
            }
        } else {
            prevok
        }
    }
}

/// A failed prefix never recovers.
proof fn lemma_resolve_ok_prefix(lines: Seq<String>, start: int, i: int)
    requires
        0 <= i <= lines.len(),
        !spec_resolve_ok(lines.subrange(0, i), start),
    ensures
        !spec_resolve_ok(lines, start),
    decreases lines.len() - i,
{
    if i == lines.len() {
        assert(lines.subrange(0, i) =~= lines);
    } else {
        assert(lines.subrange(0, i + 1).drop_last() =~= lines.subrange(0, i));
        lemma_resolve_ok_prefix(lines, start, i + 1);
    }
}

/// A resolved name stands in some entry.
proof fn lemma_lookup_some_present(entries: Seq<(Vec<char>, u16)>, name: Seq<char>)
    requires
        spec_lookup(entries, name) is Some,
    ensures
        exists|i: int| 0 <= i < entries.len() && entries[i].0@ == name,
    decreases entries.len(),
{
    if entries.len() > 0 && entries[0].0@ != name {
        lemma_lookup_some_present(entries.drop_first(), name);
        let j = choose|j: int|
            0 <= j < entries.drop_first().len() && entries.drop_first()[j].0@ == name;
        assert(entries[j + 1].0@ == name);
    }
}

/// Pass two of the resolver: walks the lines with a running address
/// counter seeded at the load address.  A bare subroutine declaration
/// records its name at the current counter and does not advance it;
/// every other non-directive, non-blank, non-comment line advances the
/// counter by one.  A duplicate subroutine name is an error, raised
/// before any encoding can begin; on success the table holds exactly
/// the declared names at their addresses, each name once.
pub fn load_subroutines(lines: &Vec<String>, start: u16) -> (r: Result<SymbolTable, String>)
    ensures
        (r is Ok) == spec_resolve_ok(lines@, start as int),
        r matches Ok(tab) ==> tab.entries_view() == spec_resolve_state(lines@, start as int).0,
        r matches Ok(tab) ==> tab.unique_names(),
{
    let mut tab = SymbolTable::new();
    let mut counter: u32 = start as u32;
    let mut li: usize = 0;
    proof {
        assert(tab.entries_view() =~= spec_resolve_state(
            lines@.subrange(0, 0),
            start as int,
        ).0);
    }
    while li < lines.len()
        invariant
            li <= lines@.len(),
            tab.unique_names(),
            spec_resolve_ok(lines@.subrange(0, li as int), start as int),
            tab.entries_view() == spec_resolve_state(lines@.subrange(0, li as int), start as int).0,
            counter as int == spec_resolve_state(lines@.subrange(0, li as int), start as int).1,
        decreases lines@.len() - li,
    {
        let t = trimmed_line(lines[li].as_str());
        proof {
            assert(lines@.subrange(0, li + 1).drop_last() =~= lines@.subrange(0, li as int));
            assert(lines@.subrange(0, li + 1).last() == lines@[li as int]);
        }
        if t.len() > 0 && t[0] != '.' {
            match decl_name(&t) {
                Some(name) => {
                    if tab.contains(&name) {
                        proof {
                            lemma_lookup_some_present(tab@, name@);
                            let j = choose|j: int|
                                0 <= j < tab@.len() && tab@[j].0@ == name@;
                            assert(tab.entries_view()[j].0 == name@);
                            assert(spec_has_name(tab.entries_view(), name@));
                            assert(!spec_resolve_ok(lines@.subrange(0, li + 1), start as int));
                            lemma_resolve_ok_prefix(lines@, start as int, li + 1);
                        }
                        return Err("duplicate subroutine declaration".to_owned());
                    }
                    proof {
                        lemma_lookup_none_absent(tab@, name@);
                    }
                    let ghost old_tab = tab;
                    tab.insert(name, #[verifier::truncate] (counter as u16));
                    proof {
                        assert(tab.entries_view() =~= old_tab.entries_view().push(
                            (tab@.last().0@, tab@.last().1),
                        ));
                    }
                },
                None => {
                    if counter < u32::MAX {
                        counter = counter + 1;
                    }
                },
            }
        }
        li = li + 1;
    }
    proof {
        assert(lines@.subrange(0, lines@.len() as int) =~= lines@);
    }
    Ok(tab)
}

/// A name the table does not resolve stands in no entry.
proof fn lemma_lookup_none_absent(entries: Seq<(Vec<char>, u16)>, name: Seq<char>)
    requires
        spec_lookup(entries, name) is None,
    ensures
        forall|i: int| 0 <= i < entries.len() ==> entries[i].0@ != name,
    decreases entries.len(),
{
    if entries.len() > 0 {
        lemma_lookup_none_absent(entries.drop_first(), name);
        assert(forall|i: int|
            1 <= i < entries.len() ==> entries[i] == entries.drop_first()[i - 1]);
    }
}

/// Advances the running memory counter by one word.
pub fn update_memory_counter(counter: &mut u32)
    requires
        *old(counter) < u32::MAX,
    ensures
        *final(counter) == *old(counter) + 1,
{
    *counter = *counter + 1;
}

} // verus!
