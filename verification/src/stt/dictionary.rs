//! Project-specific speech-to-text dictionaries (cc-rules).
//!
//! Each project can have a correction dictionary that maps commonly
//! misheard technical terms to their correct spelling. The dictionaries are
//! stored as TOML files named after the project slug; reading and writing
//! them is left to the caller. This module holds the ordered correction map,
//! the edits made to a dictionary, and the rules generated from code symbols.

use vstd::prelude::*;
use crate::text::{
    chars_of, contains, eq_chars, has_prefix, has_suffix, extend_str, replace_char, replaced,
    string_of, string_views, trim, trimmed, utf8_len, utf8_len_at_most,
};
use crate::unicode::{
    char_is_uppercase, char_lowercase_first, is_uppercase, lowercase, lowercase_chars,
    lowercase_first,
};

verus! {

// ============================================================================
// Ordering of keys
// ============================================================================

/// `a` comes before `b` in the order of `String` (code point by code point,
/// a proper prefix first).
pub open spec fn key_before(a: Seq<char>, b: Seq<char>) -> bool
    decreases a.len(),
{
    if a.len() == 0 {
        b.len() > 0
    } else if b.len() == 0 {
        false
    } else if a[0] != b[0] {
        a[0] < b[0]
    } else {
        key_before(a.drop_first(), b.drop_first())
    }
}

/// The order is strict: no key comes before itself.
pub proof fn lemma_key_before_irreflexive(a: Seq<char>)
    ensures
        !key_before(a, a),
    decreases a.len(),
{
    if a.len() > 0 {
        lemma_key_before_irreflexive(a.drop_first());
    }
}

/// The order is transitive.
pub proof fn lemma_key_before_transitive(a: Seq<char>, b: Seq<char>, c: Seq<char>)
    requires
        key_before(a, b),
        key_before(b, c),
    ensures
        key_before(a, c),
    decreases a.len(),
{
    if a.len() > 0 && b.len() > 0 && c.len() > 0 {
        if a[0] == b[0] && b[0] == c[0] {
            lemma_key_before_transitive(a.drop_first(), b.drop_first(), c.drop_first());
        }
    }
}

/// The order is total on distinct keys.
pub proof fn lemma_key_before_total(a: Seq<char>, b: Seq<char>)
    requires
        a != b,
    ensures
        key_before(a, b) || key_before(b, a),
    decreases a.len(),
{
    if a.len() > 0 && b.len() > 0 && a[0] == b[0] {
        if a.drop_first() == b.drop_first() {
            assert(a =~= seq![a[0]] + a.drop_first());
            assert(b =~= seq![b[0]] + b.drop_first());
            assert(a =~= b);
        } else {
            lemma_key_before_total(a.drop_first(), b.drop_first());
        }
    } else if a.len() == 0 && b.len() == 0 {
        assert(a =~= b);
    }
}

/// Whether `a` comes before `b`.
pub fn key_less(a: &[char], b: &[char]) -> (r: bool)
    ensures
        r == key_before(a@, b@),
{
    let mut i: usize = 0;
    proof {
        assert(a@.skip(0) =~= a@);
        assert(b@.skip(0) =~= b@);
    }
    while i < a.len() && i < b.len() && a[i] == b[i]
        invariant
            0 <= i <= a@.len(),
            i <= b@.len(),
            key_before(a@, b@) == key_before(a@.skip(i as int), b@.skip(i as int)),
        decreases a@.len() - i,
    {
        proof {
            assert(a@.skip(i as int).drop_first() =~= a@.skip(i + 1));
            assert(b@.skip(i as int).drop_first() =~= b@.skip(i + 1));
        }
        i = i + 1;
    }
    if i == a.len() {
        i < b.len()
    } else if i == b.len() {
        false
    } else {
        a[i] < b[i]
    }
}

// ============================================================================
// The correction map
// ============================================================================

/// The keys of a sequence of entries are in strictly increasing order.
pub open spec fn sorted_keys(es: Seq<(Seq<char>, Seq<char>)>) -> bool {
    forall|i: int, j: int| 0 <= i < j < es.len() ==> key_before(#[trigger] es[i].0, #[trigger] es[j].0)
}

/// The map that a sequence of entries with distinct keys describes.
pub open spec fn entries_map(es: Seq<(Seq<char>, Seq<char>)>) -> Map<Seq<char>, Seq<char>>
    decreases es.len(),
{
    if es.len() == 0 {
        Map::empty()
    } else {
        entries_map(es.drop_last()).insert(es.last().0, es.last().1)
    }
}

/// A map from misheard patterns to replacements, kept in key order (the
/// order of a `BTreeMap<String, String>`).
#[derive(Debug, Clone)]
pub struct CorrectionMap {
    entries: Vec<(String, String)>,
}

/// The entries of a correction map as character sequences.
pub open spec fn entries_view(v: Seq<(String, String)>) -> Seq<(Seq<char>, Seq<char>)> {
    v.map_values(|p: (String, String)| (p.0@, p.1@))
}

proof fn lemma_entries_map_domain(es: Seq<(Seq<char>, Seq<char>)>, k: Seq<char>)
    ensures
        entries_map(es).dom().contains(k) <==> exists|i: int| 0 <= i < es.len() && #[trigger] es[i].0 == k,
    decreases es.len(),
{
    if es.len() > 0 {
        lemma_entries_map_domain(es.drop_last(), k);
        if exists|i: int| 0 <= i < es.len() && #[trigger] es[i].0 == k {
            let i = choose|i: int| 0 <= i < es.len() && #[trigger] es[i].0 == k;
            if i < es.len() - 1 {
                assert(es.drop_last()[i].0 == k);
            }
        }
        if exists|i: int| 0 <= i < es.len() - 1 && #[trigger] es.drop_last()[i].0 == k {
            let i = choose|i: int| 0 <= i < es.len() - 1 && #[trigger] es.drop_last()[i].0 == k;
            assert(es[i].0 == k);
        }
    }
}

proof fn lemma_entries_map_value(es: Seq<(Seq<char>, Seq<char>)>, i: int)
    requires
        sorted_keys(es),
        0 <= i < es.len(),
    ensures
        entries_map(es).dom().contains(es[i].0),
        entries_map(es)[es[i].0] == es[i].1,
    decreases es.len(),
{
    if i < es.len() - 1 {
        assert(sorted_keys(es.drop_last()));
        lemma_entries_map_value(es.drop_last(), i);
        assert(key_before(es[i].0, es.last().0));
        lemma_key_before_irreflexive(es[i].0);
    }
}

/// Where a key stands among sorted entries: the keys before its position
/// come before it, and the keys after come after it.
proof fn lemma_sorted_prefix_split(
    es: Seq<(Seq<char>, Seq<char>)>,
    p: int,
    k: Seq<char>,
)
    requires
        sorted_keys(es),
        0 <= p <= es.len(),
        forall|i: int| 0 <= i < p ==> key_before(#[trigger] es[i].0, k),
        p < es.len() ==> !key_before(es[p].0, k),
    ensures
        forall|i: int| 0 <= i < p ==> #[trigger] es[i].0 != k,
        p < es.len() && es[p].0 != k ==> forall|i: int|
            p <= i < es.len() ==> key_before(k, #[trigger] es[i].0) && es[i].0 != k,
        p < es.len() && es[p].0 == k ==> forall|i: int| p < i < es.len() ==> #[trigger] es[i].0 != k,
        p < es.len() && es[p].0 == k ==> forall|i: int|
            0 <= i < es.len() && i != p ==> #[trigger] es[i].0 != k,
{
    lemma_key_before_irreflexive(k);
    if p < es.len() && es[p].0 != k {
        lemma_key_before_total(es[p].0, k);
        assert forall|i: int| p <= i < es.len() implies key_before(k, #[trigger] es[i].0) && es[i].0 != k by {
            if i > p {
                lemma_key_before_transitive(k, es[p].0, es[i].0);
            }
        }
    }
    if p < es.len() && es[p].0 == k {
        assert forall|i: int| 0 <= i < es.len() && i != p implies #[trigger] es[i].0 != k by {
            if i > p {
                assert(key_before(es[p].0, es[i].0));
            }
        }
    }
}

impl CorrectionMap {
    /// The entries, in key order, as character sequences.
    pub closed spec fn entries(&self) -> Seq<(Seq<char>, Seq<char>)> {
        entries_view(self.entries@)
    }

    /// The corrections as a map.
    pub open spec fn view(&self) -> Map<Seq<char>, Seq<char>> {
        entries_map(self.entries())
    }

    /// The entries are in strictly increasing key order.
    pub open spec fn wf(&self) -> bool {
        sorted_keys(self.entries())
    }

    /// An empty map.
    pub fn new() -> (m: CorrectionMap)
        ensures
            m.wf(),
            m.entries().len() == 0,
            m@ == Map::<Seq<char>, Seq<char>>::empty(),
    {
        let m = CorrectionMap { entries: Vec::new() };
        assert(m.entries() =~= Seq::<(Seq<char>, Seq<char>)>::empty());
        m
    }

    /// The number of corrections.
    pub fn len(&self) -> (n: usize)
        ensures
            n == self.entries().len(),
    {
        self.entries.len()
    }

    /// Whether there are no corrections.
    pub fn is_empty(&self) -> (b: bool)
        ensures
            b == (self.entries().len() == 0),
    {
        self.entries.len() == 0
    }

    /// The entry `i`, in key order.
    pub fn entry(&self, i: usize) -> (r: (&String, &String))
        requires
            i < self.entries().len(),
        ensures
            (r.0@, r.1@) == self.entries()[i as int],
    {
        let e = &self.entries[i];
        (&e.0, &e.1)
    }

    /// The position where `key` is or would go: every key before it comes
    /// before `key`, and the key at it (if any) does not.
    fn position(&self, key: &[char]) -> (p: usize)
        requires
            self.wf(),
        ensures
            p <= self.entries().len(),
            forall|i: int| 0 <= i < p ==> key_before(#[trigger] self.entries()[i].0, key@),
            p < self.entries().len() ==> !key_before(self.entries()[p as int].0, key@),
    {
        let ghost es = self.entries();
        let mut p: usize = 0;
        while p < self.entries.len()
            invariant
                0 <= p <= es.len(),
                es == self.entries(),
                forall|i: int| 0 <= i < p ==> key_before(#[trigger] es[i].0, key@),
            decreases es.len() - p,
        {
            let k = chars_of(self.entries[p].0.as_str());
            proof {
                assert(es[p as int].0 == k@);
            }
            if !key_less(k.as_slice(), key) {
                return p;
            }
            p = p + 1;
        }
        p
    }

    /// Whether the key at position `p` is `key`.
    fn key_at_is(&self, p: usize, key: &[char]) -> (b: bool)
        requires
            p <= self.entries().len(),
        ensures
            b == (p < self.entries().len() && self.entries()[p as int].0 == key@),
    {
        if p >= self.entries.len() {
            return false;
        }
        let k = chars_of(self.entries[p].0.as_str());
        eq_chars(k.as_slice(), key)
    }

    /// The replacement for `pattern`, if the map has it.
    pub fn get(&self, pattern: &str) -> (r: Option<&String>)
        requires
            self.wf(),
        ensures
            match r {
                Some(v) => self@.dom().contains(pattern@) && self@[pattern@] == v@,
                None => !self@.dom().contains(pattern@),
            },
    {
        let key = chars_of(pattern);
        let p = self.position(key.as_slice());
        proof {
            lemma_sorted_prefix_split(self.entries(), p as int, key@);
        }
        if self.key_at_is(p, key.as_slice()) {
            proof {
                lemma_entries_map_value(self.entries(), p as int);
            }
            Some(&self.entries[p].1)
        } else {
            proof {
                lemma_entries_map_domain(self.entries(), key@);
            }
            None
        }
    }

    /// Whether the map has `pattern`.
    pub fn contains_key(&self, pattern: &str) -> (b: bool)
        requires
            self.wf(),
        ensures
            b == self@.dom().contains(pattern@),
    {
        match self.get(pattern) {
            Some(_) => true,
            None => false,
        }
    }

    /// Sets the replacement for `pattern`, replacing any earlier one.
    pub fn insert(&mut self, pattern: String, replacement: String)
        requires
            old(self).wf(),
        ensures
            final(self).wf(),
            final(self)@ == old(self)@.insert(pattern@, replacement@),
    {
        let key = chars_of(pattern.as_str());
        let p = self.position(key.as_slice());
        let ghost es = self.entries();
        proof {
            lemma_sorted_prefix_split(es, p as int, key@);
        }
        if self.key_at_is(p, key.as_slice()) {
            self.entries.remove(p);
            self.entries.insert(p, (pattern, replacement));
            proof {
                let ns = self.entries();
                assert(ns =~= es.update(p as int, (key@, replacement@)));
                lemma_update_keeps_sorted(es, p as int, replacement@);
                lemma_entries_map_update(es, p as int, replacement@);
            }
        } else {
            self.entries.insert(p, (pattern, replacement));
            proof {
                let ns = self.entries();
                assert(ns =~= es.insert(p as int, (key@, replacement@)));
                lemma_insert_keeps_sorted(es, p as int, key@, replacement@);
                lemma_entries_map_insert(es, p as int, key@, replacement@);
            }
        }
    }

    /// Removes `pattern` and its replacement, if the map has it.
    pub fn remove(&mut self, pattern: &str)
        requires
            old(self).wf(),
        ensures
            final(self).wf(),
            final(self)@ == old(self)@.remove(pattern@),
    {
        let key = chars_of(pattern);
        let p = self.position(key.as_slice());
        let ghost es = self.entries();
        proof {
            lemma_sorted_prefix_split(es, p as int, key@);
        }
        if self.key_at_is(p, key.as_slice()) {
            self.entries.remove(p);
            proof {
                assert(self.entries() =~= es.remove(p as int));
                lemma_remove_keeps_sorted(es, p as int);
                lemma_entries_map_remove(es, p as int);
            }
        } else {
            proof {
                lemma_entries_map_domain(es, key@);
                assert(self@ =~= self@.remove(pattern@));
            }
        }
    }
}

proof fn lemma_update_keeps_sorted(es: Seq<(Seq<char>, Seq<char>)>, p: int, v: Seq<char>)
    requires
        sorted_keys(es),
        0 <= p < es.len(),
    ensures
        sorted_keys(es.update(p, (es[p].0, v))),
{
    let ns = es.update(p, (es[p].0, v));
    assert forall|i: int, j: int| 0 <= i < j < ns.len() implies key_before(#[trigger] ns[i].0, #[trigger] ns[j].0) by {
        assert(ns[i].0 == es[i].0);
        assert(ns[j].0 == es[j].0);
    }
}

proof fn lemma_entries_map_update(es: Seq<(Seq<char>, Seq<char>)>, p: int, v: Seq<char>)
    requires
        sorted_keys(es),
        0 <= p < es.len(),
    ensures
        entries_map(es.update(p, (es[p].0, v))) == entries_map(es).insert(es[p].0, v),
    decreases es.len(),
{
    let ns = es.update(p, (es[p].0, v));
    if p == es.len() - 1 {
        assert(ns.drop_last() =~= es.drop_last());
        // the last key is not among the earlier ones
        assert(entries_map(ns) =~= entries_map(es).insert(es[p].0, v));
    } else {
        assert(sorted_keys(es.drop_last()));
        lemma_entries_map_update(es.drop_last(), p, v);
        assert(ns.drop_last() =~= es.drop_last().update(p, (es[p].0, v)));
        assert(key_before(es[p].0, es.last().0));
        lemma_key_before_irreflexive(es[p].0);
        assert(entries_map(ns) =~= entries_map(es).insert(es[p].0, v));
    }
}

proof fn lemma_insert_keeps_sorted(
    es: Seq<(Seq<char>, Seq<char>)>,
    p: int,
    k: Seq<char>,
    v: Seq<char>,
)
    requires
        sorted_keys(es),
        0 <= p <= es.len(),
        forall|i: int| 0 <= i < p ==> key_before(#[trigger] es[i].0, k),
        forall|i: int| p <= i < es.len() ==> key_before(k, #[trigger] es[i].0),
    ensures
        sorted_keys(es.insert(p, (k, v))),
{
    let ns = es.insert(p, (k, v));
    assert forall|i: int, j: int| 0 <= i < j < ns.len() implies key_before(#[trigger] ns[i].0, #[trigger] ns[j].0) by {
        if j < p {
            assert(ns[i] == es[i] && ns[j] == es[j]);
        } else if j == p {
            assert(ns[i] == es[i]);
        } else if i == p {
            assert(ns[j] == es[j - 1]);
        } else if i < p {
            assert(ns[i] == es[i] && ns[j] == es[j - 1]);
        } else {
            assert(ns[i] == es[i - 1] && ns[j] == es[j - 1]);
        }
    }
}

proof fn lemma_entries_map_insert(
    es: Seq<(Seq<char>, Seq<char>)>,
    p: int,
    k: Seq<char>,
    v: Seq<char>,
)
    requires
        sorted_keys(es),
        0 <= p <= es.len(),
        forall|i: int| 0 <= i < p ==> key_before(#[trigger] es[i].0, k),
        forall|i: int| p <= i < es.len() ==> key_before(k, #[trigger] es[i].0),
    ensures
        entries_map(es.insert(p, (k, v))) == entries_map(es).insert(k, v),
    decreases es.len(),
{
    let ns = es.insert(p, (k, v));
    if p == es.len() {
        assert(ns.drop_last() =~= es);
        assert(entries_map(ns) =~= entries_map(es).insert(k, v));
    } else {
        assert(sorted_keys(es.drop_last()));
        lemma_entries_map_insert(es.drop_last(), p, k, v);
        assert(ns.drop_last() =~= es.drop_last().insert(p, (k, v)));
        assert(ns.last() == es.last());
        assert(key_before(k, es.last().0));
        lemma_key_before_irreflexive(k);
        assert(entries_map(ns) =~= entries_map(es).insert(k, v));
    }
}

proof fn lemma_remove_keeps_sorted(es: Seq<(Seq<char>, Seq<char>)>, p: int)
    requires
        sorted_keys(es),
        0 <= p < es.len(),
    ensures
        sorted_keys(es.remove(p)),
{
    let ns = es.remove(p);
    assert forall|i: int, j: int| 0 <= i < j < ns.len() implies key_before(#[trigger] ns[i].0, #[trigger] ns[j].0) by {
        if j < p {
            assert(ns[i] == es[i] && ns[j] == es[j]);
        } else if i < p {
            assert(ns[i] == es[i] && ns[j] == es[j + 1]);
        } else {
            assert(ns[i] == es[i + 1] && ns[j] == es[j + 1]);
        }
    }
}

proof fn lemma_entries_map_remove(es: Seq<(Seq<char>, Seq<char>)>, p: int)
    requires
        sorted_keys(es),
        0 <= p < es.len(),
    ensures
        entries_map(es.remove(p)) == entries_map(es).remove(es[p].0),
    decreases es.len(),
{
    let ns = es.remove(p);
    if p == es.len() - 1 {
        assert(ns =~= es.drop_last());
        lemma_entries_map_domain(es.drop_last(), es[p].0);
        if exists|i: int| 0 <= i < es.len() - 1 && #[trigger] es.drop_last()[i].0 == es[p].0 {
            let i = choose|i: int| 0 <= i < es.len() - 1 && #[trigger] es.drop_last()[i].0 == es[p].0;
            assert(key_before(es[i].0, es[p].0));
            lemma_key_before_irreflexive(es[p].0);
        }
        assert(entries_map(ns) =~= entries_map(es).remove(es[p].0));
    } else {
        assert(sorted_keys(es.drop_last()));
        lemma_entries_map_remove(es.drop_last(), p);
        assert(ns.drop_last() =~= es.drop_last().remove(p));
        assert(ns.last() == es.last());
        assert(key_before(es[p].0, es.last().0));
        lemma_key_before_irreflexive(es[p].0);
        assert(entries_map(ns) =~= entries_map(es).remove(es[p].0));
    }
}


// ============================================================================
// Phonetic forms of code symbols
// ============================================================================

/// Scans a symbol left to right: before an uppercase character that does
/// not follow another uppercase one (and is not the first), a space; each
/// uppercase character lowered. The second component says whether the last
/// character was uppercase.
pub open spec fn camel_scan(s: Seq<char>) -> (Seq<char>, bool)
    decreases s.len(),
{
    if s.len() == 0 {
        (Seq::empty(), false)
    } else {
        let (r, prev_upper) = camel_scan(s.drop_last());
        let c = s.last();
        if is_uppercase(c) {
            let spaced = if s.len() > 1 && !prev_upper { r.push(' ') } else { r };
            (spaced.push(lowercase_first(c)), true)
        } else {
            (r.push(c), false)
        }
    }
}

/// A CamelCase or PascalCase symbol as space-separated lowercase words,
/// trimmed.
pub open spec fn camel_spaced(s: Seq<char>) -> Seq<char> {
    trim(camel_scan(s).0)
}

/// Converts CamelCase/PascalCase to space-separated lowercase:
/// `KnowLoop` → `know loop`, `HTMLParser` → `htmlparser`.
pub fn camel_to_spaces(s: &str) -> (r: String)
    ensures
        r@ == camel_spaced(s@),
{
    let cs = chars_of(s);
    let mut out: Vec<char> = Vec::new();
    let mut prev_upper = false;
    let mut k: usize = 0;
    proof {
        assert(cs@.take(0) =~= Seq::<char>::empty());
    }
    while k < cs.len()
        invariant
            0 <= k <= cs@.len(),
            (out@, prev_upper) == camel_scan(cs@.take(k as int)),
        decreases cs@.len() - k,
    {
        let c = cs[k];
        proof {
            assert(cs@.take(k + 1).drop_last() =~= cs@.take(k as int));
        }
        if char_is_uppercase(c) {
            if k > 0 && !prev_upper {
                out.push(' ');
            }
            out.push(char_lowercase_first(c));
            prev_upper = true;
        } else {
            prev_upper = false;
            out.push(c);
        }
        k = k + 1;
    }
    proof {
        assert(cs@.take(k as int) =~= cs@);
    }
    let t = trimmed(out.as_slice());
    string_of(t.as_slice())
}

// ============================================================================
// Rules generated from code symbols
// ============================================================================

/// The rules one symbol adds to `m`. A symbol of fewer than four UTF-8 bytes
/// adds none. Otherwise its phonetic form maps to it where that form is not
/// empty and differs from the lowercase symbol, and a symbol with an
/// underscore also maps from its lowercase, underscore-to-space form.
pub open spec fn symbol_rules(m: Map<Seq<char>, Seq<char>>, sym: Seq<char>) -> Map<
    Seq<char>,
    Seq<char>,
> {
    if utf8_len(sym) < 4 {
        m
    } else {
        let ph = camel_spaced(sym);
        let m1 = if ph != lowercase(sym) && ph.len() > 0 {
            m.insert(ph, sym)
        } else {
            m
        };
        if sym.contains('_') {
            m1.insert(lowercase(replace_char(sym, '_', ' ')), sym)
        } else {
            m1
        }
    }
}

/// The rules generated from a list of symbols, later symbols overriding
/// earlier ones on the same pattern.
pub open spec fn generated_rules(syms: Seq<Seq<char>>) -> Map<Seq<char>, Seq<char>>
    decreases syms.len(),
{
    if syms.len() == 0 {
        Map::empty()
    } else {
        symbol_rules(generated_rules(syms.drop_last()), syms.last())
    }
}

/// Every generated rule replaces its pattern by one of the symbols, one of
/// at least four bytes.
pub proof fn lemma_generated_rules_name_symbols(syms: Seq<Seq<char>>)
    ensures
        forall|k: Seq<char>| #[trigger] generated_rules(syms).dom().contains(k) ==> exists|i: int|
            0 <= i < syms.len() && generated_rules(syms)[k] == syms[i] && utf8_len(syms[i]) >= 4,
    decreases syms.len(),
{
    if syms.len() > 0 {
        let prev = syms.drop_last();
        lemma_generated_rules_name_symbols(prev);
        let m = generated_rules(syms);
        assert forall|k: Seq<char>| #[trigger] m.dom().contains(k) implies exists|i: int|
            0 <= i < syms.len() && m[k] == syms[i] && utf8_len(syms[i]) >= 4 by {
            if m[k] == syms.last() && utf8_len(syms.last()) >= 4 {
                assert(syms[syms.len() - 1] == syms.last());
            } else {
                assert(generated_rules(prev).dom().contains(k));
                let i = choose|i: int|
                    0 <= i < prev.len() && generated_rules(prev)[k] == prev[i] && utf8_len(prev[i]) >= 4;
                assert(syms[i] == prev[i]);
            }
        }
    }
}

/// One symbol's rules keep every pattern already there, mapped to what it
/// was mapped to or to that symbol.
proof fn lemma_symbol_rules_keep(m: Map<Seq<char>, Seq<char>>, sym: Seq<char>)
    ensures
        forall|k: Seq<char>| #[trigger] m.dom().contains(k) ==> symbol_rules(m, sym).dom().contains(
            k,
        ) && (symbol_rules(m, sym)[k] == m[k] || symbol_rules(m, sym)[k] == sym),
{
}

/// Every symbol of at least four bytes with an underscore gives a rule for
/// its lowercase form with each `_` read as a space (`MAX_RETRIES` gives
/// `max retries`), mapped to that symbol or to a later one.
pub proof fn lemma_snake_rule_present(syms: Seq<Seq<char>>)
    ensures
        forall|i: int|
            0 <= i < syms.len() && utf8_len(#[trigger] syms[i]) >= 4 && syms[i].contains('_') ==> {
                let k = lowercase(replace_char(syms[i], '_', ' '));
                &&& generated_rules(syms).dom().contains(k)
                &&& exists|j: int| i <= j < syms.len() && generated_rules(syms)[k] == syms[j]
            },
    decreases syms.len(),
{
    if syms.len() > 0 {
        let prev = syms.drop_last();
        lemma_snake_rule_present(prev);
        lemma_symbol_rules_keep(generated_rules(prev), syms.last());
        let m = generated_rules(syms);
        assert forall|i: int|
            0 <= i < syms.len() && utf8_len(#[trigger] syms[i]) >= 4 && syms[i].contains(
                '_',
            ) implies ({
            let k = lowercase(replace_char(syms[i], '_', ' '));
            &&& m.dom().contains(k)
            &&& exists|j: int| i <= j < syms.len() && m[k] == syms[j]
        }) by {
            let k = lowercase(replace_char(syms[i], '_', ' '));
            if i == syms.len() - 1 {
                assert(syms[i] == syms.last());
                assert(m.dom().contains(k) && m[k] == syms[i]);
            } else {
                assert(prev[i] == syms[i]);
                assert(generated_rules(prev).dom().contains(k));
                let j = choose|j: int| i <= j < prev.len() && generated_rules(prev)[k] == prev[j];
                if m[k] == generated_rules(prev)[k] {
                    assert(syms[j] == prev[j]);
                } else {
                    assert(m[k] == syms[syms.len() - 1]);
                }
            }
        }
    }
}

/// Every symbol of at least four bytes whose phonetic form is not empty and
/// differs from its lowercase form gives a rule for that phonetic form
/// (`KnowLoop` gives `know loop`), mapped to that symbol or to a later one.
pub proof fn lemma_phonetic_rule_present(syms: Seq<Seq<char>>)
    ensures
        forall|i: int|
            0 <= i < syms.len() && utf8_len(#[trigger] syms[i]) >= 4 && camel_spaced(syms[i]).len()
                > 0 && camel_spaced(syms[i]) != lowercase(syms[i]) ==> {
                let k = camel_spaced(syms[i]);
                &&& generated_rules(syms).dom().contains(k)
                &&& exists|j: int| i <= j < syms.len() && generated_rules(syms)[k] == syms[j]
            },
    decreases syms.len(),
{
    if syms.len() > 0 {
        let prev = syms.drop_last();
        lemma_phonetic_rule_present(prev);
        lemma_symbol_rules_keep(generated_rules(prev), syms.last());
        let m = generated_rules(syms);
        assert forall|i: int|
            0 <= i < syms.len() && utf8_len(#[trigger] syms[i]) >= 4 && camel_spaced(syms[i]).len()
                > 0 && camel_spaced(syms[i]) != lowercase(syms[i]) implies ({
            let k = camel_spaced(syms[i]);
            &&& m.dom().contains(k)
            &&& exists|j: int| i <= j < syms.len() && m[k] == syms[j]
        }) by {
            let k = camel_spaced(syms[i]);
            if i == syms.len() - 1 {
                assert(syms[i] == syms.last());
                assert(m.dom().contains(k) && m[k] == syms[i]);
            } else {
                assert(prev[i] == syms[i]);
                assert(generated_rules(prev).dom().contains(k));
                let j = choose|j: int| i <= j < prev.len() && generated_rules(prev)[k] == prev[j];
                if m[k] == generated_rules(prev)[k] {
                    assert(syms[j] == prev[j]);
                } else {
                    assert(m[k] == syms[syms.len() - 1]);
                }
            }
        }
    }
}

/// Every generated pattern comes from a symbol of at least four bytes that
/// it maps to: it is the symbol's lowercase phonetic form, or, for a symbol
/// with an underscore, its lowercase form with each `_` read as a space.
pub proof fn lemma_generated_patterns_of_symbols(syms: Seq<Seq<char>>)
    ensures
        forall|k: Seq<char>| #[trigger] generated_rules(syms).dom().contains(k) ==> exists|i: int|
            0 <= i < syms.len() && generated_rules(syms)[k] == syms[i] && utf8_len(syms[i]) >= 4 && (k
                == camel_spaced(syms[i]) || (syms[i].contains('_') && k == lowercase(
                replace_char(syms[i], '_', ' '),
            ))),
    decreases syms.len(),
{
    if syms.len() > 0 {
        let prev = syms.drop_last();
        lemma_generated_patterns_of_symbols(prev);
        let m = generated_rules(syms);
        let s = syms.last();
        assert forall|k: Seq<char>| #[trigger] m.dom().contains(k) implies exists|i: int|
            0 <= i < syms.len() && m[k] == syms[i] && utf8_len(syms[i]) >= 4 && (k == camel_spaced(
                syms[i],
            ) || (syms[i].contains('_') && k == lowercase(replace_char(syms[i], '_', ' ')))) by {
            assert(syms[syms.len() - 1] == s);
            if utf8_len(s) >= 4 && ((k == camel_spaced(s) && camel_spaced(s) != lowercase(s)
                && camel_spaced(s).len() > 0) || (s.contains('_') && k == lowercase(
                replace_char(s, '_', ' '),
            ))) {
                if s.contains('_') && k == lowercase(replace_char(s, '_', ' ')) {
                    assert(m[k] == s);
                } else {
                    assert(m[k] == s);
                }
            } else {
                assert(generated_rules(prev).dom().contains(k));
                assert(m[k] == generated_rules(prev)[k]);
                let i = choose|i: int|
                    0 <= i < prev.len() && generated_rules(prev)[k] == prev[i] && utf8_len(prev[i])
                        >= 4 && (k == camel_spaced(prev[i]) || (prev[i].contains('_') && k
                        == lowercase(replace_char(prev[i], '_', ' '))));
                assert(syms[i] == prev[i]);
            }
        }
    }
}

/// Whether `s` has an underscore.
fn has_underscore(s: &[char]) -> (b: bool)
    ensures
        b == s@.contains('_'),
{
    let mut k: usize = 0;
    while k < s.len()
        invariant
            0 <= k <= s@.len(),
            forall|i: int| 0 <= i < k ==> s@[i] != '_',
        decreases s@.len() - k,
    {
        if s[k] == '_' {
            proof {
                assert(s@[k as int] == '_');
            }
            return true;
        }
        k = k + 1;
    }
    false
}

/// A correction rule: what the speech model typically outputs, and the
/// correct text.
#[derive(Debug, Clone)]
pub struct CorrectionRule {
    /// What the model outputs (e.g. `no loop`).
    pub pattern: String,
    /// The correct text (e.g. `KnowLoop`).
    pub replacement: String,
}

/// A project's full dictionary.
#[derive(Debug, Clone)]
pub struct ProjectDictionary {
    /// The project slug (the file name).
    pub project_slug: String,
    /// The corrections, pattern to replacement, in pattern order.
    pub corrections: CorrectionMap,
}

/// The number of entries whose key `m` does not have.
pub open spec fn count_new(es: Seq<(Seq<char>, Seq<char>)>, m: Map<Seq<char>, Seq<char>>) -> nat
    decreases es.len(),
{
    if es.len() == 0 {
        0
    } else {
        count_new(es.drop_last(), m) + if m.dom().contains(es.last().0) {
            0nat
        } else {
            1nat
        }
    }
}

proof fn lemma_sorted_take(es: Seq<(Seq<char>, Seq<char>)>, i: int)
    requires
        sorted_keys(es),
        0 <= i <= es.len(),
    ensures
        sorted_keys(es.take(i)),
        i < es.len() ==> !entries_map(es.take(i)).dom().contains(es[i].0),
{
    let t = es.take(i);
    assert forall|a: int, b: int| 0 <= a < b < t.len() implies key_before(
        #[trigger] t[a].0,
        #[trigger] t[b].0,
    ) by {
        assert(t[a] == es[a] && t[b] == es[b]);
    }
    if i < es.len() {
        lemma_entries_map_domain(t, es[i].0);
        if exists|j: int| 0 <= j < t.len() && #[trigger] t[j].0 == es[i].0 {
            let j = choose|j: int| 0 <= j < t.len() && #[trigger] t[j].0 == es[i].0;
            assert(t[j] == es[j]);
            assert(key_before(es[j].0, es[i].0));
            lemma_key_before_irreflexive(es[i].0);
        }
    }
}

impl ProjectDictionary {
    /// The dictionary of a project that has none yet.
    pub fn empty(project_slug: &str) -> (d: ProjectDictionary)
        ensures
            d.project_slug@ == project_slug@,
            d.corrections.wf(),
            d.corrections@ == Map::<Seq<char>, Seq<char>>::empty(),
    {
        ProjectDictionary { project_slug: project_slug.to_string(), corrections: CorrectionMap::new() }
    }

    /// Adds or updates one correction rule.
    pub fn upsert(&mut self, pattern: &str, replacement: &str)
        requires
            old(self).corrections.wf(),
        ensures
            final(self).corrections.wf(),
            final(self).project_slug == old(self).project_slug,
            final(self).corrections@ == old(self).corrections@.insert(pattern@, replacement@),
    {
        self.corrections.insert(pattern.to_string(), replacement.to_string());
    }

    /// Removes the correction rule for `pattern`, if there is one.
    pub fn remove_rule(&mut self, pattern: &str)
        requires
            old(self).corrections.wf(),
        ensures
            final(self).corrections.wf(),
            final(self).project_slug == old(self).project_slug,
            final(self).corrections@ == old(self).corrections@.remove(pattern@),
    {
        self.corrections.remove(pattern);
    }

    /// Merges generated rules into the dictionary without overwriting the
    /// rules it has; returns how many generated patterns were new.
    pub fn merge_generated(&mut self, generated: &CorrectionMap) -> (new_count: usize)
        requires
            old(self).corrections.wf(),
            generated.wf(),
        ensures
            final(self).corrections.wf(),
            final(self).project_slug == old(self).project_slug,
            final(self).corrections@ == generated@.union_prefer_right(old(self).corrections@),
            new_count == count_new(generated.entries(), old(self).corrections@),
    {
        let ghost es = generated.entries();
        let ghost base = self.corrections@;
        let mut count: usize = 0;
        let mut i: usize = 0;
        proof {
            assert(es.take(0) =~= Seq::<(Seq<char>, Seq<char>)>::empty());
            assert(entries_map(es.take(0)).union_prefer_right(base) =~= base);
        }
        while i < generated.len()
            invariant
                0 <= i <= es.len(),
                es == generated.entries(),
                sorted_keys(es),
                base == old(self).corrections@,
                self.project_slug == old(self).project_slug,
                self.corrections.wf(),
                self.corrections@ == entries_map(es.take(i as int)).union_prefer_right(base),
                count == count_new(es.take(i as int), base),
                count <= i,
            decreases es.len() - i,
        {
            let (k, v) = generated.entry(i);
            proof {
                lemma_sorted_take(es, i as int);
                assert(es.take(i + 1).drop_last() =~= es.take(i as int));
                assert(es.take(i + 1).last() == es[i as int]);
            }
            let ghost before = self.corrections@;
            if self.corrections.contains_key(k.as_str()) {
                proof {
                    assert(base.dom().contains(k@));
                    assert(entries_map(es.take(i + 1)).union_prefer_right(base) =~= before);
                }
            } else {
                self.corrections.insert(k.clone(), v.clone());
                count = count + 1;
                proof {
                    assert(entries_map(es.take(i + 1)).union_prefer_right(base)
                        =~= before.insert(k@, v@));
                }
            }
            i = i + 1;
        }
        proof {
            assert(es.take(i as int) =~= es);
        }
        count
    }
}

/// After a rule is upserted, the dictionary gives its replacement for its
/// pattern and keeps every other rule; after a rule is removed, its pattern
/// has no replacement and every other rule stays.
pub proof fn lemma_upsert_remove_lookup(
    before: ProjectDictionary,
    upserted: ProjectDictionary,
    removed: ProjectDictionary,
    pattern: Seq<char>,
    replacement: Seq<char>,
)
    requires
        upserted.corrections@ == before.corrections@.insert(pattern, replacement),
        removed.corrections@ == before.corrections@.remove(pattern),
    ensures
        upserted.corrections@.dom().contains(pattern),
        upserted.corrections@[pattern] == replacement,
        !removed.corrections@.dom().contains(pattern),
        forall|k: Seq<char>|
            k != pattern ==> (#[trigger] upserted.corrections@.dom().contains(k)
                == before.corrections@.dom().contains(k) && removed.corrections@.dom().contains(k)
                == before.corrections@.dom().contains(k)),
        forall|k: Seq<char>|
            k != pattern && #[trigger] before.corrections@.dom().contains(k) ==> upserted.corrections@[k]
                == before.corrections@[k] && removed.corrections@[k] == before.corrections@[k],
{
}

/// Manager of the project dictionaries kept in one directory.
#[derive(Debug, Clone)]
pub struct DictionaryManager {
    /// The directory of the cc-rules files.
    pub rules_dir: String,
}

/// The file name of a project's dictionary: the slug and `.toml`.
pub open spec fn toml_file_name_of(slug: Seq<char>) -> Seq<char> {
    slug + ".toml"@
}

/// The first lines of a saved dictionary file.
pub open spec fn file_header_of(slug: Seq<char>) -> Seq<char> {
    "# Murmure cc-rules for project: "@ + slug
        + "\n# Auto-managed by KnowLoop \u{2014} edit via API or settings\n\n"@
}

/// A name that is one plain path component on every platform: no `/`, no
/// `\`, no `:` (no separator and no drive prefix), and neither `.` nor `..`.
pub open spec fn plain_component(name: Seq<char>) -> bool {
    &&& !name.contains('/')
    &&& !name.contains('\\')
    &&& !name.contains(':')
    &&& name != "."@
    &&& name != ".."@
}

/// `Path::join`: the directory with a name adjoined as its last component.
/// Where the name is one plain component, the path ends with it, and it
/// begins with the directory unless the directory holds a `\` (the
/// documentation of `PathBuf::push`: a relative path extends the existing
/// one, with a separator where needed; only a verbatim `\\?\` directory is
/// normalized, which needs backslashes). Which separator comes between
/// depends on the platform and is not claimed.
#[verifier::external_body]
fn path_join(dir: &str, name: &str) -> (r: String)
    ensures
        plain_component(name@) ==> has_suffix(r@, name@),
        plain_component(name@) && !dir@.contains('\\') ==> has_prefix(r@, dir@),
{
    std::path::Path::new(dir).join(name).to_string_lossy().into_owned()
}

impl DictionaryManager {
    /// A manager of the dictionaries in `rules_dir`.
    pub fn new(rules_dir: &str) -> (m: DictionaryManager)
        ensures
            m.rules_dir@ == rules_dir@,
    {
        DictionaryManager { rules_dir: rules_dir.to_string() }
    }

    /// The file name of the dictionary of `slug`.
    pub fn toml_file_name(slug: &str) -> (r: String)
        ensures
            r@ == toml_file_name_of(slug@),
    {
        let mut v = chars_of(slug);
        extend_str(&mut v, ".toml");
        string_of(v.as_slice())
    }

    /// The path of the dictionary file of `slug` in the rules directory: for
    /// a slug without separators or drive letters it ends with the file name
    /// `{slug}.toml`, and it begins with the rules directory where that holds
    /// no `\`.
    pub fn toml_path(&self, slug: &str) -> (r: String)
        ensures
            !slug@.contains('/') && !slug@.contains('\\') && !slug@.contains(':') ==> has_suffix(
                r@,
                toml_file_name_of(slug@),
            ),
            !slug@.contains('/') && !slug@.contains('\\') && !slug@.contains(':')
                && !self.rules_dir@.contains('\\') ==> has_prefix(r@, self.rules_dir@),
    {
        let name = Self::toml_file_name(slug);
        proof {
            reveal_strlit(".toml");
            reveal_strlit(".");
            reveal_strlit("..");
            let n = toml_file_name_of(slug@);
            let t = ".toml"@;
            assert(n.len() >= 5);
            assert(n != "."@ && n != ".."@) by {
                assert("."@.len() == 1 && ".."@.len() == 2);
            }
            if !slug@.contains('/') && !slug@.contains('\\') && !slug@.contains(':') {
                assert forall|c: char| c == '/' || c == '\\' || c == ':' implies !n.contains(c) by {
                    if n.contains(c) {
                        let i = choose|i: int| 0 <= i < n.len() && n[i] == c;
                        if i < slug@.len() {
                            assert(slug@[i] == c);
                        } else {
                            assert(t[i - slug@.len()] == c);
                        }
                    }
                }
                assert(plain_component(n));
            }
        }
        path_join(self.rules_dir.as_str(), name.as_str())
    }

    /// The header written above the TOML body of a saved dictionary.
    pub fn file_header(slug: &str) -> (r: String)
        ensures
            r@ == file_header_of(slug@),
    {
        let mut v: Vec<char> = Vec::new();
        extend_str(&mut v, "# Murmure cc-rules for project: ");
        extend_str(&mut v, slug);
        extend_str(&mut v, "\n# Auto-managed by KnowLoop \u{2014} edit via API or settings\n\n");
        string_of(v.as_slice())
    }

    /// Generates correction rules from code symbols (function, type and
    /// module names): the phonetic form of a CamelCase symbol, and the
    /// spaced form of a snake_case one, each mapped to the symbol.
    pub fn generate_rules_from_symbols(symbols: &[String]) -> (rules: CorrectionMap)
        ensures
            rules.wf(),
            rules@ == generated_rules(string_views(symbols@)),
            forall|i: int|
                0 <= i < symbols@.len() && utf8_len(#[trigger] symbols@[i]@) >= 4
                    && symbols@[i]@.contains('_') ==> rules@.dom().contains(
                    lowercase(replace_char(symbols@[i]@, '_', ' ')),
                ),
    {
        let ghost syms = string_views(symbols@);
        let mut rules = CorrectionMap::new();
        let mut i: usize = 0;
        proof {
            assert(syms.take(0) =~= Seq::<Seq<char>>::empty());
        }
        while i < symbols.len()
            invariant
                0 <= i <= symbols@.len(),
                syms == string_views(symbols@),
                rules.wf(),
                rules@ == generated_rules(syms.take(i as int)),
            decreases symbols@.len() - i,
        {
            let symbol = &symbols[i];
            let sym = chars_of(symbol.as_str());
            proof {
                assert(syms.take(i + 1).drop_last() =~= syms.take(i as int));
                assert(syms[i as int] == symbol@);
            }
            if !utf8_len_at_most(sym.as_slice(), 3) {
                let phonetic = camel_to_spaces(symbol.as_str());
                let low = lowercase_chars(sym.as_slice());
                let ph = chars_of(phonetic.as_str());
                if !eq_chars(ph.as_slice(), low.as_slice()) && ph.len() > 0 {
                    rules.insert(phonetic, symbol.clone());
                }
                if has_underscore(sym.as_slice()) {
                    let spaced = replaced(sym.as_slice(), '_', ' ');
                    let spaced_low = lowercase_chars(spaced.as_slice());
                    rules.insert(string_of(spaced_low.as_slice()), symbol.clone());
                }
            }
            i = i + 1;
        }
        proof {
            assert(syms.take(i as int) =~= syms);
            lemma_snake_rule_present(syms);
            assert forall|j: int|
                0 <= j < symbols@.len() && utf8_len(#[trigger] symbols@[j]@) >= 4
                    && symbols@[j]@.contains('_') implies rules@.dom().contains(
                lowercase(replace_char(symbols@[j]@, '_', ' ')),
            ) by {
                assert(syms[j] == symbols@[j]@);
            }
        }
        rules
    }
}

} // verus!
