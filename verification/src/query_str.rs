//! The query-string view: the text after `?`, decomposed into key/value
//! pairs. Keys need not be unique in the text; a repeated key accumulates
//! all its values in encounter order.

use vstd::prelude::*;
use crate::text::{lemma_spec_find, lemma_spec_find_at, spec_find, str_eq};

verus! {

/// What one key resolves to: a key seen once keeps its single text, a key
/// seen again holds every text given for it, in encounter order.
#[derive(Debug)]
pub enum Value {
    Single(String),
    Multiple(Vec<String>),
}

/// The texts a `Value` holds, in order.
pub open spec fn value_texts(v: Value) -> Seq<Seq<char>> {
    match v {
        Value::Single(s) => seq![s@],
        Value::Multiple(vs) => Seq::new(vs@.len() as nat, |i: int| vs@[i]@),
    }
}

/// One piece of the raw text, split at its first `=`: the part before is the
/// key, the part after is the value. A piece without `=` is a key whose
/// value is the empty text.
pub open spec fn spec_split_pair(p: Seq<char>) -> (Seq<char>, Seq<char>) {
    let j = spec_find(p, '=');
    if j < p.len() {
        (p.take(j), p.skip(j + 1))
    } else {
        (p, Seq::empty())
    }
}

/// The key/value pairs of a raw query text: the text is split on every `&`,
/// and each piece is split at its first `=`, in encounter order.
pub open spec fn spec_pairs(s: Seq<char>) -> Seq<(Seq<char>, Seq<char>)>
    decreases s.len(),
    via spec_pairs_dec
{
    let i = spec_find(s, '&');
    if i < s.len() {
        seq![spec_split_pair(s.take(i))] + spec_pairs(s.skip(i + 1))
    } else {
        seq![spec_split_pair(s)]
    }
}

#[via_fn]
proof fn spec_pairs_dec(s: Seq<char>) {
    lemma_spec_find(s, '&');
}

/// First index in the grouped entries whose key is `k`, or the length when
/// no entry has that key.
pub open spec fn spec_key_index(g: Seq<(Seq<char>, Seq<Seq<char>>)>, k: Seq<char>) -> int
    decreases g.len(),
{
    if g.len() == 0 {
        0
    } else if g[0].0 == k {
        0
    } else {
        1 + spec_key_index(g.drop_first(), k)
    }
}

/// `spec_key_index` names the first entry with key `k`: it is in range and
/// lands on `k` when such an entry exists, every entry before it has another
/// key, and it is the length exactly when no entry has key `k`.
pub proof fn lemma_spec_key_index(g: Seq<(Seq<char>, Seq<Seq<char>>)>, k: Seq<char>)
    ensures
        0 <= spec_key_index(g, k) <= g.len(),
        spec_key_index(g, k) < g.len() ==> g[spec_key_index(g, k)].0 == k,
        forall|j: int| 0 <= j < spec_key_index(g, k) ==> g[j].0 != k,
    decreases g.len(),
{
    if g.len() == 0 {
    } else if g[0].0 == k {
    } else {
        lemma_spec_key_index(g.drop_first(), k);
        assert forall|j: int| 0 <= j < spec_key_index(g, k) implies g[j].0 != k by {
            if j > 0 {
                assert(g.drop_first()[j - 1] == g[j]);
            }
        }
    }
}

/// Conversely, a position before which `k` never occurs as a key, and whose
/// own key is `k` unless it is the end, is exactly `spec_key_index`.
pub proof fn lemma_spec_key_index_at(g: Seq<(Seq<char>, Seq<Seq<char>>)>, k: Seq<char>, i: int)
    requires
        0 <= i <= g.len(),
        forall|j: int| 0 <= j < i ==> g[j].0 != k,
        i < g.len() ==> g[i].0 == k,
    ensures
        spec_key_index(g, k) == i,
    decreases g.len(),
{
    if g.len() == 0 {
    } else if g[0].0 == k {
        assert(i == 0);
    } else {
        assert(i >= 1);
        assert forall|j: int| 0 <= j < i - 1 implies g.drop_first()[j].0 != k by {
            assert(g.drop_first()[j] == g[j + 1]);
        }
        assert(i - 1 < g.drop_first().len() ==> g.drop_first()[i - 1].0 == k);
        lemma_spec_key_index_at(g.drop_first(), k, i - 1);
    }
}

/// Recording one pair: a new key opens its own entry at the end, a key seen
/// before appends the value to that key's entry.
pub open spec fn spec_insert_pair(
    g: Seq<(Seq<char>, Seq<Seq<char>>)>,
    p: (Seq<char>, Seq<char>),
) -> Seq<(Seq<char>, Seq<Seq<char>>)> {
    let i = spec_key_index(g, p.0);
    if i < g.len() {
        g.update(i, (p.0, g[i].1.push(p.1)))
    } else {
        g.push((p.0, seq![p.1]))
    }
}

/// The grouped form of a pair list: keys in first-encounter order, each with
/// every value given for it, in encounter order.
pub open spec fn spec_group(ps: Seq<(Seq<char>, Seq<char>)>) -> Seq<(Seq<char>, Seq<Seq<char>>)>
    decreases ps.len(),
{
    if ps.len() == 0 {
        Seq::empty()
    } else {
        spec_insert_pair(spec_group(ps.drop_last()), ps.last())
    }
}

/// Grouping one more pair is one insertion into the grouped form.
pub proof fn lemma_group_snoc(ps: Seq<(Seq<char>, Seq<char>)>, p: (Seq<char>, Seq<char>))
    ensures
        spec_group(ps.push(p)) == spec_insert_pair(spec_group(ps), p),
{
    assert(ps.push(p).drop_last() =~= ps);
    assert(ps.push(p).last() == p);
}

/// The grouped view of the stored entries.
pub open spec fn entries_view(es: Seq<(String, Value)>) -> Seq<(Seq<char>, Seq<Seq<char>>)> {
    Seq::new(es.len(), |i: int| (es[i].0@, value_texts(es[i].1)))
}

/// Well-formed storage: keys are pairwise distinct, and `Multiple` is used
/// exactly for a key with two or more values.
pub open spec fn wf_entries(es: Seq<(String, Value)>) -> bool {
    &&& forall|i: int, j: int| 0 <= i < j < es.len() ==> es[i].0@ != es[j].0@
    &&& forall|i: int|
        0 <= i < es.len() ==> ((#[trigger] es[i].1) matches Value::Multiple(vs) ==> vs@.len()
            >= 2)
}

/// A non-owning decomposition of the text after `?`: each key of that text,
/// with the value or values it was given.
#[derive(Debug)]
pub struct QueryString {
    pub entries: Vec<(String, Value)>,
}

impl View for QueryString {
    type V = Seq<(Seq<char>, Seq<Seq<char>>)>;

    open spec fn view(&self) -> Seq<(Seq<char>, Seq<Seq<char>>)> {
        entries_view(self.entries@)
    }
}

impl QueryString {
    /// Well-formed: distinct keys, and the stored shape matches the count of
    /// values — one behind `Single`, two or more behind `Multiple`.
    pub open spec fn wf(&self) -> bool {
        wf_entries(self.entries@)
    }

    /// Builds the decomposition of `raw`, the text strictly after the first
    /// `?`: split on `&`, each piece split at its first `=`, values of a
    /// repeated key accumulated in encounter order.
    pub fn from(raw: &str) -> (q: QueryString)
        ensures
            q.wf(),
            q@ == spec_group(spec_pairs(raw@)),
    {
        let n = raw.unicode_len();
        let mut entries: Vec<(String, Value)> = Vec::new();
        let ghost mut flat: Seq<(Seq<char>, Seq<char>)> = Seq::empty();
        let mut start: usize = 0;
        let mut i: usize = 0;
        proof {
            assert(raw@.skip(0) =~= raw@);
        }
        while i < n
            invariant
                0 <= start <= i <= n,
                n == raw@.len(),
                forall|j: int| start <= j < i ==> raw@[j] != '&',
                spec_pairs(raw@) == flat + spec_pairs(raw@.skip(start as int)),
                wf_entries(entries@),
                entries_view(entries@) == spec_group(flat),
            decreases n - i,
        {
            if raw.get_char(i) == '&' {
                let (key, val) = split_piece(raw, start, i);
                proof {
                    let p = spec_split_pair(raw@.subrange(start as int, i as int));
                    lemma_pairs_cons(raw@, start as int, i as int);
                    lemma_group_snoc(flat, p);
                    assert(flat + spec_pairs(raw@.skip(start as int)) =~= (flat.push(p))
                        + spec_pairs(raw@.skip(i + 1)));
                }
                push_pair(&mut entries, key, val);
                proof {
                    flat = flat.push(spec_split_pair(raw@.subrange(start as int, i as int)));
                }
                start = i + 1;
            }
            i += 1;
        }
        let (key, val) = split_piece(raw, start, n);
        proof {
            let p = spec_split_pair(raw@.subrange(start as int, n as int));
            lemma_pairs_last(raw@, start as int);
            lemma_group_snoc(flat, p);
            assert(flat + spec_pairs(raw@.skip(start as int)) =~= flat.push(p));
        }
        push_pair(&mut entries, key, val);
        QueryString { entries }
    }

    /// The value or values recorded for `key`, when the raw text mentioned it.
    pub fn get(&self, key: &str) -> (r: Option<&Value>)
        requires
            self.wf(),
        ensures
            match r {
                Some(v) => {
                    &&& spec_key_index(self@, key@) < self@.len()
                    &&& value_texts(*v) == self@[spec_key_index(self@, key@)].1
                    &&& (*v matches Value::Single(_) <==> self@[spec_key_index(self@, key@)].1.len()
                        == 1)
                },
                None => spec_key_index(self@, key@) == self@.len(),
            },
    {
        let m = self.entries.len();
        let mut idx: usize = 0;
        while idx < m
            invariant
                0 <= idx <= m,
                m == self.entries@.len(),
                self.wf(),
                forall|t: int| 0 <= t < idx ==> self.entries@[t].0@ != key@,
            decreases m - idx,
        {
            if str_eq(self.entries[idx].0.as_str(), key) {
                proof {
                    lemma_spec_key_index_at(self@, key@, idx as int);
                }
                return Some(&self.entries[idx].1);
            }
            idx += 1;
        }
        proof {
            lemma_spec_key_index_at(self@, key@, m as int);
        }
        None
    }
}

/// Splitting at the first `&` after `start` peels one pair off the suffix.
proof fn lemma_pairs_cons(s: Seq<char>, start: int, i: int)
    requires
        0 <= start <= i < s.len(),
        s[i] == '&',
        forall|j: int| start <= j < i ==> s[j] != '&',
    ensures
        spec_pairs(s.skip(start)) == seq![spec_split_pair(s.subrange(start, i))] + spec_pairs(
            s.skip(i + 1),
        ),
{
    let t = s.skip(start);
    assert forall|j: int| 0 <= j < i - start implies t[j] != '&' by {
        assert(t[j] == s[start + j]);
    }
    assert(t[i - start] == '&');
    lemma_spec_find_at(t, '&', i - start);
    assert(t.take(i - start) =~= s.subrange(start, i));
    assert(t.skip(i - start + 1) =~= s.skip(i + 1));
}

/// A suffix without `&` is a single pair.
proof fn lemma_pairs_last(s: Seq<char>, start: int)
    requires
        0 <= start <= s.len(),
        forall|j: int| start <= j < s.len() ==> s[j] != '&',
    ensures
        spec_pairs(s.skip(start)) == seq![spec_split_pair(s.subrange(start, s.len() as int))],
{
    let t = s.skip(start);
    assert forall|j: int| 0 <= j < t.len() implies t[j] != '&' by {
        assert(t[j] == s[start + j]);
    }
    lemma_spec_find_at(t, '&', t.len() as int);
    assert(t =~= s.subrange(start, s.len() as int));
}

/// The key and value of the piece of `raw` between `start` and `end`: the
/// part before the piece's first `=` and the part after it.
fn split_piece(raw: &str, start: usize, end: usize) -> (r: (String, String))
    requires
        start <= end <= raw@.len(),
    ensures
        r.0@ == spec_split_pair(raw@.subrange(start as int, end as int)).0,
        r.1@ == spec_split_pair(raw@.subrange(start as int, end as int)).1,
{
    let ghost piece = raw@.subrange(start as int, end as int);
    let mut j: usize = start;
    while j < end
        invariant
            start <= j <= end <= raw@.len(),
            piece == raw@.subrange(start as int, end as int),
            forall|t: int| start <= t < j ==> raw@[t] != '=',
        decreases end - j,
    {
        if raw.get_char(j) == '=' {
            proof {
                assert forall|t: int| 0 <= t < j - start implies piece[t] != '=' by {
                    assert(piece[t] == raw@[start + t]);
                }
                assert(piece[j - start] == raw@[j as int]);
                lemma_spec_find_at(piece, '=', j - start);
                assert(piece.take(j - start) =~= raw@.subrange(start as int, j as int));
                assert(piece.skip(j - start + 1) =~= raw@.subrange(j + 1, end as int));
            }
            let key = raw.substring_char(start, j).to_owned();
            let val = raw.substring_char(j + 1, end).to_owned();
            return (key, val);
        }
        j += 1;
    }
    proof {
        assert forall|t: int| 0 <= t < piece.len() implies piece[t] != '=' by {
            assert(piece[t] == raw@[start + t]);
        }
        lemma_spec_find_at(piece, '=', piece.len() as int);
    }
    let key = raw.substring_char(start, end).to_owned();
    (key, String::new())
}

/// Records one key/value pair in the grouped storage: a new key is pushed as
/// a `Single` entry, a known key's entry grows by one value, `Single`
/// becoming `Multiple` at the first repeat.
fn push_pair(entries: &mut Vec<(String, Value)>, key: String, val: String)
    requires
        wf_entries(old(entries)@),
    ensures
        wf_entries(final(entries)@),
        entries_view(final(entries)@) == spec_insert_pair(
            entries_view(old(entries)@),
            (key@, val@),
        ),
{
    let ghost g0 = entries_view(entries@);
    let m = entries.len();
    let mut idx: usize = 0;
    while idx < m
        invariant
            0 <= idx <= m,
            m == entries@.len(),
            entries@ == old(entries)@,
            g0 == entries_view(entries@),
            wf_entries(entries@),
            forall|t: int| 0 <= t < idx ==> entries@[t].0@ != key@,
        decreases m - idx,
    {
        if str_eq(entries[idx].0.as_str(), key.as_str()) {
            proof {
                lemma_spec_key_index_at(g0, key@, idx as int);
            }
            let pair = entries.remove(idx);
            let ghost k0 = pair.0@;
            let newv = match pair.1 {
                Value::Single(s) => {
                    let mut vs: Vec<String> = Vec::new();
                    vs.push(s);
                    vs.push(val);
                    Value::Multiple(vs)
                },
                Value::Multiple(mut vs) => {
                    vs.push(val);
                    Value::Multiple(vs)
                },
            };
            let ghost tex = value_texts(newv);
            proof {
                assert(tex =~= g0[idx as int].1.push(val@));
            }
            entries.insert(idx, (pair.0, newv));
            proof {
                assert(entries@ =~= old(entries)@.update(idx as int, entries@[idx as int]));
                assert(entries_view(entries@) =~~= spec_insert_pair(g0, (key@, val@)));
            }
            return ;
        }
        idx += 1;
    }
    proof {
        lemma_spec_key_index_at(g0, key@, m as int);
    }
    entries.push((key, Value::Single(val)));
    proof {
        assert(entries_view(entries@) =~~= spec_insert_pair(g0, (key@, val@)));
    }
}

} // verus!
