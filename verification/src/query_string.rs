//! Query-string parsing: a raw query component (the text after `?`)
//! becomes a mapping from keys to values, where a key that occurs more
//! than once collects its values into an ordered sequence.

use vstd::prelude::*;
use crate::text::{find2, find_char2, lemma_find2_spec, str_eq};

verus! {

/// The value bound to a query key: one string, or the ordered values of
/// a repeated key.
#[derive(Debug)]
pub enum Value {
    Single(String),
    Multiple(Vec<String>),
}

/// The mathematical model of a `Value`.
#[verifier::ext_equal]
pub enum ValueModel {
    Single(Seq<char>),
    Multiple(Seq<Seq<char>>),
}

impl View for Value {
    type V = ValueModel;

    open spec fn view(&self) -> ValueModel {
        match self {
            Value::Single(s) => ValueModel::Single(s@),
            Value::Multiple(vs) => ValueModel::Multiple(vs.deep_view()),
        }
    }
}

/// A parsed query string. Its model is the sequence of key/value
/// entries in first-occurrence order; keys never repeat.
pub struct QueryString {
    data: Vec<(String, Value)>,
}

/// The model of a sequence of owned entries.
pub open spec fn entries_view(data: Seq<(String, Value)>) -> Seq<(Seq<char>, ValueModel)> {
    data.map_values(|p: (String, Value)| (p.0@, p.1@))
}

impl View for QueryString {
    type V = Seq<(Seq<char>, ValueModel)>;

    closed spec fn view(&self) -> Seq<(Seq<char>, ValueModel)> {
        entries_view(self.data@)
    }
}

/// Splits one `&`-delimited fragment at its first `=`: the key is the
/// text before it and the value the text after it. A fragment without
/// `=` is all key, with the empty value.
pub open spec fn frag_split(f: Seq<char>) -> (Seq<char>, Seq<char>) {
    let i = find2(f, '=', '=');
    if i < 0 {
        (f, Seq::empty())
    } else {
        (f.subrange(0, i), f.subrange(i + 1, f.len() as int))
    }
}

/// The value a key holds after one more occurrence: a single value
/// grows into a two-element sequence, a sequence appends.
pub open spec fn add_value(v: ValueModel, new: Seq<char>) -> ValueModel {
    match v {
        ValueModel::Single(prev) => ValueModel::Multiple(seq![prev, new]),
        ValueModel::Multiple(vs) => ValueModel::Multiple(vs.push(new)),
    }
}

/// Inserts one key/value pair into the entry sequence: a new key goes
/// to the end as a single value; a present key keeps its place and
/// collects the value.
pub open spec fn insert_kv(
    m: Seq<(Seq<char>, ValueModel)>,
    key: Seq<char>,
    value: Seq<char>,
) -> Seq<(Seq<char>, ValueModel)>
    decreases m.len(),
{
    if m.len() == 0 {
        seq![(key, ValueModel::Single(value))]
    } else if m[0].0 == key {
        seq![(m[0].0, add_value(m[0].1, value))] + m.drop_first()
    } else {
        seq![m[0]] + insert_kv(m.drop_first(), key, value)
    }
}

/// Parses the query text `s` into entries, starting from the entries
/// `m` already seen: each `&`-delimited fragment is split at its first
/// `=` and inserted in turn.
pub open spec fn parse_qs_from(
    m: Seq<(Seq<char>, ValueModel)>,
    s: Seq<char>,
) -> Seq<(Seq<char>, ValueModel)>
    decreases s.len(),
    via parse_qs_from_decreases
{
    let i = find2(s, '&', '&');
    if i < 0 {
        insert_kv(m, frag_split(s).0, frag_split(s).1)
    } else {
        parse_qs_from(
            insert_kv(m, frag_split(s.subrange(0, i)).0, frag_split(s.subrange(0, i)).1),
            s.subrange(i + 1, s.len() as int),
        )
    }
}

#[via_fn]
proof fn parse_qs_from_decreases(m: Seq<(Seq<char>, ValueModel)>, s: Seq<char>) {
    lemma_find2_spec(s, '&', '&');
}

/// The entries that the query text `s` parses to. The empty text has
/// one fragment, the empty string, so it maps the empty key to the
/// single empty value.
pub open spec fn parse_qs(s: Seq<char>) -> Seq<(Seq<char>, ValueModel)> {
    parse_qs_from(Seq::empty(), s)
}

/// The value bound to `key` among the entries, by exact key match.
pub open spec fn lookup(m: Seq<(Seq<char>, ValueModel)>, key: Seq<char>) -> Option<ValueModel>
    decreases m.len(),
{
    if m.len() == 0 {
        None
    } else if m[0].0 == key {
        Some(m[0].1)
    } else {
        lookup(m.drop_first(), key)
    }
}

/// No two entries share a key.
pub open spec fn keys_unique(m: Seq<(Seq<char>, ValueModel)>) -> bool {
    forall|i: int, j: int| 0 <= i < j < m.len() ==> m[i].0 != m[j].0
}

/// Inserting at a present key rewrites that entry in place.
proof fn lemma_insert_kv_found(
    m: Seq<(Seq<char>, ValueModel)>,
    key: Seq<char>,
    value: Seq<char>,
    j: int,
)
    requires
        0 <= j < m.len(),
        m[j].0 == key,
        forall|k: int| 0 <= k < j ==> m[k].0 != key,
    ensures
        insert_kv(m, key, value) == m.update(j, (m[j].0, add_value(m[j].1, value))),
    decreases j,
{
    if j == 0 {
        assert(insert_kv(m, key, value) =~~= m.update(0, (m[0].0, add_value(m[0].1, value))));
    } else {
        assert forall|k: int| 0 <= k < j - 1 implies m.drop_first()[k].0 != key by {
            assert(m.drop_first()[k] == m[k + 1]);
        }
        lemma_insert_kv_found(m.drop_first(), key, value, j - 1);
        assert(insert_kv(m, key, value) =~~= m.update(j, (m[j].0, add_value(m[j].1, value))));
    }
}

/// Inserting an absent key appends a single-valued entry.
proof fn lemma_insert_kv_absent(m: Seq<(Seq<char>, ValueModel)>, key: Seq<char>, value: Seq<char>)
    requires
        forall|k: int| 0 <= k < m.len() ==> m[k].0 != key,
    ensures
        insert_kv(m, key, value) == m.push((key, ValueModel::Single(value))),
    decreases m.len(),
{
    if m.len() == 0 {
        assert(insert_kv(m, key, value) =~~= m.push((key, ValueModel::Single(value))));
    } else {
        assert forall|k: int| 0 <= k < m.drop_first().len() implies m.drop_first()[k].0 != key by {
            assert(m.drop_first()[k] == m[k + 1]);
        }
        lemma_insert_kv_absent(m.drop_first(), key, value);
        assert(insert_kv(m, key, value) =~~= m.push((key, ValueModel::Single(value))));
    }
}

/// `lookup` finds the first (and, with unique keys, only) match.
proof fn lemma_lookup_found(m: Seq<(Seq<char>, ValueModel)>, key: Seq<char>, j: int)
    requires
        0 <= j < m.len(),
        m[j].0 == key,
        forall|k: int| 0 <= k < j ==> m[k].0 != key,
    ensures
        lookup(m, key) == Some(m[j].1),
    decreases j,
{
    if j == 0 {
    } else {
        assert forall|k: int| 0 <= k < j - 1 implies m.drop_first()[k].0 != key by {
            assert(m.drop_first()[k] == m[k + 1]);
        }
        assert(m.drop_first()[j - 1] == m[j]);
        lemma_lookup_found(m.drop_first(), key, j - 1);
    }
}

/// `lookup` of an absent key is `None`.
proof fn lemma_lookup_absent(m: Seq<(Seq<char>, ValueModel)>, key: Seq<char>)
    requires
        forall|k: int| 0 <= k < m.len() ==> m[k].0 != key,
    ensures
        lookup(m, key) is None,
    decreases m.len(),
{
    if m.len() == 0 {
    } else {
        assert forall|k: int| 0 <= k < m.drop_first().len() implies m.drop_first()[k].0 != key by {
            assert(m.drop_first()[k] == m[k + 1]);
        }
        lemma_lookup_absent(m.drop_first(), key);
    }
}

/// Inserting a pair keeps the keys unique.
proof fn lemma_insert_kv_unique(m: Seq<(Seq<char>, ValueModel)>, key: Seq<char>, value: Seq<char>)
    requires
        keys_unique(m),
    ensures
        keys_unique(insert_kv(m, key, value)),
    decreases m.len(),
{
    if m.len() == 0 {
    } else if m[0].0 == key {
        let r = insert_kv(m, key, value);
        assert forall|i: int, j: int| 0 <= i < j < r.len() implies r[i].0 != r[j].0 by {
            assert(r[i].0 == m[i].0 && r[j].0 == m[j].0);
        }
    } else {
        assert forall|i: int, j: int|
            0 <= i < j < m.drop_first().len() implies m.drop_first()[i].0
            != m.drop_first()[j].0 by {
            assert(m.drop_first()[i] == m[i + 1] && m.drop_first()[j] == m[j + 1]);
        }
        lemma_insert_kv_unique(m.drop_first(), key, value);
        let r = insert_kv(m, key, value);
        let r1 = insert_kv(m.drop_first(), key, value);
        lemma_insert_kv_keys(m.drop_first(), key, value);
        assert forall|i: int, j: int| 0 <= i < j < r.len() implies r[i].0 != r[j].0 by {
            if i > 0 {
                assert(r[i] == r1[i - 1] && r[j] == r1[j - 1]);
            } else {
                assert(r[j] == r1[j - 1]);
                if r1[j - 1].0 == m[0].0 {
                    lemma_insert_kv_key_source(m.drop_first(), key, value, j - 1);
                }
            }
        }
    }
}

/// Every key of the inserted sequence is a key of `m` or the new key.
proof fn lemma_insert_kv_keys(m: Seq<(Seq<char>, ValueModel)>, key: Seq<char>, value: Seq<char>)
    ensures
        forall|i: int|
            0 <= i < insert_kv(m, key, value).len() ==> insert_kv(m, key, value)[i].0 == key
                || (exists|k: int| 0 <= k < m.len() && m[k].0 == #[trigger] insert_kv(m, key, value)[i].0),
    decreases m.len(),
{
    if m.len() == 0 {
    } else if m[0].0 == key {
        let r = insert_kv(m, key, value);
        assert forall|i: int| 0 <= i < r.len() implies r[i].0 == key || (exists|k: int|
            0 <= k < m.len() && m[k].0 == r[i].0) by {
            if i > 0 {
                assert(m[i].0 == r[i].0);
            }
        }
    } else {
        lemma_insert_kv_keys(m.drop_first(), key, value);
        let r = insert_kv(m, key, value);
        let r1 = insert_kv(m.drop_first(), key, value);
        assert forall|i: int| 0 <= i < r.len() implies r[i].0 == key || (exists|k: int|
            0 <= k < m.len() && m[k].0 == r[i].0) by {
            if i == 0 {
                assert(m[0].0 == r[0].0);
            } else {
                assert(r[i] == r1[i - 1]);
                if r1[i - 1].0 != key {
                    let k = choose|k: int|
                        0 <= k < m.drop_first().len() && m.drop_first()[k].0 == r1[i - 1].0;
                    assert(m[k + 1].0 == r[i].0);
                }
            }
        }
    }
}

/// The key of one inserted entry, named for the uniqueness proof.
proof fn lemma_insert_kv_key_source(
    m: Seq<(Seq<char>, ValueModel)>,
    key: Seq<char>,
    value: Seq<char>,
    i: int,
)
    requires
        0 <= i < insert_kv(m, key, value).len(),
    ensures
        insert_kv(m, key, value)[i].0 == key || (exists|k: int|
            0 <= k < m.len() && m[k].0 == insert_kv(m, key, value)[i].0),
{
    lemma_insert_kv_keys(m, key, value);
}

/// Splits a fragment at its first `=`, handing back owned key and
/// value strings.
fn split_fragment(frag: &str) -> (r: (String, String))
    ensures
        r.0@ == frag_split(frag@).0,
        r.1@ == frag_split(frag@).1,
{
    let n = frag.unicode_len();
    match find_char2(frag, '=', '=') {
        Some(i) => {
            proof {
                lemma_find2_spec(frag@, '=', '=');
            }
            (frag.substring_char(0, i).to_owned(), frag.substring_char(i + 1, n).to_owned())
        },
        None => (frag.to_owned(), String::new()),
    }
}

/// Inserts one owned pair into the entries, as `insert_kv` says.
fn insert_pair(data: &mut Vec<(String, Value)>, key: String, value: String)
    ensures
        entries_view(final(data)@) == insert_kv(entries_view(old(data)@), key@, value@),
{
    let ghost m = entries_view(data@);
    let n = data.len();
    let mut j: usize = 0;
    while j < n
        invariant
            n == data.len(),
            j <= n,
            data@ == old(data)@,
            m == entries_view(data@),
            forall|k: int| 0 <= k < j ==> m[k].0 != key@,
        decreases n - j,
    {
        if str_eq(data[j].0.as_str(), key.as_str()) {
            assert(m[j as int].0 == key@);
            let pair = data.remove(j);
            let prev_key = pair.0;
            let new_value = match pair.1 {
                Value::Single(prev) => {
                    let mut values: Vec<String> = Vec::new();
                    values.push(prev);
                    values.push(value);
                    Value::Multiple(values)
                },
                Value::Multiple(mut values) => {
                    values.push(value);
                    Value::Multiple(values)
                },
            };
            data.insert(j, (prev_key, new_value));
            proof {
                lemma_insert_kv_found(m, key@, value@, j as int);
                assert(entries_view(data@) =~~= m.update(
                    j as int,
                    (m[j as int].0, add_value(m[j as int].1, value@)),
                ));
            }
            return ;
        }
        j = j + 1;
    }
    data.push((key, Value::Single(value)));
    proof {
        lemma_insert_kv_absent(m, key@, value@);
        assert(entries_view(data@) =~~= m.push((key@, ValueModel::Single(value@))));
    }
}

impl QueryString {
    /// Parses a raw query component: fragments split on `&`, each split
    /// at its first `=`; repeated keys collect their values in order.
    pub fn from(s: &str) -> (r: QueryString)
        ensures
            r@ == parse_qs(s@),
            keys_unique(r@),
    {
        let mut data: Vec<(String, Value)> = Vec::new();
        let mut rest: &str = s;
        loop
            invariant
                parse_qs_from(entries_view(data@), rest@) == parse_qs(s@),
                keys_unique(entries_view(data@)),
            decreases rest@.len(),
        {
            let ghost m = entries_view(data@);
            match find_char2(rest, '&', '&') {
                Some(i) => {
                    proof {
                        lemma_find2_spec(rest@, '&', '&');
                    }
                    let n = rest.unicode_len();
                    let frag = rest.substring_char(0, i);
                    let (key, value) = split_fragment(frag);
                    proof {
                        lemma_insert_kv_unique(m, key@, value@);
                    }
                    insert_pair(&mut data, key, value);
                    rest = rest.substring_char(i + 1, n);
                },
                None => {
                    let (key, value) = split_fragment(rest);
                    proof {
                        lemma_insert_kv_unique(m, key@, value@);
                    }
                    insert_pair(&mut data, key, value);
                    return QueryString { data };
                },
            }
        }
    }

    /// The value bound to `key`, or `None` when the key is absent; keys
    /// match exactly, never by prefix.
    pub fn get<'a>(&'a self, key: &str) -> (r: Option<&'a Value>)
        ensures
            match r {
                Some(v) => lookup(self@, key@) == Some(v@),
                None => lookup(self@, key@) is None,
            },
    {
        let n = self.data.len();
        let mut j: usize = 0;
        while j < n
            invariant
                n == self.data.len(),
                j <= n,
                forall|k: int| 0 <= k < j ==> self@[k].0 != key@,
            decreases n - j,
        {
            if str_eq(self.data[j].0.as_str(), key) {
                proof {
                    lemma_lookup_found(self@, key@, j as int);
                }
                return Some(&self.data[j].1);
            }
            j = j + 1;
        }
        proof {
            lemma_lookup_absent(self@, key@);
        }
        None
    }
}

} // verus!
