//! RPC metadata as the propagation code sees it: text keys and values,
//! keys matched without regard to ASCII case, several values per key allowed.
use vstd::prelude::*;
use crate::text::{lower, lower_char, lower_char_exec, to_lower};

verus! {

/// The mathematical value of a carrier: its entries in insertion order.
pub type Entries = Seq<(Seq<char>, Seq<char>)>;

/// A character that may stand in a metadata key: a letter, a digit or an
/// HTTP token symbol.
pub open spec fn is_key_char(c: char) -> bool {
    ('a' <= c && c <= 'z') || ('A' <= c && c <= 'Z') || ('0' <= c && c <= '9') || c == '!'
        || c == '#' || c == '$' || c == '%' || c == '&' || c == '\'' || c == '*' || c == '+' || c
        == '-' || c == '.' || c == '^' || c == '_' || c == '`' || c == '|' || c == '~'
}

/// A key that names binary metadata: its lower-cased form ends in `-bin`.
pub open spec fn is_binary_key(k: Seq<char>) -> bool {
    k.len() >= 4 && k[k.len() - 4] == '-' && lower_char(k[k.len() - 3]) == 'b' && lower_char(
        k[k.len() - 2],
    ) == 'i' && lower_char(k[k.len() - 1]) == 'n'
}

/// A key that the text metadata encoding can hold: 1 to 65535 key
/// characters, not naming binary metadata.
pub open spec fn valid_key(k: Seq<char>) -> bool {
    0 < k.len() <= 65535 && (forall|i: int| 0 <= i < k.len() ==> is_key_char(#[trigger] k[i]))
        && !is_binary_key(k)
}

/// A value that the metadata encoding can hold: visible ASCII, space and tab.
pub open spec fn valid_value(v: Seq<char>) -> bool {
    forall|i: int| 0 <= i < v.len() ==> (' ' <= #[trigger] v[i] && v[i] <= '~') || v[i] == '\t'
}

/// The values stored under the (already lower-case) key `k`, in order.
pub open spec fn values_of(e: Entries, k: Seq<char>) -> Seq<Seq<char>>
    decreases e.len(),
{
    if e.len() == 0 {
        Seq::empty()
    } else if e.last().0 == k {
        values_of(e.drop_last(), k).push(e.last().1)
    } else {
        values_of(e.drop_last(), k)
    }
}

/// The entries whose key is not `k`, in order.
pub open spec fn without_key(e: Entries, k: Seq<char>) -> Entries
    decreases e.len(),
{
    if e.len() == 0 {
        e
    } else if e.last().0 == k {
        without_key(e.drop_last(), k)
    } else {
        without_key(e.drop_last(), k).push(e.last())
    }
}

/// Each key of `e` once, in order of first appearance.
pub open spec fn distinct_keys(e: Entries) -> Seq<Seq<char>>
    decreases e.len(),
{
    if e.len() == 0 {
        Seq::empty()
    } else if distinct_keys(e.drop_last()).contains(e.last().0) {
        distinct_keys(e.drop_last())
    } else {
        distinct_keys(e.drop_last()).push(e.last().0)
    }
}

/// What a lookup of `key` finds, whatever its case.
pub open spec fn lookup(e: Entries, key: Seq<char>) -> Seq<Seq<char>> {
    values_of(e, lower(key))
}

/// `set`: the value replaces every earlier value of the key; a key or value
/// that the encoding cannot hold leaves the carrier as it was.
pub open spec fn set_spec(e: Entries, key: Seq<char>, value: Seq<char>) -> Entries {
    if valid_key(key) && valid_value(value) {
        without_key(e, lower(key)).push((lower(key), value))
    } else {
        e
    }
}

/// `append`: the value is added after the key's earlier values.
pub open spec fn append_spec(e: Entries, key: Seq<char>, value: Seq<char>) -> Entries {
    if valid_key(key) && valid_value(value) {
        e.push((lower(key), value))
    } else {
        e
    }
}

pub open spec fn strings_view(v: Seq<String>) -> Seq<Seq<char>> {
    v.map_values(|s: String| s@)
}

pub open spec fn pairs_view(v: Seq<(String, String)>) -> Entries {
    v.map_values(|p: (String, String)| (p.0@, p.1@))
}

/// Key-value metadata attached to one call.
pub struct Carrier {
    entries: Vec<(String, String)>,
}

impl View for Carrier {
    type V = Entries;

    closed spec fn view(&self) -> Entries {
        pairs_view(self.entries@)
    }
}

fn is_key_char_exec(c: char) -> (r: bool)
    ensures
        r == is_key_char(c),
{
    ('a' <= c && c <= 'z') || ('A' <= c && c <= 'Z') || ('0' <= c && c <= '9') || c == '!' || c
        == '#' || c == '$' || c == '%' || c == '&' || c == '\'' || c == '*' || c == '+' || c == '-'
        || c == '.' || c == '^' || c == '_' || c == '`' || c == '|' || c == '~'
}

pub fn is_valid_key(k: &str) -> (r: bool)
    ensures
        r == valid_key(k@),
{
    let n = k.unicode_len();
    if n == 0 || n > 65535 {
        return false;
    }
    let mut i: usize = 0;
    while i < n
        invariant
            n == k@.len(),
            i <= n,
            forall|j: int| 0 <= j < i ==> is_key_char(#[trigger] k@[j]),
        decreases n - i,
    {
        if !is_key_char_exec(k.get_char(i)) {
            return false;
        }
        i = i + 1;
    }
    let binary = n >= 4 && k.get_char(n - 4) == '-' && lower_char_exec(k.get_char(n - 3)) == 'b'
        && lower_char_exec(k.get_char(n - 2)) == 'i' && lower_char_exec(k.get_char(n - 1)) == 'n';
    !binary
}

pub fn is_valid_value(v: &str) -> (r: bool)
    ensures
        r == valid_value(v@),
{
    let n = v.unicode_len();
    let mut i: usize = 0;
    while i < n
        invariant
            n == v@.len(),
            i <= n,
            forall|j: int| 0 <= j < i ==> (' ' <= #[trigger] v@[j] && v@[j] <= '~') || v@[j] == '\t',
        decreases n - i,
    {
        let c = v.get_char(i);
        if !((' ' <= c && c <= '~') || c == '\t') {
            return false;
        }
        i = i + 1;
    }
    true
}

fn contains_string(v: &Vec<String>, s: &String) -> (r: bool)
    ensures
        r == strings_view(v@).contains(s@),
{
    let mut i: usize = 0;
    while i < v.len()
        invariant
            i <= v@.len(),
            forall|j: int| 0 <= j < i ==> v@[j]@ != s@,
        decreases v@.len() - i,
    {
        if v[i] == *s {
            assert(strings_view(v@)[i as int] == s@);
            return true;
        }
        i = i + 1;
    }
    assert(!strings_view(v@).contains(s@)) by {
        if strings_view(v@).contains(s@) {
            let j = choose|j: int| 0 <= j < strings_view(v@).len() && strings_view(v@)[j] == s@;
            assert(v@[j]@ == s@);
        }
    }
    false
}

impl Carrier {
    /// An empty carrier.
    pub fn new() -> (r: Carrier)
        ensures
            r@ == Seq::<(Seq<char>, Seq<char>)>::empty(),
    {
        let r = Carrier { entries: Vec::new() };
        assert(r@ =~= Seq::<(Seq<char>, Seq<char>)>::empty());
        r
    }

    /// Stores `value` under `key`, replacing the key's earlier values; the
    /// write is dropped where the key or the value cannot be held.
    pub fn set(&mut self, key: &str, value: &str)
        ensures
            final(self)@ == set_spec(old(self)@, key@, value@),
    {
        if !is_valid_key(key) || !is_valid_value(value) {
            return;
        }
        let k = to_lower(key);
        let ghost before = self@;
        let mut kept: Vec<(String, String)> = Vec::new();
        let mut i: usize = 0;
        while i < self.entries.len()
            invariant
                i <= self.entries@.len(),
                before == pairs_view(self.entries@),
                pairs_view(kept@) =~= without_key(before.subrange(0, i as int), k@),
            decreases self.entries@.len() - i,
        {
            let ghost prefix = before.subrange(0, i + 1);
            assert(prefix.drop_last() =~= before.subrange(0, i as int));
            if self.entries[i].0 != k {
                let pair = (self.entries[i].0.clone(), self.entries[i].1.clone());
                kept.push(pair);
            }
            i = i + 1;
        }
        assert(before.subrange(0, i as int) =~= before);
        kept.push((k, value.to_owned()));
        self.entries = kept;
        assert(self@ =~= set_spec(before, key@, value@));
    }

    /// Adds `value` under `key` after the key's earlier values; the write is
    /// dropped where the key or the value cannot be held.
    pub fn append(&mut self, key: &str, value: &str)
        ensures
            final(self)@ == append_spec(old(self)@, key@, value@),
    {
        if !is_valid_key(key) || !is_valid_value(value) {
            return;
        }
        let k = to_lower(key);
        self.entries.push((k, value.to_owned()));
        assert(final(self)@ =~= append_spec(old(self)@, key@, value@));
    }

    /// Every value stored under `key` (in any case), in order.
    pub fn get_all(&self, key: &str) -> (r: Vec<String>)
        ensures
            strings_view(r@) == lookup(self@, key@),
    {
        let k = to_lower(key);
        let mut out: Vec<String> = Vec::new();
        let mut i: usize = 0;
        while i < self.entries.len()
            invariant
                i <= self.entries@.len(),
                strings_view(out@) =~= values_of(self@.subrange(0, i as int), k@),
            decreases self.entries@.len() - i,
        {
            let ghost prefix = self@.subrange(0, i + 1);
            assert(prefix.drop_last() =~= self@.subrange(0, i as int));
            if self.entries[i].0 == k {
                out.push(self.entries[i].1.clone());
            }
            i = i + 1;
        }
        assert(self@.subrange(0, i as int) =~= self@);
        out
    }

    /// The first value stored under `key` (in any case), if there is one.
    pub fn get(&self, key: &str) -> (r: Option<String>)
        ensures
            match r {
                Some(v) => lookup(self@, key@).len() > 0 && v@ == lookup(self@, key@)[0],
                None => lookup(self@, key@).len() == 0,
            },
    {
        let all = self.get_all(key);
        if all.len() == 0 {
            None
        } else {
            assert(strings_view(all@)[0] == all@[0]@);
            Some(all[0].clone())
        }
    }

    /// Each key once, in order of first appearance.
    pub fn keys(&self) -> (r: Vec<String>)
        ensures
            strings_view(r@) == distinct_keys(self@),
    {
        let mut out: Vec<String> = Vec::new();
        let mut i: usize = 0;
        while i < self.entries.len()
            invariant
                i <= self.entries@.len(),
                strings_view(out@) =~= distinct_keys(self@.subrange(0, i as int)),
            decreases self.entries@.len() - i,
        {
            let ghost prefix = self@.subrange(0, i + 1);
            assert(prefix.drop_last() =~= self@.subrange(0, i as int));
            if !contains_string(&out, &self.entries[i].0) {
                out.push(self.entries[i].0.clone());
            }
            i = i + 1;
        }
        assert(self@.subrange(0, i as int) =~= self@);
        out
    }
}

} // verus!
