//! The output document: file names mapped to payloads, with unique keys, and
//! its JSON text.
use vstd::prelude::*;

verus! {

/// A document's entries in order: (key, value).
pub type Entries = Seq<(Seq<char>, Seq<char>)>;

/// Index of the first entry at or after `i` whose key is `k`, or -1.
pub open spec fn find_from(s: Entries, k: Seq<char>, i: int) -> int
    decreases s.len() - i,
{
    if i < 0 || i >= s.len() {
        -1
    } else if s[i].0 == k {
        i
    } else {
        find_from(s, k, i + 1)
    }
}

/// Index of the entry whose key is `k`, or -1.
pub open spec fn find_key(s: Entries, k: Seq<char>) -> int {
    find_from(s, k, 0)
}

/// The value stored under `k`, if any.
pub open spec fn lookup(s: Entries, k: Seq<char>) -> Option<Seq<char>> {
    if find_key(s, k) >= 0 {
        Some(s[find_key(s, k)].1)
    } else {
        None
    }
}

/// Stores `v` under `k`: an entry with that key gets the new value in place,
/// else the pair is appended. The later write wins.
pub open spec fn upsert(s: Entries, k: Seq<char>, v: Seq<char>) -> Entries {
    if find_key(s, k) >= 0 {
        s.update(find_key(s, k), (k, v))
    } else {
        s.push((k, v))
    }
}

/// No two entries share a key.
pub open spec fn keys_unique(s: Entries) -> bool {
    forall|i: int, j: int| 0 <= i < j < s.len() ==> s[i].0 != s[j].0
}

/// What `find_from` returns is an entry with that key, and none before it
/// has that key; -1 means that no entry from `i` on has it.
pub proof fn lemma_find_from(s: Entries, k: Seq<char>, i: int)
    requires
        0 <= i <= s.len(),
    ensures
        find_from(s, k, i) == -1 ==> forall|j: int| i <= j < s.len() ==> s[j].0 != k,
        find_from(s, k, i) != -1 ==> i <= find_from(s, k, i) < s.len() && s[find_from(
            s,
            k,
            i,
        )].0 == k,
    decreases s.len() - i,
{
    if i < s.len() && s[i].0 != k {
        lemma_find_from(s, k, i + 1);
    }
}

/// Writing a key keeps the keys unique, and afterwards the key holds the
/// value written while every other key keeps its value.
pub proof fn lemma_upsert(s: Entries, k: Seq<char>, v: Seq<char>, other: Seq<char>)
    requires
        keys_unique(s),
    ensures
        keys_unique(upsert(s, k, v)),
        lookup(upsert(s, k, v), k) == Some(v),
        other != k ==> lookup(upsert(s, k, v), other) == lookup(s, other),
{
    let t = upsert(s, k, v);
    lemma_find_from(s, k, 0);
    lemma_find_from(s, other, 0);
    lemma_find_from(t, k, 0);
    lemma_find_from(t, other, 0);
    assert(keys_unique(t));
    let p = if find_key(s, k) >= 0 {
        find_key(s, k)
    } else {
        s.len() as int
    };
    assert(t[p] == (k, v));
    assert(find_key(t, k) == p);
    if other != k {
        if find_key(s, other) >= 0 {
            assert(t[find_key(s, other)].0 == other);
        }
        if find_key(t, other) >= 0 {
            assert(s[find_key(t, other)].0 == other);
        }
    }
}

/// Lower-case hexadecimal digit for `d` (below sixteen).
pub open spec fn hex_lower(d: nat) -> char {
    seq!['0', '1', '2', '3', '4', '5', '6', '7', '8', '9', 'a', 'b', 'c', 'd', 'e', 'f'][d as int]
}

/// How one character stands inside a JSON string: the quote and the
/// backslash are escaped, control characters take their short escape or
/// `\u00XX`, every other character stands as it is.
pub open spec fn json_escape(c: char) -> Seq<char> {
    if c == '"' {
        seq!['\\', '"']
    } else if c == '\\' {
        seq!['\\', '\\']
    } else if c == '\u{8}' {
        seq!['\\', 'b']
    } else if c == '\t' {
        seq!['\\', 't']
    } else if c == '\n' {
        seq!['\\', 'n']
    } else if c == '\u{c}' {
        seq!['\\', 'f']
    } else if c == '\r' {
        seq!['\\', 'r']
    } else if (c as u32) < 0x20 {
        seq!['\\', 'u', '0', '0', hex_lower((c as u32 / 16) as nat), hex_lower((c as u32 % 16) as nat)]
    } else {
        seq![c]
    }
}

/// Every character of `s`, escaped.
pub open spec fn json_escaped(s: Seq<char>) -> Seq<char>
    decreases s.len(),
{
    if s.len() == 0 {
        Seq::empty()
    } else {
        json_escaped(s.drop_last()) + json_escape(s.last())
    }
}

/// The JSON text of a string: escaped, between double quotes.
pub open spec fn json_string_of(s: Seq<char>) -> Seq<char> {
    seq!['"'] + json_escaped(s) + seq!['"']
}

/// One member of a JSON object: `"key":"value"`.
pub open spec fn json_member(e: (Seq<char>, Seq<char>)) -> Seq<char> {
    json_string_of(e.0) + seq![':'] + json_string_of(e.1)
}

/// The first `n` members, separated by commas.
pub open spec fn json_members(s: Entries, n: nat) -> Seq<char>
    decreases n,
{
    if n == 0 {
        Seq::empty()
    } else if n == 1 {
        json_member(s[0])
    } else {
        json_members(s, (n - 1) as nat) + seq![','] + json_member(s[n - 1])
    }
}

/// The compact JSON object with the entries as members, in order.
pub open spec fn json_object_of(s: Entries) -> Seq<char> {
    seq!['{'] + json_members(s, s.len()) + seq!['}']
}

/// The JSON text of an empty document is `{}`.
pub proof fn lemma_empty_json()
    ensures
        json_object_of(Seq::empty()) == seq!['{', '}'],
{
    assert(json_object_of(Seq::empty()) =~= seq!['{', '}']);
}

#[verifier::external_type_specification]
#[verifier::external_body]
pub struct ExJsonError(serde_json::Error);

/// Relies on serde_json::to_string on a `str`: the string between quotes,
/// escaped by serde_json's table (ser.rs, `ESCAPE` and `write_char_escape`).
/// Serializing a `str` into a `Vec` does not fail.
#[verifier::external_body]
fn json_string(s: &str) -> (r: Result<String, serde_json::Error>)
    ensures
        r is Ok,
        r matches Ok(t) ==> t@ == json_string_of(s@),
{
    serde_json::to_string(s)
}

/// The JSON text of `s`.
fn json_text(s: &str) -> (r: String)
    ensures
        r@ == json_string_of(s@),
{
    match json_string(s) {
        Ok(t) => t,
        // not reached: serializing a str does not fail
        Err(_) => String::new(),
    }
}

/// A mapping from file name to payload. Keys are unique; entries keep the
/// order in which their keys were first written.
pub struct Document {
    entries: Vec<(String, String)>,
}

impl View for Document {
    type V = Entries;

    closed spec fn view(&self) -> Entries {
        self.entries@.map_values(|e: (String, String)| (e.0@, e.1@))
    }
}

impl Document {
    /// Well-formed: no key occurs twice.
    pub open spec fn wf(&self) -> bool {
        keys_unique(self@)
    }

    /// An empty document.
    pub fn new() -> (r: Document)
        ensures
            r@ == Seq::<(Seq<char>, Seq<char>)>::empty(),
            r.wf(),
    {
        let r = Document { entries: Vec::new() };
        assert(r@ =~= Seq::<(Seq<char>, Seq<char>)>::empty());
        r
    }

    /// Number of entries.
    pub fn len(&self) -> (r: usize)
        ensures
            r == self@.len(),
    {
        self.entries.len()
    }

    /// Stores `value` under `key`, replacing the value of an entry that has
    /// that key already.
    pub fn insert(&mut self, key: String, value: String)
        requires
            old(self).wf(),
        ensures
            final(self).wf(),
            final(self)@ == upsert(old(self)@, key@, value@),
    {
        let ghost s = self@;
        let ghost k = key@;
        let ghost v = value@;
        let n = self.entries.len();
        let mut i: usize = 0;
        while i < n
            invariant
                n == self.entries.len(),
                i <= n,
                self@ == s,
                s.len() == n,
                keys_unique(s),
                k == key@,
                v == value@,
                s == old(self)@,
                find_from(s, k, i as int) == find_key(s, k),
            decreases n - i,
        {
            if self.entries[i].0 == key {
                assert(s[i as int] == (self.entries@[i as int].0@, self.entries@[i as int].1@));
                assert(s[i as int].0 == k);
                assert(find_key(s, k) == i as int);
                proof {
                    lemma_upsert(s, k, v, k);
                }
                self.entries.set(i, (key, value));
                assert(self@ =~= upsert(s, k, v));
                return;
            }
            i += 1;
        }
        proof {
            lemma_upsert(s, k, v, k);
        }
        self.entries.push((key, value));
        assert(self@ =~= upsert(s, k, v));
    }

    /// The value stored under `key`, if any.
    pub fn get(&self, key: &String) -> (r: Option<&String>)
        ensures
            r is Some <==> lookup(self@, key@) is Some,
            r matches Some(v) ==> lookup(self@, key@) == Some(v@),
    {
        let n = self.entries.len();
        let mut i: usize = 0;
        while i < n
            invariant
                n == self.entries.len(),
                i <= n,
                find_from(self@, key@, i as int) == find_key(self@, key@),
            decreases n - i,
        {
            assert(self@[i as int] == (self.entries@[i as int].0@, self.entries@[i as int].1@));
            if self.entries[i].0 == *key {
                return Some(&self.entries[i].1);
            }
            i += 1;
        }
        None
    }

    /// The compact JSON object of the document, members in entry order.
    pub fn to_json(&self) -> (r: String)
        ensures
            r@ == json_object_of(self@),
    {
        let mut out = String::from_str("{");
        proof {
            reveal_strlit("{");
            assert(out@ =~= seq!['{'] + json_members(self@, 0));
        }
        let n = self.entries.len();
        let mut i: usize = 0;
        while i < n
            invariant
                n == self.entries.len(),
                i <= n,
                out@ == seq!['{'] + json_members(self@, i as nat),
            decreases n - i,
        {
            let k = json_text(self.entries[i].0.as_str());
            let v = json_text(self.entries[i].1.as_str());
            assert(self@[i as int] == (self.entries@[i as int].0@, self.entries@[i as int].1@));
            assert(json_member(self@[i as int]) == k@ + seq![':'] + v@);
            proof {
                reveal_strlit(",");
                reveal_strlit(":");
                assert(","@ =~= seq![',']);
                assert(":"@ =~= seq![':']);
            }
            if i > 0 {
                out.append(",");
            }
            out.append(k.as_str());
            out.append(":");
            out.append(v.as_str());
            assert(json_members(self@, (i + 1) as nat) == if i == 0 {
                json_member(self@[0])
            } else {
                json_members(self@, i as nat) + seq![','] + json_member(self@[i as int])
            });
            assert(out@ =~= seq!['{'] + json_members(self@, (i + 1) as nat));
            i += 1;
        }
        proof {
            reveal_strlit("}");
            assert("}"@ =~= seq!['}']);
        }
        out.append("}");
        assert(out@ =~= json_object_of(self@));
        out
    }
}

} // verus!
