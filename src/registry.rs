//! The builds a long-lived service keeps, each index under the identifier
//! it was stored with, and the tools such a service offers.
use vstd::prelude::*;

use crate::index::Index;

verus! {

/// The index stored under `key` in `entries`, the first one where several
/// share the key.
pub open spec fn lookup(entries: Seq<(String, Index)>, key: Seq<char>) -> Option<Index>
    decreases entries.len(),
{
    if entries.len() == 0 {
        None
    } else if entries[0].0@ == key {
        Some(entries[0].1)
    } else {
        lookup(entries.drop_first(), key)
    }
}

/// Indexes kept by identifier. Storing under an identifier that is held
/// already replaces its index.
pub struct IndexRegistry {
    entries: Vec<(String, Index)>,
}

impl IndexRegistry {
    /// What is stored under each identifier.
    pub closed spec fn get_spec(&self, key: Seq<char>) -> Option<Index> {
        lookup(self.entries@, key)
    }

    /// How many identifiers are held.
    pub closed spec fn count(&self) -> nat {
        self.entries@.len()
    }

    /// A registry that holds nothing.
    pub fn new() -> (r: Self)
        ensures
            forall|k: Seq<char>| r.get_spec(k) is None,
            r.count() == 0,
    {
        IndexRegistry { entries: Vec::new() }
    }

    /// Stores `index` under `id`; what other identifiers hold is unchanged.
    pub fn insert(&mut self, id: String, index: Index)
        ensures
            final(self).get_spec(id@) == Some(index),
            forall|k: Seq<char>| k != id@ ==> final(self).get_spec(k) == old(self).get_spec(k),
    {
        let ghost old_entries = self.entries@;
        assert(forall|key: Seq<char>| old(self).get_spec(key) == lookup(old_entries, key));
        let mut k: usize = 0;
        while k < self.entries.len()
            invariant
                k <= self.entries@.len(),
                self.entries@ == old_entries,
                forall|key: Seq<char>| old(self).get_spec(key) == lookup(old_entries, key),
                forall|j: int| 0 <= j < k ==> self.entries@[j].0@ != id@,
            decreases self.entries.len() - k,
        {
            if self.entries[k].0 == id {
                let ghost idv = id@;
                assert(old_entries[k as int].0@ == idv);
                self.entries.set(k, (id, index));
                assert(self.entries@ == old_entries.update(k as int, self.entries@[k as int]));
                proof {
                    assert forall|key: Seq<char>| key != idv implies lookup(self.entries@, key)
                        == lookup(old_entries, key) by {
                        lemma_lookup_update(old_entries, k as int, self.entries@[k as int], key);
                    }
                    lemma_lookup_prefix(self.entries@, k as int, idv);
                    assert forall|key: Seq<char>| key != idv implies self.get_spec(key)
                        == old(self).get_spec(key) by {
                        assert(old(self).get_spec(key) == lookup(old_entries, key));
                    }
                    assert(idv == id@);
                }
                return;
            }
            k += 1;
        }
        let ghost id_view = id@;
        self.entries.push((id, index));
        proof {
            assert forall|key: Seq<char>| key != id_view implies lookup(self.entries@, key) == lookup(
                old_entries,
                key,
            ) by {
                lemma_lookup_push(old_entries, self.entries@.last(), key);
            }
            lemma_lookup_push(old_entries, self.entries@.last(), id_view);
            lemma_lookup_absent(old_entries, id_view);
        }
    }

    /// The index stored under `id`, if any.
    pub fn get(&self, id: &str) -> (r: Option<&Index>)
        ensures
            match r {
                Some(x) => self.get_spec(id@) == Some(*x),
                None => self.get_spec(id@) is None,
            },
    {
        let mut k: usize = 0;
        while k < self.entries.len()
            invariant
                k <= self.entries@.len(),
                forall|j: int| 0 <= j < k ==> self.entries@[j].0@ != id@,
            decreases self.entries.len() - k,
        {
            if str_is_string(id, &self.entries[k].0) {
                proof {
                    lemma_lookup_prefix(self.entries@, k as int, id@);
                }
                return Some(&self.entries[k].1);
            }
            k += 1;
        }
        proof {
            lemma_lookup_absent(self.entries@, id@);
        }
        None
    }

    /// The index stored first, if any.
    pub fn first(&self) -> (r: Option<&Index>)
        ensures
            self.count() == 0 <==> r is None,
            r matches Some(x) ==> exists|k: Seq<char>| self.get_spec(k) == Some(*x),
    {
        if self.entries.len() == 0 {
            None
        } else {
            let ghost key = self.entries@[0].0@;
            assert(lookup(self.entries@, key) == Some(self.entries@[0].1));
            assert(self.get_spec(key) == Some(self.entries@[0].1));
            Some(&self.entries[0].1)
        }
    }
}

fn str_is_string(s: &str, t: &String) -> (r: bool)
    ensures
        r == (s@ == t@),
{
    let u = String::from_str(s);
    u == *t
}

proof fn lemma_lookup_prefix(entries: Seq<(String, Index)>, k: int, key: Seq<char>)
    requires
        0 <= k < entries.len(),
        entries[k].0@ == key,
        forall|j: int| 0 <= j < k ==> entries[j].0@ != key,
    ensures
        lookup(entries, key) == Some(entries[k].1),
    decreases k,
{
    if k > 0 {
        let rest = entries.drop_first();
        assert forall|j: int| 0 <= j < k - 1 implies rest[j].0@ != key by {
            assert(rest[j] == entries[j + 1]);
        }
        lemma_lookup_prefix(rest, k - 1, key);
    }
}

proof fn lemma_lookup_absent(entries: Seq<(String, Index)>, key: Seq<char>)
    requires
        forall|j: int| 0 <= j < entries.len() ==> entries[j].0@ != key,
    ensures
        lookup(entries, key) is None,
    decreases entries.len(),
{
    if entries.len() > 0 {
        let rest = entries.drop_first();
        assert forall|j: int| 0 <= j < rest.len() implies rest[j].0@ != key by {
            assert(rest[j] == entries[j + 1]);
        }
        lemma_lookup_absent(rest, key);
    }
}

proof fn lemma_lookup_update(entries: Seq<(String, Index)>, k: int, e: (String, Index), key: Seq<char>)
    requires
        0 <= k < entries.len(),
        e.0@ == entries[k].0@,
        key != e.0@,
    ensures
        lookup(entries.update(k, e), key) == lookup(entries, key),
    decreases entries.len(),
{
    if k > 0 {
        lemma_lookup_update(entries.drop_first(), k - 1, e, key);
        assert(entries.update(k, e).drop_first() =~= entries.drop_first().update(k - 1, e));
        assert(entries.update(k, e)[0] == entries[0]);
    } else {
        assert(entries.update(0, e).drop_first() =~= entries.drop_first());
        assert(entries.update(0, e)[0] == e);
    }
}

proof fn lemma_lookup_push(entries: Seq<(String, Index)>, e: (String, Index), key: Seq<char>)
    ensures
        lookup(entries.push(e), key) == match lookup(entries, key) {
            Some(x) => Some(x),
            None => if e.0@ == key {
                Some(e.1)
            } else {
                None
            },
        },
    decreases entries.len(),
{
    if entries.len() > 0 {
        lemma_lookup_push(entries.drop_first(), e, key);
        assert(entries.push(e).drop_first() =~= entries.drop_first().push(e));
        assert(entries.push(e)[0] == entries[0]);
    } else {
        assert(entries.push(e).drop_first() =~= Seq::<(String, Index)>::empty());
        assert(entries.push(e)[0] == e);
        assert(lookup(Seq::<(String, Index)>::empty(), key) is None);
    }
}

/// The tools a service offers.
#[derive(Clone, Copy, Debug, PartialEq, Eq)]
pub enum Tool {
    IndexRepo,
    Summarize,
    GenerateWiki,
    GenerateSlides,
    PublishPages,
    Search,
}

/// The tool of a method name, if it is one.
pub open spec fn tool_of(method: Seq<char>) -> Option<Tool> {
    if method == "index_repo"@ {
        Some(Tool::IndexRepo)
    } else if method == "summarize"@ {
        Some(Tool::Summarize)
    } else if method == "generate_wiki"@ {
        Some(Tool::GenerateWiki)
    } else if method == "generate_slides"@ {
        Some(Tool::GenerateSlides)
    } else if method == "publish_pages"@ {
        Some(Tool::PublishPages)
    } else if method == "search"@ {
        Some(Tool::Search)
    } else {
        None
    }
}

/// The tool of a method name.
pub fn parse_tool(method: &str) -> (r: Option<Tool>)
    ensures
        r == tool_of(method@),
{
    let s = String::from_str(method);
    if s == String::from_str("index_repo") {
        Some(Tool::IndexRepo)
    } else if s == String::from_str("summarize") {
        Some(Tool::Summarize)
    } else if s == String::from_str("generate_wiki") {
        Some(Tool::GenerateWiki)
    } else if s == String::from_str("generate_slides") {
        Some(Tool::GenerateSlides)
    } else if s == String::from_str("publish_pages") {
        Some(Tool::PublishPages)
    } else if s == String::from_str("search") {
        Some(Tool::Search)
    } else {
        None
    }
}

/// The JSON-RPC error code of a request that could not be parsed.
pub const PARSE_ERROR: i32 = -32700;

/// The JSON-RPC error code of a request whose tool failed.
pub const INTERNAL_ERROR: i32 = -32603;

} // verus!
