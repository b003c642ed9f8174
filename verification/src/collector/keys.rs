//! The result of the extraction: for each namespace the keys used in it.

use crate::text::{clone_texts, contains_text, insert_text, text_eq, with_item};
use vstd::prelude::*;

verus! {

/// The keys of one namespace, in the order in which they were first seen.
pub struct NamespaceKeys {
    pub namespace: String,
    pub keys: Vec<String>,
}

/// A `NamespaceKeys` as characters.
pub struct NamespaceView {
    pub namespace: Seq<char>,
    pub keys: Seq<Seq<char>>,
}

impl View for NamespaceKeys {
    type V = NamespaceView;

    open spec fn view(&self) -> NamespaceView {
        NamespaceView { namespace: self.namespace@, keys: self.keys.deep_view() }
    }
}

/// The keys found so far, one entry for each namespace.
pub struct KeyTable {
    pub entries: Vec<NamespaceKeys>,
}

impl View for KeyTable {
    type V = Seq<NamespaceView>;

    open spec fn view(&self) -> Seq<NamespaceView> {
        self.entries@.map_values(|e: NamespaceKeys| e@)
    }
}

/// The first entry of `table[from..]` for `namespace`.
pub open spec fn namespace_index_from(table: Seq<NamespaceView>, namespace: Seq<char>, from: int) -> Option<
    int,
>
    decreases table.len() - from,
{
    if from < 0 || from >= table.len() {
        None
    } else if table[from].namespace == namespace {
        Some(from)
    } else {
        namespace_index_from(table, namespace, from + 1)
    }
}

/// The keys that `table` holds for `namespace`; none when it has no entry.
pub open spec fn keys_of(table: Seq<NamespaceView>, namespace: Seq<char>) -> Seq<Seq<char>> {
    match namespace_index_from(table, namespace, 0) {
        Some(i) => table[i].keys,
        None => Seq::empty(),
    }
}

/// `table` after `key` was seen in `namespace`: the key joins the entry of the
/// namespace unless it is there already; a namespace seen for the first time
/// gets a new entry at the end.
pub open spec fn add_key(table: Seq<NamespaceView>, namespace: Seq<char>, key: Seq<char>) -> Seq<
    NamespaceView,
> {
    match namespace_index_from(table, namespace, 0) {
        Some(i) => table.update(i, NamespaceView { namespace, keys: with_item(table[i].keys, key) }),
        None => table.push(NamespaceView { namespace, keys: seq![key] }),
    }
}

/// `table` after `keys[from..]` were seen in `namespace`, one after the other.
pub open spec fn add_keys(table: Seq<NamespaceView>, namespace: Seq<char>, keys: Seq<Seq<char>>, from: int) -> Seq<
    NamespaceView,
>
    decreases keys.len() - from,
{
    if from < 0 || from >= keys.len() {
        table
    } else {
        add_keys(add_key(table, namespace, keys[from]), namespace, keys, from + 1)
    }
}

/// `table` after every key of `other[from..]` was seen in its namespace, entry by entry.
pub open spec fn merged(table: Seq<NamespaceView>, other: Seq<NamespaceView>, from: int) -> Seq<
    NamespaceView,
>
    decreases other.len() - from,
{
    if from < 0 || from >= other.len() {
        table
    } else {
        merged(add_keys(table, other[from].namespace, other[from].keys, 0), other, from + 1)
    }
}

/// Inside each entry no key occurs twice.
pub open spec fn keys_unique(table: Seq<NamespaceView>) -> bool {
    forall|i: int| 0 <= i < table.len() ==> (#[trigger] table[i]).keys.no_duplicates()
}

/// No two entries are for the same namespace.
pub open spec fn namespaces_unique(table: Seq<NamespaceView>) -> bool {
    forall|a: int, b: int|
        0 <= a < b < table.len() ==> (#[trigger] table[a]).namespace != (
        #[trigger] table[b]).namespace
}

/// The table is in order: it has one entry for each namespace, and each entry
/// holds each of its keys once.
pub open spec fn table_wf(table: Seq<NamespaceView>) -> bool {
    namespaces_unique(table) && keys_unique(table)
}

/// Adding a key keeps the table in order.
pub proof fn lemma_add_key_unique(table: Seq<NamespaceView>, namespace: Seq<char>, key: Seq<char>)
    requires
        table_wf(table),
    ensures
        table_wf(add_key(table, namespace, key)),
{
    let after = add_key(table, namespace, key);
    lemma_namespace_index(table, namespace, 0);
    assert forall|i: int| 0 <= i < after.len() implies (#[trigger] after[i]).keys.no_duplicates() by {
        match namespace_index_from(table, namespace, 0) {
            Some(at) => {
                if i == at {
                    assert(table[at].keys.no_duplicates());
                } else {
                    assert(after[i] == table[i]);
                }
            },
            None => {
                if i < table.len() {
                    assert(after[i] == table[i]);
                }
            },
        }
    }
    assert forall|a: int, b: int| 0 <= a < b < after.len() implies (#[trigger] after[a]).namespace
        != (#[trigger] after[b]).namespace by {
        match namespace_index_from(table, namespace, 0) {
            Some(at) => {
                assert(after[a].namespace == table[a].namespace);
                assert(after[b].namespace == table[b].namespace);
            },
            None => {
                assert(after[a] == table[a]);
                if b < table.len() {
                    assert(after[b] == table[b]);
                }
            },
        }
    }
}

/// Adding keys one after the other keeps the table in order.
pub proof fn lemma_add_keys_unique(
    table: Seq<NamespaceView>,
    namespace: Seq<char>,
    keys: Seq<Seq<char>>,
    from: int,
)
    requires
        table_wf(table),
    ensures
        table_wf(add_keys(table, namespace, keys, from)),
    decreases keys.len() - from,
{
    if 0 <= from < keys.len() {
        lemma_add_key_unique(table, namespace, keys[from]);
        lemma_add_keys_unique(add_key(table, namespace, keys[from]), namespace, keys, from + 1);
    }
}

/// Taking over the keys of another table keeps the table in order, whatever
/// the other table holds.
pub proof fn lemma_merged_unique(table: Seq<NamespaceView>, other: Seq<NamespaceView>, from: int)
    requires
        table_wf(table),
    ensures
        table_wf(merged(table, other, from)),
    decreases other.len() - from,
{
    if 0 <= from < other.len() {
        lemma_add_keys_unique(table, other[from].namespace, other[from].keys, 0);
        lemma_merged_unique(
            add_keys(table, other[from].namespace, other[from].keys, 0),
            other,
            from + 1,
        );
    }
}

/// What `namespace_index_from` finds is an entry of that namespace at or
/// after `from`; where it finds nothing, no such entry is for the namespace.
pub proof fn lemma_namespace_index(table: Seq<NamespaceView>, namespace: Seq<char>, from: int)
    requires
        0 <= from,
    ensures
        match namespace_index_from(table, namespace, from) {
            Some(i) => from <= i < table.len() && table[i].namespace == namespace,
            None => forall|j: int|
                from <= j < table.len() ==> (#[trigger] table[j]).namespace != namespace,
        },
    decreases table.len() - from,
{
    if from < table.len() && table[from].namespace != namespace {
        lemma_namespace_index(table, namespace, from + 1);
    }
}

impl KeyTable {
    /// The table without any key.
    pub fn new() -> (table: KeyTable)
        ensures
            table@ == Seq::<NamespaceView>::empty(),
            table_wf(table@),
    {
        let table = KeyTable { entries: Vec::new() };
        assert(table@ =~= Seq::<NamespaceView>::empty());
        table
    }

    fn position(&self, namespace: &str) -> (found: Option<usize>)
        ensures
            match found {
                Some(i) => namespace_index_from(self@, namespace@, 0) == Some(i as int) && i
                    < self.entries.len(),
                None => namespace_index_from(self@, namespace@, 0) is None,
            },
    {
        let mut i: usize = 0;
        while i < self.entries.len()
            invariant
                i <= self.entries.len(),
                namespace_index_from(self@, namespace@, i as int) == namespace_index_from(
                    self@,
                    namespace@,
                    0,
                ),
            decreases self.entries.len() - i,
        {
            if text_eq(self.entries[i].namespace.as_str(), namespace) {
                return Some(i);
            }
            i += 1;
        }
        None
    }

    /// Records that `key` is used in `namespace`.
    pub fn add_key(&mut self, namespace: &str, key: String)
        ensures
            final(self)@ == add_key(old(self)@, namespace@, key@),
            table_wf(old(self)@) ==> table_wf(final(self)@),
    {
        proof {
            if table_wf(self@) {
                lemma_add_key_unique(self@, namespace@, key@);
            }
        }
        match self.position(namespace) {
            Some(i) => {
                proof {
                    lemma_namespace_index(self@, namespace@, 0);
                }
                insert_text(&mut self.entries[i].keys, key);
                assert(self@ =~= add_key(old(self)@, namespace@, key@));
            },
            None => {
                let mut keys: Vec<String> = Vec::new();
                keys.push(key);
                let entry = NamespaceKeys { namespace: namespace.to_owned(), keys };
                assert(entry@.keys =~= seq![key@]);
                self.entries.push(entry);
                assert(self@ =~= add_key(old(self)@, namespace@, key@));
            },
        }
    }

    /// Records that each of `keys` is used in `namespace`.
    pub fn add_keys(&mut self, namespace: &str, keys: &Vec<String>)
        ensures
            final(self)@ == add_keys(old(self)@, namespace@, keys.deep_view(), 0),
            table_wf(old(self)@) ==> table_wf(final(self)@),
    {
        proof {
            if table_wf(self@) {
                lemma_add_keys_unique(self@, namespace@, keys.deep_view(), 0);
            }
        }
        let mut i: usize = 0;
        while i < keys.len()
            invariant
                i <= keys.len(),
                add_keys(self@, namespace@, keys.deep_view(), i as int) == add_keys(
                    old(self)@,
                    namespace@,
                    keys.deep_view(),
                    0,
                ),
            decreases keys.len() - i,
        {
            assert(keys.deep_view()[i as int] == keys[i as int]@);
            self.add_key(namespace, keys[i].clone());
            i += 1;
        }
    }

    /// The keys of `namespace`; none when it was never seen.
    pub fn get_keys(&self, namespace: &str) -> (keys: Vec<String>)
        ensures
            keys.deep_view() == keys_of(self@, namespace@),
    {
        match self.position(namespace) {
            Some(i) => clone_texts(&self.entries[i].keys),
            None => {
                let keys: Vec<String> = Vec::new();
                assert(keys.deep_view() =~= Seq::<Seq<char>>::empty());
                keys
            },
        }
    }

    /// Whether `key` was seen in `namespace`.
    pub fn has_key(&self, namespace: &str, key: &str) -> (found: bool)
        ensures
            found == keys_of(self@, namespace@).contains(key@),
    {
        match self.position(namespace) {
            Some(i) => contains_text(&self.entries[i].keys, key),
            None => false,
        }
    }

    /// Takes over every key of `other`, namespace by namespace.
    pub fn merge(&mut self, other: &KeyTable)
        ensures
            final(self)@ == merged(old(self)@, other@, 0),
            table_wf(old(self)@) ==> table_wf(final(self)@),
    {
        proof {
            if table_wf(self@) {
                lemma_merged_unique(self@, other@, 0);
            }
        }
        let mut i: usize = 0;
        while i < other.entries.len()
            invariant
                i <= other.entries.len(),
                merged(self@, other@, i as int) == merged(old(self)@, other@, 0),
            decreases other.entries.len() - i,
        {
            assert(other@[i as int] == other.entries[i as int]@);
            self.add_keys(other.entries[i].namespace.as_str(), &other.entries[i].keys);
            i += 1;
        }
    }
}

} // verus!
