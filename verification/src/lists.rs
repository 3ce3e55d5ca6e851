use vstd::prelude::*;

verus! {

/// One discrete-list entry: the exact key bytes that route to `shard`.
#[derive(Debug)]
pub struct ListEntry {
    pub key: Vec<u8>,
    pub shard: usize,
}

/// Spec-level image of a [`ListEntry`].
pub ghost struct ListEntryView {
    pub key: Seq<u8>,
    pub shard: usize,
}

impl View for ListEntry {
    type V = ListEntryView;

    open spec fn view(&self) -> ListEntryView {
        ListEntryView { key: self.key@, shard: self.shard }
    }
}

pub open spec fn lists_view(s: Seq<ListEntry>) -> Seq<ListEntryView> {
    s.map_values(|e: ListEntry| e@)
}

/// Keys name each entry at most once: the list is a mapping.
pub open spec fn list_keys_unique(s: Seq<ListEntryView>) -> bool {
    forall|i: int, j: int| 0 <= i < j < s.len() ==> s[i].key != s[j].key
}

/// The shard of the first entry whose key equals `key` exactly, or `None`.
pub open spec fn list_lookup(s: Seq<ListEntryView>, key: Seq<u8>) -> Option<usize>
    decreases s.len(),
{
    if s.len() == 0 {
        None
    } else if s[0].key == key {
        Some(s[0].shard)
    } else {
        list_lookup(s.skip(1), key)
    }
}

/// Byte-for-byte comparison of two keys.
fn bytes_eq(a: &Vec<u8>, b: &Vec<u8>) -> (r: bool)
    ensures
        r <==> a@ == b@,
{
    if a.len() != b.len() {
        return false;
    }
    let mut i: usize = 0;
    while i < a.len()
        invariant
            a@.len() == b@.len(),
            i <= a@.len(),
            forall|j: int| 0 <= j < i ==> a@[j] == b@[j],
        decreases a@.len() - i,
    {
        if a[i] != b[i] {
            return false;
        }
        i = i + 1;
    }
    proof {
        assert(a@ =~= b@);
    }
    true
}

/// Discrete-list lookup table, built once from configuration.
#[derive(Debug)]
pub struct Lists {
    pub entries: Vec<ListEntry>,
}

impl Lists {
    pub open spec fn model(self) -> Seq<ListEntryView> {
        lists_view(self.entries@)
    }

    pub open spec fn wf(self) -> bool {
        list_keys_unique(self.model())
    }

    /// Copy the configured entries into a lookup table.
    pub fn from_entries(entries: &Vec<ListEntry>) -> (r: Lists)
        ensures
            r.model() == lists_view(entries@),
    {
        let mut out: Vec<ListEntry> = Vec::new();
        let mut i: usize = 0;
        while i < entries.len()
            invariant
                i <= entries@.len(),
                out@.len() == i,
                forall|j: int| 0 <= j < i ==> #[trigger] out@[j]@ == entries@[j]@,
            decreases entries@.len() - i,
        {
            let key = vstd::slice::slice_to_vec(entries[i].key.as_slice());
            let shard = entries[i].shard;
            out.push(ListEntry { key, shard });
            i = i + 1;
        }
        proof {
            assert(lists_view(out@) =~= lists_view(entries@));
        }
        Lists { entries: out }
    }

    /// Exact-match lookup of `key` against the configured entries. No match
    /// is reported as `None`, never defaulted.
    pub fn locate(&self, key: &Vec<u8>) -> (r: Option<usize>)
        ensures
            r == list_lookup(self.model(), key@),
    {
        let ghost all: Seq<ListEntryView> = self.model();
        proof {
            assert(all.skip(0) =~= all);
        }
        let mut i: usize = 0;
        while i < self.entries.len()
            invariant
                all == self.model(),
                all.len() == self.entries@.len(),
                i <= all.len(),
                list_lookup(all, key@) == list_lookup(all.skip(i as int), key@),
            decreases all.len() - i,
        {
            proof {
                assert(all.skip(i as int)[0] == all[i as int]);
                assert(all.skip(i as int).skip(1) =~= all.skip(i + 1));
            }
            if bytes_eq(&self.entries[i].key, key) {
                return Some(self.entries[i].shard);
            }
            i = i + 1;
        }
        proof {
            assert(all.skip(all.len() as int) =~= Seq::<ListEntryView>::empty());
        }
        None
    }
}

} // verus!
