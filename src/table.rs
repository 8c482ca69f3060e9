//! The entry table: each watched id with the fingerprint of the content that
//! the server last delivered for it.
use vstd::prelude::*;

use crate::text::{digit_char, same_text};

verus! {

/// What the MD5 digest of some bytes is.
pub uninterp spec fn md5_of(data: Seq<u8>) -> Seq<u8>;

/// Relies on md-5's `Digest::digest`: the MD5 digest of the bytes, which
/// depends on the bytes alone.
#[verifier::external_body]
fn md5_digest(data: &[u8]) -> (r: Vec<u8>)
    ensures
        r@ == md5_of(data@),
{
    <md5::Md5 as md5::Digest>::digest(data).to_vec()
}

/// The lower-case hexadecimal digit of a value below sixteen.
pub open spec fn hex_digit(d: nat) -> char {
    if d < 10 {
        digit_char(d)
    } else if d == 10 {
        'a'
    } else if d == 11 {
        'b'
    } else if d == 12 {
        'c'
    } else if d == 13 {
        'd'
    } else if d == 14 {
        'e'
    } else {
        'f'
    }
}

/// Two lower-case hexadecimal digits per byte, high nibble first.
pub open spec fn hex_of(data: Seq<u8>) -> Seq<char>
    decreases data.len(),
{
    if data.len() == 0 {
        Seq::empty()
    } else {
        hex_of(data.drop_last()) + seq![
            hex_digit((data.last() / 16) as nat),
            hex_digit((data.last() % 16) as nat),
        ]
    }
}

/// Relies on hex::encode: two lower-case digits per byte, in order.
#[verifier::external_body]
fn hex_encode(data: &[u8]) -> (r: String)
    ensures
        r@ == hex_of(data@),
{
    hex::encode(data)
}

/// The fingerprint of some content: its MD5 digest in hexadecimal.
pub open spec fn fingerprint_spec(data: Seq<u8>) -> Seq<char> {
    hex_of(md5_of(data))
}

/// Computes the fingerprint of `data`.
pub fn fingerprint(data: &[u8]) -> (r: String)
    ensures
        r@ == fingerprint_spec(data@),
{
    let digest = md5_digest(data);
    hex_encode(digest.as_slice())
}

/// An entry: an id and its fingerprint.
pub type EntryView = (Seq<char>, Seq<char>);

/// Whether `id` is one of the table's ids.
pub open spec fn has_id(t: Seq<EntryView>, id: Seq<char>) -> bool {
    exists|i: int| 0 <= i < t.len() && (#[trigger] t[i]).0 == id
}

/// No id appears twice.
pub open spec fn unique_ids(t: Seq<EntryView>) -> bool {
    forall|i: int, j: int| 0 <= i < j < t.len() ==> (#[trigger] t[i]).0 != (#[trigger] t[j]).0
}

/// The ids of the table, in order.
pub open spec fn ids_of(t: Seq<EntryView>) -> Seq<Seq<char>> {
    t.map_values(|e: EntryView| e.0)
}

/// The table after `id` has been given the fingerprint `fp`.
pub open spec fn set_spec(t: Seq<EntryView>, id: Seq<char>, fp: Seq<char>) -> Seq<EntryView> {
    t.map_values(|e: EntryView| if e.0 == id { (e.0, fp) } else { e })
}

/// Giving one id a fingerprint leaves the set of ids, and the fingerprint of
/// every other id, as they were.
pub proof fn lemma_set_keeps_others(t: Seq<EntryView>, id: Seq<char>, fp: Seq<char>)
    ensures
        set_spec(t, id, fp).len() == t.len(),
        forall|i: int| 0 <= i < t.len() ==> (#[trigger] set_spec(t, id, fp)[i]).0 == t[i].0,
        forall|i: int| 0 <= i < t.len() && t[i].0 != id ==> (#[trigger] set_spec(t, id, fp)[i]) == t[i],
        forall|i: int| 0 <= i < t.len() && t[i].0 == id ==> (#[trigger] set_spec(t, id, fp)[i]).1 == fp,
{
}

/// Each watched id with its last fingerprint; the set of ids is fixed when
/// the table is made.
pub struct EntryTable {
    entries: Vec<(String, String)>,
}

impl View for EntryTable {
    type V = Seq<EntryView>;

    closed spec fn view(&self) -> Seq<EntryView> {
        self.entries@.map_values(|e: (String, String)| (e.0@, e.1@))
    }
}

impl EntryTable {
    /// A table of the given ids, each with an empty fingerprint; an id given
    /// twice is kept once.
    pub fn new(ids: &Vec<String>) -> (r: Self)
        ensures
            unique_ids(r@),
            forall|i: int| 0 <= i < r@.len() ==> (#[trigger] r@[i]).1 == Seq::<char>::empty(),
            forall|id: Seq<char>| has_id(r@, id) <==> (exists|k: int| 0 <= k < ids@.len() && (#[trigger] ids@[k])@ == id),
    {
        let mut table = EntryTable { entries: Vec::new() };
        let mut k: usize = 0;
        while k < ids.len()
            invariant
                k <= ids@.len(),
                unique_ids(table@),
                forall|i: int| 0 <= i < table@.len() ==> (#[trigger] table@[i]).1 == Seq::<char>::empty(),
                forall|id: Seq<char>| has_id(table@, id) <==> (exists|m: int| 0 <= m < k && (#[trigger] ids@[m])@ == id),
            decreases ids@.len() - k,
        {
            let id = &ids[k];
            let ghost before = table@;
            let found = table.find(id.as_str());
            if found.is_none() {
                table.entries.push((id.clone(), String::new()));
                assert(table@ =~= before.push((id@, Seq::<char>::empty())));
            }
            proof {
                assert forall|x: Seq<char>| has_id(table@, x) <==> (exists|m: int|
                    0 <= m < k + 1 && (#[trigger] ids@[m])@ == x) by {
                    if found is None {
                        if has_id(table@, x) {
                            let i = choose|i: int| 0 <= i < table@.len() && (#[trigger] table@[i]).0 == x;
                            if i < before.len() {
                                assert(before[i] == table@[i]);
                                assert(has_id(before, x));
                            } else {
                                assert(ids@[k as int]@ == x);
                            }
                        }
                        if exists|m: int| 0 <= m < k + 1 && (#[trigger] ids@[m])@ == x {
                            let m = choose|m: int| 0 <= m < k + 1 && (#[trigger] ids@[m])@ == x;
                            if m < k {
                                assert(has_id(before, x));
                                let i = choose|i: int| 0 <= i < before.len() && (#[trigger] before[i]).0 == x;
                                assert(table@[i] == before[i]);
                            } else {
                                assert(table@[before.len() as int].0 == x);
                            }
                        }
                    } else {
                        let i = found->Some_0;
                        assert(before[i as int].0 == id@);
                        if exists|m: int| 0 <= m < k + 1 && (#[trigger] ids@[m])@ == x {
                            let m = choose|m: int| 0 <= m < k + 1 && (#[trigger] ids@[m])@ == x;
                            if m == k {
                                assert(has_id(before, x));
                            }
                        }
                    }
                }
            }
            k = k + 1;
        }
        table
    }

    /// The position of `id` in the table, if it is one of its ids.
    pub fn find(&self, id: &str) -> (r: Option<usize>)
        ensures
            match r {
                Some(i) => i < self@.len() && self@[i as int].0 == id@,
                None => !has_id(self@, id@),
            },
    {
        let mut i: usize = 0;
        while i < self.entries.len()
            invariant
                i <= self@.len(),
                self@.len() == self.entries@.len(),
                forall|j: int| 0 <= j < i ==> (#[trigger] self@[j]).0 != id@,
            decreases self@.len() - i,
        {
            if same_text(self.entries[i].0.as_str(), id) {
                return Some(i);
            }
            i = i + 1;
        }
        None
    }

    /// The number of ids.
    pub fn len(&self) -> (r: usize)
        ensures
            r == self@.len(),
    {
        self.entries.len()
    }

    /// The id and the fingerprint at position `i`.
    pub fn entry(&self, i: usize) -> (r: (&str, &str))
        requires
            i < self@.len(),
        ensures
            r.0@ == self@[i as int].0,
            r.1@ == self@[i as int].1,
    {
        (self.entries[i].0.as_str(), self.entries[i].1.as_str())
    }

    /// The fingerprint of `id`, if it is one of the table's ids.
    pub fn get(&self, id: &str) -> (r: Option<String>)
        ensures
            match r {
                Some(fp) => exists|i: int| 0 <= i < self@.len() && (#[trigger] self@[i]).0 == id@ && self@[i].1 == fp@,
                None => !has_id(self@, id@),
            },
    {
        match self.find(id) {
            Some(i) => Some(self.entries[i].1.clone()),
            None => None,
        }
    }

    /// Gives `id` the fingerprint `fp`; the other ids keep theirs, and a table
    /// without `id` is left as it is.
    pub fn set(&mut self, id: &str, fp: String)
        ensures
            final(self)@ == set_spec(old(self)@, id@, fp@),
            unique_ids(final(self)@) == unique_ids(old(self)@),
    {
        let ghost target = set_spec(old(self)@, id@, fp@);
        let mut i: usize = 0;
        while i < self.entries.len()
            invariant
                i <= self@.len(),
                self@.len() == old(self)@.len(),
                self@.len() == self.entries@.len(),
                target == set_spec(old(self)@, id@, fp@),
                forall|j: int| 0 <= j < i ==> self@[j] == target[j],
                forall|j: int| i <= j < self@.len() ==> self@[j] == old(self)@[j],
            decreases self@.len() - i,
        {
            if same_text(self.entries[i].0.as_str(), id) {
                let key = self.entries[i].0.clone();
                self.entries.set(i, (key, fp.clone()));
            }
            i = i + 1;
        }
        assert(self@ =~= target);
        proof {
            lemma_set_keeps_others(old(self)@, id@, fp@);
            let (a, b) = (old(self)@, self@);
            if unique_ids(a) {
                assert forall|i: int, j: int| 0 <= i < j < b.len() implies (#[trigger] b[i]).0 != (#[trigger] b[j]).0 by {
                    assert(b[i].0 == a[i].0 && b[j].0 == a[j].0);
                }
            }
            if unique_ids(b) {
                assert forall|i: int, j: int| 0 <= i < j < a.len() implies (#[trigger] a[i]).0 != (#[trigger] a[j]).0 by {
                    assert(b[i].0 == a[i].0 && b[j].0 == a[j].0);
                }
            }
        }
    }
}

} // verus!
