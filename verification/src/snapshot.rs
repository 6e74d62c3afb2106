//! Files of a working tree, keyed by repository-relative path in `str` order.
use vstd::prelude::*;
use crate::text::{key_lt, order_of, chars_of, Order, lemma_key_lt_transitive, lemma_key_lt_irreflexive, lemma_key_lt_asymmetric};

verus! {

/// A file's content and whether it is executable: all that Git records of a regular file.
#[derive(Debug)]
pub struct File {
    pub bytes: Vec<u8>,
    pub executable: bool,
}

/// What a file holds: its bytes and its executable bit.
pub type FileView = (Seq<u8>, bool);

impl View for File {
    type V = FileView;

    open spec fn view(&self) -> FileView {
        (self.bytes@, self.executable)
    }
}

/// A copy of `bytes`.
pub fn copy_bytes(bytes: &Vec<u8>) -> (r: Vec<u8>)
    ensures
        r@ == bytes@,
{
    let mut r: Vec<u8> = Vec::with_capacity(bytes.len());
    let mut i: usize = 0;
    while i < bytes.len()
        invariant
            i <= bytes.len(),
            r@ == bytes@.take(i as int),
        decreases bytes.len() - i,
    {
        r.push(bytes[i]);
        i = i + 1;
        assert(r@ =~= bytes@.take(i as int));
    }
    assert(r@ =~= bytes@);
    r
}

/// Whether two byte strings are equal.
pub fn same_bytes(a: &Vec<u8>, b: &Vec<u8>) -> (r: bool)
    ensures
        r == (a@ == b@),
{
    if a.len() != b.len() {
        return false;
    }
    let mut i: usize = 0;
    while i < a.len()
        invariant
            i <= a.len(),
            a.len() == b.len(),
            a@.take(i as int) == b@.take(i as int),
        decreases a.len() - i,
    {
        if a[i] != b[i] {
            assert(a@[i as int] != b@[i as int]);
            return false;
        }
        assert(a@.take(i + 1) =~= a@.take(i as int).push(a@[i as int]));
        assert(b@.take(i + 1) =~= b@.take(i as int).push(b@[i as int]));
        i = i + 1;
    }
    assert(a@ =~= a@.take(i as int));
    assert(b@ =~= b@.take(i as int));
    true
}

/// Whether `bytes` holds a NUL byte, the mark of a binary file.
pub fn has_nul(bytes: &Vec<u8>) -> (r: bool)
    ensures
        r == bytes@.contains(0u8),
{
    let mut i: usize = 0;
    while i < bytes.len()
        invariant
            i <= bytes.len(),
            forall|j: int| 0 <= j < i ==> bytes@[j] != 0u8,
        decreases bytes.len() - i,
    {
        if bytes[i] == 0 {
            assert(bytes@[i as int] == 0u8);
            return true;
        }
        i = i + 1;
    }
    false
}

impl File {
    /// A copy of this file.
    pub fn copy(&self) -> (r: File)
        ensures
            r@ == self@,
    {
        File { bytes: copy_bytes(&self.bytes), executable: self.executable }
    }

    /// Whether two files have the same content and mode.
    pub fn same(&self, other: &File) -> (r: bool)
        ensures
            r == (self@ == other@),
    {
        self.executable == other.executable && same_bytes(&self.bytes, &other.bytes)
    }
}

/// The keys are in strictly increasing `str` order.
pub open spec fn sorted(keys: Seq<Seq<char>>) -> bool {
    forall|i: int, j: int| 0 <= i < j < keys.len() ==> key_lt(#[trigger] keys[i], #[trigger] keys[j])
}

/// The map with one entry per key, from parallel sequences of keys and files.
pub open spec fn map_of(keys: Seq<Seq<char>>, files: Seq<FileView>) -> Map<Seq<char>, FileView> {
    Map::new(
        |k: Seq<char>| keys.contains(k),
        |k: Seq<char>| files[keys.index_of(k)],
    )
}

/// Files by path. The paths stay sorted and distinct, as in a `BTreeMap`.
#[derive(Debug)]
pub struct Snapshot {
    entries: Vec<(String, File)>,
}

impl Snapshot {
    /// The paths, in order.
    pub closed spec fn keys(&self) -> Seq<Seq<char>> {
        self.entries@.map_values(|e: (String, File)| e.0@)
    }

    /// The files, in the order of their paths.
    pub closed spec fn files(&self) -> Seq<FileView> {
        self.entries@.map_values(|e: (String, File)| e.1@)
    }

    #[verifier::type_invariant]
    closed spec fn inv(&self) -> bool {
        sorted(self.keys())
    }
}

impl View for Snapshot {
    type V = Map<Seq<char>, FileView>;

    closed spec fn view(&self) -> Map<Seq<char>, FileView> {
        map_of(self.keys(), self.files())
    }
}

pub proof fn lemma_sorted_distinct(keys: Seq<Seq<char>>, i: int, j: int)
    requires
        sorted(keys),
        0 <= i < keys.len(),
        0 <= j < keys.len(),
        i != j,
    ensures
        keys[i] != keys[j],
{
    if i < j {
        assert(key_lt(keys[i], keys[j]));
        lemma_key_lt_irreflexive(keys[i]);
    } else {
        assert(key_lt(keys[j], keys[i]));
        lemma_key_lt_irreflexive(keys[i]);
    }
}

proof fn lemma_map_of_at(keys: Seq<Seq<char>>, files: Seq<FileView>, i: int)
    requires
        sorted(keys),
        keys.len() == files.len(),
        0 <= i < keys.len(),
    ensures
        map_of(keys, files).dom().contains(keys[i]),
        map_of(keys, files)[keys[i]] == files[i],
{
    assert(keys.contains(keys[i]));
    let j = keys.index_of(keys[i]);
    assert(0 <= j < keys.len() && keys[j] == keys[i]);
    if j != i {
        lemma_sorted_distinct(keys, i, j);
    }
}


proof fn lemma_sorted_same_set(a: Seq<Seq<char>>, b: Seq<Seq<char>>, n: int)
    requires
        sorted(a),
        sorted(b),
        a.len() == b.len(),
        forall|k: Seq<char>| a.contains(k) <==> b.contains(k),
        0 <= n <= a.len(),
    ensures
        forall|i: int| 0 <= i < n ==> a[i] == b[i],
    decreases n,
{
    if n > 0 {
        lemma_sorted_same_set(a, b, n - 1);
        let i = n - 1;
        assert(a.contains(a[i]));
        let j = choose|j: int| 0 <= j < b.len() && b[j] == a[i];
        assert(b.contains(b[i]));
        let k = choose|k: int| 0 <= k < a.len() && a[k] == b[i];
        if j < i {
            assert(a[j] == b[j]);
            lemma_sorted_distinct(a, i, j);
        }
        if k < i {
            assert(a[k] == b[k]);
            lemma_sorted_distinct(b, i, k);
        }
        if j > i {
            assert(key_lt(b[i], b[j]));
            if k > i {
                assert(key_lt(a[i], a[k]));
                lemma_key_lt_asymmetric(a[i], a[k]);
            } else {
                lemma_sorted_distinct(b, i, j);
            }
        }
    }
}

/// The paths of a set in increasing order, the order a `BTreeMap` walks them in.
pub open spec fn ordered(s: Set<Seq<char>>) -> Seq<Seq<char>> {
    choose|o: Seq<Seq<char>>| sorted(o) && o.to_set() == s
}

/// A set has one increasing sequence of its paths.
pub proof fn lemma_ordered(k: Seq<Seq<char>>, s: Set<Seq<char>>)
    requires
        sorted(k),
        k.to_set() == s,
    ensures
        ordered(s) == k,
{
    let o = ordered(s);
    assert(sorted(o) && o.to_set() == s);
    lemma_sorted_len(o);
    lemma_sorted_len(k);
    assert forall|x: Seq<char>| o.contains(x) <==> k.contains(x) by {
        assert(o.to_set().contains(x) <==> o.contains(x));
        assert(k.to_set().contains(x) <==> k.contains(x));
    }
    lemma_sorted_same_set(o, k, o.len() as int);
    assert(o =~= k);
}

proof fn lemma_sorted_len(a: Seq<Seq<char>>)
    requires
        sorted(a),
    ensures
        a.no_duplicates(),
        a.to_set().len() == a.len(),
{
    assert forall|i: int, j: int| 0 <= i < a.len() && 0 <= j < a.len() && i != j implies a[i] != a[j] by {
        lemma_sorted_distinct(a, i, j);
    }
    a.unique_seq_to_set();
}

impl Snapshot {
    /// An empty snapshot.
    pub fn new() -> (r: Snapshot)
        ensures
            r@ == Map::<Seq<char>, FileView>::empty(),
            r.keys().len() == 0,
    {
        let r = Snapshot { entries: Vec::new() };
        assert(r@ =~= Map::<Seq<char>, FileView>::empty());
        r
    }

    /// The number of files.
    pub fn count(&self) -> (r: usize)
        ensures
            r == self.keys().len(),
            sorted(self.keys()),
            self.keys().len() == self.files().len(),
            self@.dom().len() == r,
            forall|k: Seq<char>| #[trigger] self@.dom().contains(k) <==> self.keys().contains(k),
            forall|i: int| 0 <= i < self.keys().len() ==> self@[#[trigger] self.keys()[i]] == self.files()[i],
    {
        proof {
            use_type_invariant(self);
            self.lemma_view();
        }
        self.entries.len()
    }

    proof fn lemma_view(&self)
        requires
            self.inv(),
        ensures
            self.keys().len() == self.files().len(),
            self@.dom().len() == self.keys().len(),
            self@.dom() == self.keys().to_set(),
            forall|k: Seq<char>| #[trigger] self@.dom().contains(k) <==> self.keys().contains(k),
            forall|i: int| 0 <= i < self.keys().len() ==> self@[#[trigger] self.keys()[i]] == self.files()[i],
    {
        assert forall|i: int| 0 <= i < self.keys().len() implies self@[#[trigger] self.keys()[i]] == self.files()[i] by {
            lemma_map_of_at(self.keys(), self.files(), i);
        }
        assert(self@.dom() =~= self.keys().to_set());
        lemma_sorted_len(self.keys());
    }

    /// The path of entry `i`.
    pub fn path_at(&self, i: usize) -> (r: &String)
        requires
            i < self.keys().len(),
        ensures
            r@ == self.keys()[i as int],
    {
        &self.entries[i].0
    }

    /// The file of entry `i`.
    pub fn file_at(&self, i: usize) -> (r: &File)
        requires
            i < self.keys().len(),
        ensures
            r@ == self.files()[i as int],
            r@ == self@[self.keys()[i as int]],
    {
        proof {
            use_type_invariant(self);
            self.lemma_view();
        }
        &self.entries[i].1
    }

    /// Where `path` stands: its index, or the index it would be inserted at.
    fn find(&self, path: &Vec<char>) -> (r: Result<usize, usize>)
        ensures
            r matches Ok(i) ==> i < self.keys().len() && self.keys()[i as int] == path@,
            r matches Err(p) ==> p <= self.keys().len() && (forall|i: int|
                0 <= i < p ==> key_lt(#[trigger] self.keys()[i], path@)) && (forall|i: int|
                p <= i < self.keys().len() ==> key_lt(path@, #[trigger] self.keys()[i])),
    {
        proof {
            use_type_invariant(self);
        }
        let mut lo: usize = 0;
        let mut hi: usize = self.entries.len();
        while lo < hi
            invariant
                sorted(self.keys()),
                lo <= hi <= self.keys().len(),
                self.keys().len() == self.entries@.len(),
                forall|i: int| 0 <= i < lo ==> key_lt(#[trigger] self.keys()[i], path@),
                forall|i: int| hi <= i < self.keys().len() ==> key_lt(path@, #[trigger] self.keys()[i]),
            decreases hi - lo,
        {
            let mid = lo + (hi - lo) / 2;
            let key = chars_of(self.entries[mid].0.as_str());
            assert(key@ == self.keys()[mid as int]);
            match order_of(&key, path) {
                Order::Equal => {
                    return Ok(mid);
                },
                Order::Less => {
                    assert forall|i: int| 0 <= i < mid + 1 implies key_lt(#[trigger] self.keys()[i], path@) by {
                        if i < mid {
                            lemma_key_lt_transitive(self.keys()[i], self.keys()[mid as int], path@);
                        }
                    }
                    lo = mid + 1;
                },
                Order::Greater => {
                    assert forall|i: int| mid <= i < self.keys().len() implies key_lt(path@, #[trigger] self.keys()[i]) by {
                        if i > mid {
                            lemma_key_lt_transitive(path@, self.keys()[mid as int], self.keys()[i]);
                        }
                    }
                    hi = mid;
                },
            }
        }
        Err(lo)
    }

    /// The file at `path`, if there is one.
    pub fn get(&self, path: &str) -> (r: Option<&File>)
        ensures
            r matches Some(f) ==> self@.dom().contains(path@) && f@ == self@[path@],
            r is None ==> !self@.dom().contains(path@),
    {
        proof {
            use_type_invariant(self);
            self.lemma_view();
        }
        let key = chars_of(path);
        match self.find(&key) {
            Ok(i) => Some(&self.entries[i].1),
            Err(p) => {
                assert(!self.keys().contains(path@)) by {
                    if self.keys().contains(path@) {
                        let j = choose|j: int| 0 <= j < self.keys().len() && self.keys()[j] == path@;
                        lemma_key_lt_irreflexive(path@);
                    }
                }
                None
            },
        }
    }

    /// Sets the file at `path`.
    pub fn insert(&mut self, path: String, file: File)
        ensures
            final(self)@ == old(self)@.insert(path@, file@),
    {
        proof {
            use_type_invariant(&*self);
            self.lemma_view();
        }
        let key = chars_of(path.as_str());
        let ghost old_keys = self.keys();
        let ghost old_files = self.files();
        let ghost fv = file@;
        match self.find(&key) {
            Ok(i) => {
                let mut entries: Vec<(String, File)> = Vec::new();
                std::mem::swap(&mut entries, &mut self.entries);
                entries.set(i, (path, file));
                proof {
                    let ne = entries@;
                    assert(ne.map_values(|e: (String, File)| e.0@) =~= old_keys);
                    assert(ne.map_values(|e: (String, File)| e.1@) =~= old_files.update(i as int, fv));
                    let nk = ne.map_values(|e: (String, File)| e.0@);
                    let nf = ne.map_values(|e: (String, File)| e.1@);
                    assert forall|k: Seq<char>| #[trigger] map_of(nk, nf).dom().contains(k) == map_of(old_keys, old_files).insert(key@, fv).dom().contains(k) by {
                        assert(old_keys.contains(key@));
                    }
                    assert forall|k: Seq<char>| map_of(nk, nf).dom().contains(k) implies #[trigger] map_of(nk, nf)[k] == map_of(old_keys, old_files).insert(key@, fv)[k] by {
                        let j = choose|j: int| 0 <= j < nk.len() && nk[j] == k;
                        lemma_map_of_at(nk, nf, j);
                        lemma_map_of_at(old_keys, old_files, j);
                        if j != i {
                            lemma_sorted_distinct(old_keys, i as int, j);
                        }
                    }
                    assert(map_of(nk, nf) =~= map_of(old_keys, old_files).insert(key@, fv));
                }
                self.entries = entries;
            },
            Err(p) => {
                let mut entries: Vec<(String, File)> = Vec::new();
                std::mem::swap(&mut entries, &mut self.entries);
                entries.insert(p, (path, file));
                proof {
                    let ne = entries@;
                    let nk = ne.map_values(|e: (String, File)| e.0@);
                    let nf = ne.map_values(|e: (String, File)| e.1@);
                    assert(nk =~= old_keys.insert(p as int, key@));
                    assert(nf =~= old_files.insert(p as int, fv));
                    assert forall|a: int, b: int| 0 <= a < b < nk.len() implies key_lt(#[trigger] nk[a], #[trigger] nk[b]) by {
                        if b < p {
                        } else if a < p && b == p {
                        } else if a < p && b > p {
                            assert(nk[b] == old_keys[b - 1]);
                            lemma_key_lt_transitive(old_keys[a], key@, old_keys[b - 1]);
                        } else if a == p {
                            assert(nk[b] == old_keys[b - 1]);
                        } else {
                            assert(nk[a] == old_keys[a - 1]);
                            assert(nk[b] == old_keys[b - 1]);
                        }
                    }
                    assert forall|k: Seq<char>| #[trigger] map_of(nk, nf).dom().contains(k) == map_of(old_keys, old_files).insert(key@, fv).dom().contains(k) by {
                        if nk.contains(k) {
                            let j = choose|j: int| 0 <= j < nk.len() && nk[j] == k;
                            if j < p {
                                assert(old_keys[j] == k);
                            } else if j > p {
                                assert(old_keys[j - 1] == k);
                            }
                        }
                        if old_keys.contains(k) {
                            let j = choose|j: int| 0 <= j < old_keys.len() && old_keys[j] == k;
                            if j < p {
                                assert(nk[j] == k);
                            } else {
                                assert(nk[j + 1] == k);
                            }
                        }
                        assert(nk[p as int] == key@);
                    }
                    assert forall|k: Seq<char>| map_of(nk, nf).dom().contains(k) implies #[trigger] map_of(nk, nf)[k] == map_of(old_keys, old_files).insert(key@, fv)[k] by {
                        let j = choose|j: int| 0 <= j < nk.len() && nk[j] == k;
                        lemma_map_of_at(nk, nf, j);
                        if j < p {
                            lemma_map_of_at(old_keys, old_files, j);
                            lemma_key_lt_irreflexive(key@);
                        } else if j > p {
                            lemma_map_of_at(old_keys, old_files, j - 1);
                            lemma_key_lt_irreflexive(key@);
                        }
                    }
                    assert(map_of(nk, nf) =~= map_of(old_keys, old_files).insert(key@, fv));
                }
                self.entries = entries;
            },
        }
    }
}


impl Snapshot {
    /// Removes the file at `path`, if there is one.
    pub fn remove(&mut self, path: &str)
        ensures
            final(self)@ == old(self)@.remove(path@),
    {
        proof {
            use_type_invariant(&*self);
            self.lemma_view();
        }
        let key = chars_of(path);
        let ghost old_keys = self.keys();
        let ghost old_files = self.files();
        match self.find(&key) {
            Ok(i) => {
                let mut entries: Vec<(String, File)> = Vec::new();
                std::mem::swap(&mut entries, &mut self.entries);
                entries.remove(i);
                proof {
                    let ne = entries@;
                    let nk = ne.map_values(|e: (String, File)| e.0@);
                    let nf = ne.map_values(|e: (String, File)| e.1@);
                    assert(nk =~= old_keys.remove(i as int));
                    assert(nf =~= old_files.remove(i as int));
                    assert forall|a: int, b: int| 0 <= a < b < nk.len() implies key_lt(#[trigger] nk[a], #[trigger] nk[b]) by {
                        if b < i {
                        } else if a < i {
                            assert(nk[b] == old_keys[b + 1]);
                        } else {
                            assert(nk[a] == old_keys[a + 1]);
                            assert(nk[b] == old_keys[b + 1]);
                        }
                    }
                    assert forall|k: Seq<char>| #[trigger] map_of(nk, nf).dom().contains(k) == map_of(old_keys, old_files).remove(key@).dom().contains(k) by {
                        if nk.contains(k) {
                            let j = choose|j: int| 0 <= j < nk.len() && nk[j] == k;
                            if j < i {
                                assert(old_keys[j] == k);
                                lemma_sorted_distinct(old_keys, i as int, j);
                            } else {
                                assert(old_keys[j + 1] == k);
                                lemma_sorted_distinct(old_keys, i as int, j + 1);
                            }
                        }
                        if old_keys.contains(k) && k != key@ {
                            let j = choose|j: int| 0 <= j < old_keys.len() && old_keys[j] == k;
                            if j < i {
                                assert(nk[j] == k);
                            } else {
                                assert(j != i);
                                assert(nk[j - 1] == k);
                            }
                        }
                    }
                    assert forall|k: Seq<char>| map_of(nk, nf).dom().contains(k) implies #[trigger] map_of(nk, nf)[k] == map_of(old_keys, old_files).remove(key@)[k] by {
                        let j = choose|j: int| 0 <= j < nk.len() && nk[j] == k;
                        lemma_map_of_at(nk, nf, j);
                        if j < i {
                            lemma_map_of_at(old_keys, old_files, j);
                        } else {
                            lemma_map_of_at(old_keys, old_files, j + 1);
                        }
                    }
                    assert(map_of(nk, nf) =~= map_of(old_keys, old_files).remove(key@));
                }
                self.entries = entries;
            },
            Err(p) => {
                assert(!old_keys.contains(key@)) by {
                    if old_keys.contains(key@) {
                        let j = choose|j: int| 0 <= j < old_keys.len() && old_keys[j] == key@;
                        lemma_key_lt_irreflexive(key@);
                    }
                }
                assert(self@ =~= old(self)@.remove(path@));
            },
        }
    }

    /// A copy of this snapshot.
    pub fn copy(&self) -> (r: Snapshot)
        ensures
            r@ == self@,
            r.keys() == self.keys(),
    {
        proof {
            use_type_invariant(self);
        }
        let mut entries: Vec<(String, File)> = Vec::new();
        let mut i: usize = 0;
        while i < self.entries.len()
            invariant
                i <= self.entries@.len(),
                entries@.len() == i,
                forall|j: int| 0 <= j < i ==> (#[trigger] entries@[j]).0@ == self.entries@[j].0@
                    && entries@[j].1@ == self.entries@[j].1@,
            decreases self.entries@.len() - i,
        {
            let path = self.entries[i].0.clone();
            let file = self.entries[i].1.copy();
            entries.push((path, file));
            i = i + 1;
        }
        assert(entries@.map_values(|e: (String, File)| e.0@) =~= self.keys());
        let r = Snapshot { entries };
        assert(r.keys() =~= self.keys());
        assert(r.files() =~= self.files());
        r
    }

    /// Whether two snapshots hold the same files at the same paths.
    pub fn same(&self, other: &Snapshot) -> (r: bool)
        ensures
            r == (self@ == other@),
    {
        proof {
            use_type_invariant(self);
            use_type_invariant(other);
            self.lemma_view();
            other.lemma_view();
        }
        let ghost a = self.keys();
        let ghost b = other.keys();
        if self.entries.len() != other.entries.len() {
            assert(self@ != other@) by {
                if self@ == other@ {
                    assert(a.to_set() == b.to_set());
                }
            }
            return false;
        }
        let mut i: usize = 0;
        while i < self.entries.len()
            invariant
                i <= a.len(),
                a.len() == b.len(),
                a.len() == self.entries@.len(),
                b.len() == other.entries@.len(),
                a == self.keys(),
                b == other.keys(),
                self.files().len() == a.len(),
                other.files().len() == b.len(),
                forall|j: int| 0 <= j < i ==> #[trigger] a[j] == b[j],
                forall|j: int| 0 <= j < i ==> #[trigger] self.files()[j] == other.files()[j],
            decreases a.len() - i,
        {
            let pa = chars_of(self.entries[i].0.as_str());
            let pb = chars_of(other.entries[i].0.as_str());
            let same_path = match order_of(&pa, &pb) {
                Order::Equal => true,
                _ => false,
            };
            if !same_path || !self.entries[i].1.same(&other.entries[i].1) {
                proof {
                    use_type_invariant(self);
                    use_type_invariant(other);
                    self.lemma_view();
                    other.lemma_view();
                }
                assert(self@ != other@) by {
                    if self@ == other@ {
                        assert forall|k: Seq<char>| a.contains(k) <==> b.contains(k) by {
                            assert(self@.dom().contains(k) == other@.dom().contains(k));
                        }
                        lemma_sorted_same_set(a, b, a.len() as int);
                        assert(self@[a[i as int]] == self.files()[i as int]);
                        assert(other@[b[i as int]] == other.files()[i as int]);
                    }
                }
                return false;
            }
            assert(self.files()[i as int] == self.entries@[i as int].1@);
            assert(other.files()[i as int] == other.entries@[i as int].1@);
            assert(a[i as int] == self.entries@[i as int].0@);
            assert(b[i as int] == other.entries@[i as int].0@);
            assert(pa@ == pb@);
            assert(a[i as int] == b[i as int]);
            assert(self.files()[i as int] == other.files()[i as int]);
            i = i + 1;
        }
        assert(a =~= b);
        assert forall|j: int| 0 <= j < a.len() implies self.files()[j] == other.files()[j] by {}
        assert(self.files() =~= other.files());
        true
    }

    /// Adds every file of `other`, replacing files at the same paths.
    pub fn extend(&mut self, other: &Snapshot)
        ensures
            final(self)@ == old(self)@.union_prefer_right(other@),
    {
        let n = other.count();
        let mut i: usize = 0;
        while i < n
            invariant
                n == other.keys().len(),
                i <= n,
                sorted(other.keys()),
                forall|k: Seq<char>| #[trigger] other@.dom().contains(k) <==> other.keys().contains(k),
                forall|j: int| 0 <= j < other.keys().len() ==> other@[#[trigger] other.keys()[j]] == other.files()[j],
                self@ == old(self)@.union_prefer_right(other@.restrict(other.keys().take(i as int).to_set())),
            decreases n - i,
        {
            let path = other.path_at(i).clone();
            let file = other.file_at(i).copy();
            self.insert(path, file);
            proof {
                let ki = other.keys()[i as int];
                let t1 = other.keys().take(i + 1);
                let t0 = other.keys().take(i as int);
                assert(t1 =~= t0.push(ki));
                assert forall|k: Seq<char>| t1.contains(k) <==> (t0.contains(k) || k == ki) by {
                    if t1.contains(k) {
                        let j = choose|j: int| 0 <= j < t1.len() && #[trigger] t1[j] == k;
                        if j < i {
                            assert(t0[j] == k);
                        }
                    }
                    if t0.contains(k) {
                        let j = choose|j: int| 0 <= j < t0.len() && #[trigger] t0[j] == k;
                        assert(t1[j] == k);
                    }
                    if k == ki {
                        assert(t1[i as int] == k);
                    }
                }
                assert(t1.to_set() =~= t0.to_set().insert(ki));
                assert(self@ =~= old(self)@.union_prefer_right(other@.restrict(other.keys().take(i + 1).to_set())));
            }
            i = i + 1;
        }
        proof {
            assert(other.keys().take(n as int) =~= other.keys());
            assert(other@.restrict(other.keys().to_set()) =~= other@);
        }
    }
}


impl Snapshot {
    /// The paths, in order.
    pub fn paths(&self) -> (r: Vec<String>)
        ensures
            r@.map_values(|x: String| x@) == self.keys(),
            sorted(self.keys()),
            forall|k: Seq<char>| #[trigger] self@.dom().contains(k) <==> self.keys().contains(k),
    {
        proof {
            use_type_invariant(self);
            self.lemma_view();
        }
        let mut r: Vec<String> = Vec::new();
        let mut i: usize = 0;
        while i < self.entries.len()
            invariant
                i <= self.entries@.len(),
                r@.len() == i,
                self.keys().len() == self.entries@.len(),
                r@.map_values(|x: String| x@) == self.keys().take(i as int),
            decreases self.entries@.len() - i,
        {
            let ghost before = r@;
            let p = self.entries[i].0.clone();
            r.push(p);
            assert(self.keys()[i as int] == self.entries@[i as int].0@);
            assert forall|j: int| 0 <= j < i + 1 implies r@.map_values(|x: String| x@)[j] == #[trigger] self.keys().take(i + 1)[j] by {
                if j < i {
                    assert(r@[j] == before[j]);
                    assert(before.map_values(|x: String| x@)[j] == self.keys().take(i as int)[j]);
                }
            }
            assert(r@.map_values(|x: String| x@) =~= self.keys().take(i + 1));
            i = i + 1;
        }
        assert(self.keys().take(i as int) =~= self.keys());
        r
    }
}

} // verus!
