//! The in-memory file store in which the engines' intermediate outputs live
//! between passes (`.aux`, `.xdv`, `.pdf`, `.fmt`, ...). A file that an engine
//! writes is stored under its normalized TeX path when the output is closed; a
//! later open for reading finds it there.
use crate::text::split_fields;
use vstd::prelude::*;

verus! {

/// Names the result of `tectonic_io_base::normalize_tex_path`: the lexical
/// normal form of a TeX path (`.` and empty components dropped, `..` resolved
/// where possible), or the path itself where it cannot be normalized.
pub uninterp spec fn tex_path_normal_form(path: Seq<char>) -> Seq<char>;

/// A relative TeX path in normal form: `/`-separated components, none of
/// them empty, `.` or `..`.
pub open spec fn is_plain_relative_path(p: Seq<char>) -> bool {
    forall|i: int|
        0 <= i < split_fields(p, '/').len() ==> {
            let c = #[trigger] split_fields(p, '/')[i];
            c.len() > 0 && c != seq!['.'] && c != seq!['.', '.']
        }
}

/// A TeX path already in normal form: a plain relative path
/// (`is_plain_relative_path`), or `/` followed by one.
pub open spec fn is_normal_tex_path(p: Seq<char>) -> bool {
    ||| is_plain_relative_path(p)
    ||| p.len() > 0 && p[0] == '/' && is_plain_relative_path(p.drop_first())
}

/// `tectonic_io_base::normalize_tex_path`: claims that the result is the
/// function `tex_path_normal_form` of the path's characters, and that a path
/// already in normal form (`is_normal_tex_path`) comes back unchanged. How
/// other paths are rewritten is not stated.
#[verifier::external_body]
fn normalize_tex_path(path: &str) -> (r: String)
    ensures
        r@ == tex_path_normal_form(path@),
        is_normal_tex_path(path@) ==> r@ == path@,
{
    tectonic_io_base::normalize_tex_path(path).into_owned()
}

/// The normalized form of a TeX path, under which every source of input
/// files is asked.
pub fn normalized_name(name: &str) -> (r: String)
    ensures
        r@ == tex_path_normal_form(name@),
        is_normal_tex_path(name@) ==> r@ == name@,
{
    normalize_tex_path(name)
}

/// No name occurs twice among the entries.
pub open spec fn names_unique(entries: Seq<(String, Vec<u8>)>) -> bool {
    forall|i: int, j: int|
        0 <= i < entries.len() && 0 <= j < entries.len() && i != j ==> #[trigger] entries[i].0@
            != #[trigger] entries[j].0@
}

/// Some entry carries the name `k`.
pub open spec fn has_entry(entries: Seq<(String, Vec<u8>)>, k: Seq<char>) -> bool {
    exists|i: int| 0 <= i < entries.len() && #[trigger] entries[i].0@ == k
}

/// The contents of the entry named `k`.
pub open spec fn entry_data(entries: Seq<(String, Vec<u8>)>, k: Seq<char>) -> Seq<u8> {
    entries[choose|i: int| 0 <= i < entries.len() && #[trigger] entries[i].0@ == k].1@
}

/// The map from names to contents that a list of entries stands for.
pub open spec fn entries_map(entries: Seq<(String, Vec<u8>)>) -> Map<Seq<char>, Seq<u8>> {
    Map::new(|k: Seq<char>| has_entry(entries, k), |k: Seq<char>| entry_data(entries, k))
}

proof fn lemma_entry_lookup(entries: Seq<(String, Vec<u8>)>, i: int)
    requires
        names_unique(entries),
        0 <= i < entries.len(),
    ensures
        entries_map(entries).dom().contains(entries[i].0@),
        entries_map(entries)[entries[i].0@] == entries[i].1@,
{
    let k = entries[i].0@;
    assert(has_entry(entries, k));
    let j = choose|j: int| 0 <= j < entries.len() && #[trigger] entries[j].0@ == k;
    assert(j == i);
}

/// Simple in-memory file collection for intermediates.
pub struct MemoryIo {
    files: Vec<(String, Vec<u8>)>,
    stdout_allowed: bool,
}

impl View for MemoryIo {
    type V = Map<Seq<char>, Seq<u8>>;

    /// The stored files: each name mapped to its contents.
    closed spec fn view(&self) -> Map<Seq<char>, Seq<u8>> {
        entries_map(self.files@)
    }
}

impl MemoryIo {
    #[verifier::type_invariant]
    spec fn unique_names(&self) -> bool {
        names_unique(self.files@)
    }

    /// Whether the engines may write to standard output through this store.
    pub closed spec fn allows_stdout(&self) -> bool {
        self.stdout_allowed
    }

    /// An empty store.
    pub fn new(stdout_allowed: bool) -> (m: MemoryIo)
        ensures
            m@ == Map::<Seq<char>, Seq<u8>>::empty(),
            m.allows_stdout() == stdout_allowed,
    {
        let m = MemoryIo { files: Vec::new(), stdout_allowed };
        assert(m@ =~= Map::<Seq<char>, Seq<u8>>::empty());
        m
    }

    /// Whether standard output may be opened (an output open of stdout is
    /// refused as not available otherwise).
    pub fn stdout_allowed(&self) -> (b: bool)
        ensures
            b == self.allows_stdout(),
    {
        self.stdout_allowed
    }

    /// The position of the entry named `name`, if there is one.
    fn find(&self, name: &str) -> (r: Option<usize>)
        ensures
            r matches Some(i) ==> i < self.files@.len() && self.files@[i as int].0@ == name@,
            r is None ==> !has_entry(self.files@, name@),
    {
        let n = self.files.len();
        let key = name.to_owned();
        let mut i: usize = 0;
        while i < n
            invariant
                n == self.files@.len(),
                key@ == name@,
                i <= n,
                forall|j: int| 0 <= j < i ==> #[trigger] self.files@[j].0@ != name@,
            decreases n - i,
        {
            if self.files[i].0 == key {
                return Some(i);
            }
            i = i + 1;
        }
        None
    }

    /// The contents of the file `name`, if it is stored.
    pub fn get_file(&self, name: &str) -> (r: Option<Vec<u8>>)
        ensures
            match r {
                Some(data) => self@.dom().contains(name@) && data@ == self@[name@],
                None => !self@.dom().contains(name@),
            },
    {
        proof {
            use_type_invariant(self);
        }
        match self.find(name) {
            Some(i) => {
                let data = self.files[i].1.clone();
                proof {
                    lemma_entry_lookup(self.files@, i as int);
                    assert(data@ =~= self.files@[i as int].1@);
                }
                Some(data)
            },
            None => None,
        }
    }

    /// Whether the file `name` is stored.
    pub fn has_file(&self, name: &str) -> (b: bool)
        ensures
            b == self@.dom().contains(name@),
    {
        proof {
            use_type_invariant(self);
        }
        match self.find(name) {
            Some(i) => {
                proof {
                    lemma_entry_lookup(self.files@, i as int);
                }
                true
            },
            None => false,
        }
    }

    /// Forgets the file `name`, if it is stored.
    pub fn remove_file(&mut self, name: &str)
        ensures
            final(self)@ == old(self)@.remove(name@),
            final(self).allows_stdout() == old(self).allows_stdout(),
    {
        proof {
            use_type_invariant(&*self);
        }
        let ghost before = self.files@;
        match self.find(name) {
            Some(i) => {
                let mut files: Vec<(String, Vec<u8>)> = Vec::new();
                std::mem::swap(&mut files, &mut self.files);
                files.remove(i);
                let ghost after = files@;
                proof {
                    assert(names_unique(after)) by {
                        assert forall|a: int, b: int|
                            0 <= a < after.len() && 0 <= b < after.len() && a != b implies #[trigger] after[a].0@
                            != #[trigger] after[b].0@ by {
                            let oa = if a < i { a } else { a + 1 };
                            let ob = if b < i { b } else { b + 1 };
                            assert(after[a] == before[oa]);
                            assert(after[b] == before[ob]);
                        }
                    }
                    assert forall|k: Seq<char>| #![auto]
                        entries_map(after).dom().contains(k) <==> entries_map(before).remove(
                            name@,
                        ).dom().contains(k) by {
                        if has_entry(after, k) {
                            let a = choose|a: int| 0 <= a < after.len() && #[trigger] after[a].0@ == k;
                            let oa = if a < i { a } else { a + 1 };
                            assert(after[a] == before[oa]);
                            lemma_entry_lookup(before, oa);
                            lemma_entry_lookup(before, i as int);
                        }
                        if entries_map(before).remove(name@).dom().contains(k) {
                            let o = choose|o: int| 0 <= o < before.len() && #[trigger] before[o].0@ == k;
                            assert(o != i);
                            let a = if o < i { o } else { o - 1 };
                            assert(after[a] == before[o]);
                        }
                    }
                    assert forall|k: Seq<char>| #[trigger] entries_map(after).dom().contains(k) implies entries_map(
                        after,
                    )[k] == entries_map(before)[k] by {
                        let a = choose|a: int| 0 <= a < after.len() && #[trigger] after[a].0@ == k;
                        let oa = if a < i { a } else { a + 1 };
                        assert(after[a] == before[oa]);
                        lemma_entry_lookup(before, oa);
                        lemma_entry_lookup(after, a);
                    }
                    assert(entries_map(after) =~= entries_map(before).remove(name@));
                }
                self.files = files;
            },
            None => {
                proof {
                    assert(entries_map(before) =~= entries_map(before).remove(name@));
                }
            },
        }
    }

    /// Stores `data` as the contents of the file `name`, replacing any earlier
    /// contents (this is what closing an output handle does).
    pub fn insert_file(&mut self, name: String, data: Vec<u8>)
        ensures
            final(self)@ == old(self)@.insert(name@, data@),
            final(self).allows_stdout() == old(self).allows_stdout(),
    {
        proof {
            use_type_invariant(&*self);
        }
        let ghost before = self.files@;
        let ghost key = name@;
        let ghost contents = data@;
        let found = self.find(name.as_str());
        let mut files: Vec<(String, Vec<u8>)> = Vec::new();
        std::mem::swap(&mut files, &mut self.files);
        match found {
            Some(i) => {
                files[i] = (name, data);
                let ghost after = files@;
                proof {
                    assert(names_unique(after)) by {
                        assert forall|a: int, b: int|
                            0 <= a < after.len() && 0 <= b < after.len() && a != b implies #[trigger] after[a].0@
                            != #[trigger] after[b].0@ by {
                            assert(a != i ==> after[a] == before[a]);
                            assert(b != i ==> after[b] == before[b]);
                        }
                    }
                    lemma_entry_lookup(after, i as int);
                    assert forall|k: Seq<char>| #![auto]
                        entries_map(after).dom().contains(k) <==> entries_map(before).insert(
                            key,
                            contents,
                        ).dom().contains(k) by {
                        if has_entry(before, k) {
                            let o = choose|o: int| 0 <= o < before.len() && #[trigger] before[o].0@ == k;
                            if o != i {
                                assert(after[o] == before[o]);
                            }
                        }
                        if has_entry(after, k) {
                            let a = choose|a: int| 0 <= a < after.len() && #[trigger] after[a].0@ == k;
                            if a != i {
                                assert(after[a] == before[a]);
                            }
                        }
                    }
                    assert forall|k: Seq<char>| #[trigger] entries_map(after).dom().contains(k) implies entries_map(
                        after,
                    )[k] == entries_map(before).insert(key, contents)[k] by {
                        let a = choose|a: int| 0 <= a < after.len() && #[trigger] after[a].0@ == k;
                        lemma_entry_lookup(after, a);
                        if a != i {
                            assert(after[a] == before[a]);
                            lemma_entry_lookup(before, a);
                        }
                    }
                    assert(entries_map(after) =~= entries_map(before).insert(key, contents));
                }
            },
            None => {
                files.push((name, data));
                let ghost after = files@;
                proof {
                    let last = before.len() as int;
                    assert(after[last].0@ == key);
                    assert(names_unique(after)) by {
                        assert forall|a: int, b: int|
                            0 <= a < after.len() && 0 <= b < after.len() && a != b implies #[trigger] after[a].0@
                            != #[trigger] after[b].0@ by {
                            assert(a < last ==> after[a] == before[a]);
                            assert(b < last ==> after[b] == before[b]);
                        }
                    }
                    lemma_entry_lookup(after, last);
                    assert forall|k: Seq<char>| #![auto]
                        entries_map(after).dom().contains(k) <==> entries_map(before).insert(
                            key,
                            contents,
                        ).dom().contains(k) by {
                        if has_entry(before, k) {
                            let o = choose|o: int| 0 <= o < before.len() && #[trigger] before[o].0@ == k;
                            assert(after[o] == before[o]);
                        }
                        if has_entry(after, k) {
                            let a = choose|a: int| 0 <= a < after.len() && #[trigger] after[a].0@ == k;
                            if a != last {
                                assert(after[a] == before[a]);
                            }
                        }
                    }
                    assert forall|k: Seq<char>| #[trigger] entries_map(after).dom().contains(k) implies entries_map(
                        after,
                    )[k] == entries_map(before).insert(key, contents)[k] by {
                        let a = choose|a: int| 0 <= a < after.len() && #[trigger] after[a].0@ == k;
                        lemma_entry_lookup(after, a);
                        if a != last {
                            assert(after[a] == before[a]);
                            lemma_entry_lookup(before, a);
                        }
                    }
                    assert(entries_map(after) =~= entries_map(before).insert(key, contents));
                }
            },
        }
        self.files = files;
    }

    /// The name under which an output opened as `name` is stored when it is
    /// closed: its normalized TeX path. Opening for output starts from empty
    /// contents, whatever is stored under that name.
    pub fn output_open_name(&self, name: &str) -> (r: String)
        ensures
            r@ == tex_path_normal_form(name@),
            is_normal_tex_path(name@) ==> r@ == name@,
    {
        normalize_tex_path(name)
    }

    /// Opens `name` for reading: the normalized name and the stored contents,
    /// or `None` (not available) where nothing is stored under that name.
    pub fn input_open_name(&self, name: &str) -> (r: Option<(String, Vec<u8>)>)
        ensures
            match r {
                Some((n, data)) => n@ == tex_path_normal_form(name@) && self@.dom().contains(n@)
                    && data@ == self@[n@],
                None => !self@.dom().contains(tex_path_normal_form(name@)),
            },
    {
        let normalized = normalize_tex_path(name);
        match self.get_file(normalized.as_str()) {
            Some(data) => Some((normalized, data)),
            None => None,
        }
    }
}

/// Reading back a stored file gives what was stored; storing a file leaves
/// every other file as it was.
pub proof fn law_read_after_write(
    store: Map<Seq<char>, Seq<u8>>,
    name: Seq<char>,
    data: Seq<u8>,
    other: Seq<char>,
)
    ensures
        store.insert(name, data).dom().contains(name),
        store.insert(name, data)[name] == data,
        other != name ==> store.insert(name, data).dom().contains(other) == store.dom().contains(
            other,
        ),
        other != name && store.dom().contains(other) ==> store.insert(name, data)[other]
            == store[other],
{
}

/// A removed file is gone, and every other file is as it was.
pub proof fn law_remove(store: Map<Seq<char>, Seq<u8>>, name: Seq<char>, other: Seq<char>)
    ensures
        !store.remove(name).dom().contains(name),
        other != name ==> store.remove(name).dom().contains(other) == store.dom().contains(other),
        other != name && store.dom().contains(other) ==> store.remove(name)[other] == store[other],
{
}

/// What an engine writes to an output opened as `name` (stored, when the
/// output is closed, under `output_open_name(name)`) is what a later
/// `input_open_name(name)` reads: both use the normalized path.
pub proof fn law_output_then_input(store: Map<Seq<char>, Seq<u8>>, name: Seq<char>, data: Seq<u8>)
    ensures
        ({
            let after = store.insert(tex_path_normal_form(name), data);
            after.dom().contains(tex_path_normal_form(name)) && after[tex_path_normal_form(name)]
                == data
        }),
{
}

} // verus!
