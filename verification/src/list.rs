//! A named list: a map from address or keyword strings to an annotation,
//! loaded from the lines of a text file.

use vstd::prelude::*;

use crate::assoc::Assoc;
use crate::strutil::spec_trim;
use crate::strutil::trim_ascii;

verus! {

/// A line survives loading when its trimmed form is neither empty nor a
/// `#` comment.
pub open spec fn keeps_line(t: Seq<char>) -> bool {
    t.len() > 0 && t[0] != '#'
}

/// The map after loading one line: the trimmed line maps to the
/// annotation unless the line is dropped.
pub open spec fn load_step(
    m: Map<Seq<char>, Seq<char>>,
    line: Seq<char>,
    ann: Seq<char>,
) -> Map<Seq<char>, Seq<char>> {
    if keeps_line(spec_trim(line)) {
        m.insert(spec_trim(line), ann)
    } else {
        m
    }
}

/// The map after loading a sequence of lines in order.
pub open spec fn loaded(
    m: Map<Seq<char>, Seq<char>>,
    lines: Seq<Seq<char>>,
    ann: Seq<char>,
) -> Map<Seq<char>, Seq<char>>
    decreases lines.len(),
{
    if lines.len() == 0 {
        m
    } else {
        loaded(load_step(m, lines[0], ann), lines.skip(1), ann)
    }
}

/// Loading lines that are all blank or comments changes nothing.
pub proof fn lemma_loaded_all_skipped(
    m: Map<Seq<char>, Seq<char>>,
    lines: Seq<Seq<char>>,
    ann: Seq<char>,
)
    requires
        forall|i: int| 0 <= i < lines.len() ==> !keeps_line(spec_trim(#[trigger] lines[i])),
    ensures
        loaded(m, lines, ann) == m,
    decreases lines.len(),
{
    if lines.len() > 0 {
        assert(!keeps_line(spec_trim(lines[0])));
        lemma_loaded_all_skipped(m, lines.skip(1), ann);
    }
}

/// A named mapping from string keys to string annotations.
pub struct List {
    pub name: String,
    pub description: String,
    pub map: Assoc<String>,
}

impl View for List {
    type V = Map<Seq<char>, Seq<char>>;

    /// The map the list holds, with keys and annotations as character
    /// sequences.
    open spec fn view(&self) -> Map<Seq<char>, Seq<char>> {
        self.map@.map_values(|v: String| v@)
    }
}

impl List {
    /// The key/annotation entries, in insertion order.
    pub open spec fn entries(&self) -> Seq<(String, String)> {
        self.map.entries()
    }

    /// A key is in the list exactly when some entry holds it.
    pub proof fn lemma_mem(&self)
        ensures
            forall|k: Seq<char>|
                self@.contains_key(k) <==> exists|i: int|
                    0 <= i < self.entries().len() && self.entries()[i].0@ == k,
    {
        self.map.lemma_mem();
        assert forall|k: Seq<char>| self@.contains_key(k) implies exists|i: int|
            0 <= i < self.entries().len() && self.entries()[i].0@ == k by {
            assert(self.map@.contains_key(k));
            let i = choose|i: int|
                0 <= i < self.map.entries().len() && self.map.entries()[i].0@ == k;
            assert(0 <= i < self.entries().len() && self.entries()[i].0@ == k);
        }
        assert forall|k: Seq<char>|
            (exists|i: int| 0 <= i < self.entries().len() && self.entries()[i].0@ == k) implies
            self@.contains_key(k) by {
            let i = choose|i: int| 0 <= i < self.entries().len() && self.entries()[i].0@ == k;
            assert(0 <= i < self.map.entries().len() && self.map.entries()[i].0@ == k);
            assert(self.map@.contains_key(k));
        }
    }

    /// An empty list under a name and a description.
    pub fn new(name: &str, description: &str) -> (r: List)
        ensures
            r@ == Map::<Seq<char>, Seq<char>>::empty(),
            r.entries().len() == 0,
            r.name@ == name@,
            r.description@ == description@,
    {
        let r = List {
            name: name.to_owned(),
            description: description.to_owned(),
            map: Assoc::new(),
        };
        proof {
            assert(r@ =~= Map::<Seq<char>, Seq<char>>::empty());
        }
        r
    }

    /// Whether the list holds a key; the comparison is exact, so it is
    /// case-sensitive.
    pub fn contains(&self, key: &String) -> (r: bool)
        ensures
            r == self@.contains_key(key@),
    {
        self.map.contains_key(key)
    }

    /// The annotation stored under a key.
    pub fn get(&self, key: &String) -> (r: Option<&String>)
        ensures
            match r {
                Some(v) => self@.contains_key(key@) && v@ == self@[key@],
                None => !self@.contains_key(key@),
            },
    {
        self.map.get(key)
    }

    /// Put a key in the list; an existing key's annotation is replaced.
    pub fn add(&mut self, key: String, value: String)
        ensures
            final(self)@ == old(self)@.insert(key@, value@),
            final(self).name == old(self).name,
            final(self).description == old(self).description,
            final(self).entries().len() <= old(self).entries().len() + 1,
    {
        self.map.insert(key, value);
        proof {
            assert(self@ =~= old(self)@.insert(key@, value@));
        }
    }

    /// The number of entries in the list.
    pub fn len(&self) -> (r: usize)
        ensures
            r == self.entries().len(),
    {
        self.map.len()
    }

    /// The key of the entry at an index.
    pub fn key_at(&self, i: usize) -> (r: &String)
        requires
            i < self.entries().len(),
        ensures
            r@ == self.entries()[i as int].0@,
            self@.contains_key(r@),
            self@[r@] == self.entries()[i as int].1@,
    {
        self.map.key_at(i)
    }

    /// The annotation of the entry at an index.
    pub fn val_at(&self, i: usize) -> (r: &String)
        requires
            i < self.entries().len(),
        ensures
            *r == self.entries()[i as int].1,
            self@.contains_key(self.entries()[i as int].0@),
            self@[self.entries()[i as int].0@] == self.entries()[i as int].1@,
    {
        self.map.val_at(i)
    }

    /// Load the lines of a file: each line is trimmed of ASCII
    /// whitespace, blank lines and `#` comments are dropped, and every
    /// other line is put in the list mapped to the annotation.  A
    /// repeated key keeps the last annotation.
    pub fn load_lines(&mut self, lines: &Vec<String>, info: &str)
        ensures
            final(self)@ == loaded(
                old(self)@,
                lines@.map_values(|l: String| l@),
                info@,
            ),
            final(self).name == old(self).name,
            final(self).description == old(self).description,
    {
        let ghost all = lines@.map_values(|l: String| l@);
        let ghost m0 = self@;
        let n = lines.len();
        proof {
            assert(all.skip(0) =~= all);
        }
        let mut i: usize = 0;
        while i < n
            invariant
                n == lines@.len(),
                all == lines@.map_values(|l: String| l@),
                i <= n,
                loaded(self@, all.skip(i as int), info@) == loaded(m0, all, info@),
                self.name == old(self).name,
                self.description == old(self).description,
        decreases n - i,
        {
            let ghost rest = all.skip(i as int);
            proof {
                assert(rest.len() > 0);
                assert(rest[0] == all[i as int]);
                assert(all[i as int] == lines@[i as int]@);
                assert(rest.skip(1) =~= all.skip(i + 1));
            }
            let t = trim_ascii(lines[i].as_str());
            let keep = if t.as_str().unicode_len() == 0 {
                false
            } else {
                t.as_str().get_char(0) != '#'
            };
            proof {
                assert(keep == keeps_line(spec_trim(all[i as int])));
            }
            if keep {
                let ghost before = self@;
                self.add(t, info.to_owned());
                proof {
                    assert(self@ == load_step(before, all[i as int], info@));
                }
            }
            i = i + 1;
        }
        proof {
            assert(all.skip(n as int) =~= Seq::<Seq<char>>::empty());
        }
    }
}

} // verus!
