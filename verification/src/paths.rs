//! Paths relative to the notes root, and the lexicographic order the
//! browse projection sorts them by.

use vstd::prelude::*;

verus! {

/// A filesystem location relative to the notes root, as a list of path
/// components. The empty list denotes the root itself.
#[derive(Debug, PartialEq, Eq)]
pub struct NotePath {
    pub parts: Vec<String>,
}

impl View for NotePath {
    type V = Seq<Seq<char>>;

    open spec fn view(&self) -> Seq<Seq<char>> {
        self.parts.deep_view()
    }
}

/// One filesystem object below the notes root, as the scanner reports it.
#[derive(Debug, PartialEq, Eq)]
pub struct Entry {
    pub path: NotePath,
    pub is_dir: bool,
}

/// The mathematical value of an `Entry`.
pub struct EntryModel {
    pub path: Seq<Seq<char>>,
    pub is_dir: bool,
}

impl View for Entry {
    type V = EntryModel;

    open spec fn view(&self) -> EntryModel {
        EntryModel { path: self.path@, is_dir: self.is_dir }
    }
}

/// `a` comes strictly before `b` in character-by-character order, with a
/// proper prefix coming before any of its extensions.
pub open spec fn str_lt(a: Seq<char>, b: Seq<char>) -> bool
    decreases a.len(),
{
    if b.len() == 0 {
        false
    } else if a.len() == 0 {
        true
    } else if a[0] != b[0] {
        (a[0] as u32) < (b[0] as u32)
    } else {
        str_lt(a.drop_first(), b.drop_first())
    }
}

/// `a` comes strictly before `b` component by component, with an ancestor
/// coming before any of its descendants.
pub open spec fn path_lt(a: Seq<Seq<char>>, b: Seq<Seq<char>>) -> bool
    decreases a.len(),
{
    if b.len() == 0 {
        false
    } else if a.len() == 0 {
        true
    } else if a[0] != b[0] {
        str_lt(a[0], b[0])
    } else {
        path_lt(a.drop_first(), b.drop_first())
    }
}

/// `a` is an initial run of `b`'s components; every path is a prefix of
/// itself, and the root (the empty path) is a prefix of every path.
pub open spec fn is_prefix_of(a: Seq<Seq<char>>, b: Seq<Seq<char>>) -> bool {
    a.len() <= b.len() && a == b.subrange(0, a.len() as int)
}

proof fn lemma_str_lt_skip(a: Seq<char>, b: Seq<char>, i: int)
    requires
        0 <= i <= a.len(),
        i <= b.len(),
        forall|j: int| 0 <= j < i ==> a[j] == b[j],
    ensures
        str_lt(a, b) == str_lt(a.skip(i), b.skip(i)),
    decreases i,
{
    if i > 0 {
        assert(a.len() > 0 && b.len() > 0);
        assert(a[0] == b[0]);
        assert(str_lt(a, b) == str_lt(a.drop_first(), b.drop_first()));
        lemma_str_lt_skip(a.drop_first(), b.drop_first(), i - 1);
        assert(a.drop_first().skip(i - 1) =~= a.skip(i));
        assert(b.drop_first().skip(i - 1) =~= b.skip(i));
    } else {
        assert(a.skip(0) =~= a);
        assert(b.skip(0) =~= b);
    }
}

proof fn lemma_path_lt_skip(a: Seq<Seq<char>>, b: Seq<Seq<char>>, i: int)
    requires
        0 <= i <= a.len(),
        i <= b.len(),
        forall|j: int| 0 <= j < i ==> a[j] == b[j],
    ensures
        path_lt(a, b) == path_lt(a.skip(i), b.skip(i)),
    decreases i,
{
    if i > 0 {
        assert(a.len() > 0 && b.len() > 0);
        assert(a[0] == b[0]);
        assert(path_lt(a, b) == path_lt(a.drop_first(), b.drop_first()));
        lemma_path_lt_skip(a.drop_first(), b.drop_first(), i - 1);
        assert(a.drop_first().skip(i - 1) =~= a.skip(i));
        assert(b.drop_first().skip(i - 1) =~= b.skip(i));
    } else {
        assert(a.skip(0) =~= a);
        assert(b.skip(0) =~= b);
    }
}

/// The first `n` components of `src`, each freshly cloned.
fn clone_prefix(src: &Vec<String>, n: usize) -> (r: Vec<String>)
    requires
        n <= src.len(),
    ensures
        r.deep_view() == src.deep_view().subrange(0, n as int),
{
    let mut parts: Vec<String> = Vec::new();
    let mut i: usize = 0;
    while i < n
        invariant
            i <= n,
            n <= src.len(),
            parts@.len() == i,
            forall|j: int| 0 <= j < i ==> parts@[j]@ == src@[j]@,
        decreases n - i,
    {
        parts.push(src[i].clone());
        i = i + 1;
    }
    proof {
        assert(parts.deep_view() =~= src.deep_view().subrange(0, n as int));
    }
    parts
}

/// Character-by-character comparison of two strings, exactly `str_lt`.
pub fn str_less(a: &str, b: &str) -> (r: bool)
    ensures
        r == str_lt(a@, b@),
{
    let alen = a.unicode_len();
    let blen = b.unicode_len();
    let mut i: usize = 0;
    loop
        invariant
            i <= alen,
            i <= blen,
            alen == a@.len(),
            blen == b@.len(),
            forall|j: int| 0 <= j < i ==> a@[j] == b@[j],
        decreases alen - i,
    {
        proof {
            lemma_str_lt_skip(a@, b@, i as int);
        }
        if i >= blen {
            assert(b@.skip(i as int).len() == 0);
            return false;
        }
        if i >= alen {
            assert(a@.skip(i as int).len() == 0);
            return true;
        }
        let ca = a.get_char(i);
        let cb = b.get_char(i);
        assert(a@.skip(i as int)[0] == a@[i as int]);
        assert(b@.skip(i as int)[0] == b@[i as int]);
        if ca != cb {
            return (ca as u32) < (cb as u32);
        }
        i = i + 1;
    }
}

impl NotePath {
    /// The notes root itself.
    pub fn root() -> (r: NotePath)
        ensures
            r@ == Seq::<Seq<char>>::empty(),
    {
        let r = NotePath { parts: Vec::new() };
        proof {
            assert(r@ =~= Seq::<Seq<char>>::empty());
        }
        r
    }

    pub fn depth(&self) -> (n: usize)
        ensures
            n == self@.len(),
    {
        self.parts.len()
    }

    pub fn is_root(&self) -> (r: bool)
        ensures
            r == (self@.len() == 0),
    {
        self.parts.len() == 0
    }

    /// A fresh path with the same components.
    pub fn duplicate(&self) -> (r: NotePath)
        ensures
            r@ == self@,
    {
        let r = NotePath { parts: clone_prefix(&self.parts, self.parts.len()) };
        proof {
            assert(r@ =~= self@);
        }
        r
    }

    /// The directory this path sits in; the root is its own parent.
    pub fn parent(&self) -> (r: NotePath)
        ensures
            self@.len() > 0 ==> r@ == self@.drop_last(),
            self@.len() == 0 ==> r@ == self@,
    {
        let n = if self.parts.len() == 0 {
            0
        } else {
            self.parts.len() - 1
        };
        let r = NotePath { parts: clone_prefix(&self.parts, n) };
        proof {
            if self@.len() > 0 {
                assert(r@ =~= self@.drop_last());
            } else {
                assert(r@ =~= self@);
            }
        }
        r
    }

    /// This path with one more component at the end.
    pub fn child(&self, name: String) -> (r: NotePath)
        ensures
            r@ == self@.push(name@),
    {
        let mut parts = clone_prefix(&self.parts, self.parts.len());
        let ghost before = parts.deep_view();
        parts.push(name);
        proof {
            assert(parts.deep_view() =~= before.push(name@));
        }
        let r = NotePath { parts };
        proof {
            assert(r@ =~= self@.push(name@));
        }
        r
    }

    /// The last component, the name shown for this path in the browse list.
    pub fn last_component(&self) -> (r: &String)
        requires
            self@.len() > 0,
        ensures
            r@ == self@.last(),
    {
        &self.parts[self.parts.len() - 1]
    }

    /// Component-for-component equality.
    pub fn same_as(&self, other: &NotePath) -> (r: bool)
        ensures
            r == (self@ == other@),
    {
        if self.parts.len() != other.parts.len() {
            assert(self@.len() != other@.len());
            return false;
        }
        let mut i: usize = 0;
        while i < self.parts.len()
            invariant
                i <= self.parts.len(),
                self.parts.len() == other.parts.len(),
                forall|j: int| 0 <= j < i ==> self@[j] == other@[j],
            decreases self.parts.len() - i,
        {
            if !self.parts[i].eq(&other.parts[i]) {
                assert(self@[i as int] != other@[i as int]);
                return false;
            }
            i = i + 1;
        }
        proof {
            assert(self@ =~= other@);
        }
        true
    }

    /// Whether `self`'s components begin with all of `prefix`'s.
    pub fn starts_with(&self, prefix: &NotePath) -> (r: bool)
        ensures
            r == is_prefix_of(prefix@, self@),
    {
        if prefix.parts.len() > self.parts.len() {
            return false;
        }
        let mut i: usize = 0;
        while i < prefix.parts.len()
            invariant
                i <= prefix.parts.len(),
                prefix.parts.len() <= self.parts.len(),
                forall|j: int| 0 <= j < i ==> prefix@[j] == self@[j],
            decreases prefix.parts.len() - i,
        {
            if !prefix.parts[i].eq(&self.parts[i]) {
                assert(prefix@[i as int] != self@[i as int]);
                assert(!is_prefix_of(prefix@, self@)) by {
                    if is_prefix_of(prefix@, self@) {
                        assert(prefix@[i as int] == self@.subrange(
                            0,
                            prefix@.len() as int,
                        )[i as int]);
                    }
                }
                return false;
            }
            i = i + 1;
        }
        proof {
            assert(prefix@ =~= self@.subrange(0, prefix@.len() as int));
        }
        true
    }

    /// Whether `self` names something directly inside the directory `dir`.
    pub fn is_child_of(&self, dir: &NotePath) -> (r: bool)
        ensures
            r == (self@.len() == dir@.len() + 1 && is_prefix_of(dir@, self@)),
    {
        if self.parts.len() == 0 || self.parts.len() - 1 != dir.parts.len() {
            return false;
        }
        self.starts_with(dir)
    }

    /// The first `n` components of this path.
    pub fn prefix(&self, n: usize) -> (r: NotePath)
        requires
            n <= self@.len(),
        ensures
            r@ == self@.subrange(0, n as int),
    {
        NotePath { parts: clone_prefix(&self.parts, n) }
    }

    /// Component-by-component comparison of two paths, exactly `path_lt`.
    pub fn less_than(&self, other: &NotePath) -> (r: bool)
        ensures
            r == path_lt(self@, other@),
    {
        let mut i: usize = 0;
        loop
            invariant
                i <= self.parts.len(),
                i <= other.parts.len(),
                forall|j: int| 0 <= j < i ==> self@[j] == other@[j],
            decreases self.parts.len() - i,
        {
            proof {
                lemma_path_lt_skip(self@, other@, i as int);
            }
            if i >= other.parts.len() {
                assert(other@.skip(i as int).len() == 0);
                return false;
            }
            if i >= self.parts.len() {
                assert(self@.skip(i as int).len() == 0);
                return true;
            }
            assert(self@.skip(i as int)[0] == self@[i as int]);
            assert(other@.skip(i as int)[0] == other@[i as int]);
            if !self.parts[i].eq(&other.parts[i]) {
                return str_less(self.parts[i].as_str(), other.parts[i].as_str());
            }
            i = i + 1;
        }
    }
}

impl Entry {
    /// A fresh entry with the same path and kind.
    pub fn duplicate(&self) -> (r: Entry)
        ensures
            r@ == self@,
    {
        Entry { path: self.path.duplicate(), is_dir: self.is_dir }
    }
}

} // verus!
