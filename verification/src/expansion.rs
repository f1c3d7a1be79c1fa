//! The set of directories the user has opened in the browse list.

use vstd::prelude::*;

use crate::paths::NotePath;

verus! {

/// The set of expanded folder paths. Membership only affects the
/// visibility of a directory's descendants, never of its own row.
pub struct ExpansionState {
    pub elems: Vec<NotePath>,
}

impl View for ExpansionState {
    type V = Set<Seq<Seq<char>>>;

    open spec fn view(&self) -> Set<Seq<Seq<char>>> {
        Set::new(
            |p: Seq<Seq<char>>|
                exists|i: int| 0 <= i < self.elems@.len() && self.elems@[i]@ == p,
        )
    }
}

impl ExpansionState {
    /// No path is listed twice.
    pub open spec fn wf(&self) -> bool {
        forall|i: int, j: int|
            0 <= i < j < self.elems@.len() ==> self.elems@[i]@ != self.elems@[j]@
    }

    /// Empty at startup: every directory begins collapsed.
    pub fn new() -> (r: ExpansionState)
        ensures
            r.wf(),
            r@ == Set::<Seq<Seq<char>>>::empty(),
    {
        let r = ExpansionState { elems: Vec::new() };
        proof {
            assert(r@ =~= Set::<Seq<Seq<char>>>::empty());
        }
        r
    }

    /// Whether the directory at `p` is currently expanded.
    pub fn contains(&self, p: &NotePath) -> (r: bool)
        ensures
            r == self@.contains(p@),
    {
        let mut i: usize = 0;
        while i < self.elems.len()
            invariant
                i <= self.elems@.len(),
                forall|j: int| 0 <= j < i ==> self.elems@[j]@ != p@,
            decreases self.elems@.len() - i,
        {
            if self.elems[i].same_as(p) {
                proof {
                    assert(self.elems@[i as int]@ == p@);
                }
                return true;
            }
            i = i + 1;
        }
        proof {
            assert(!self@.contains(p@));
        }
        false
    }

    /// Flip `p`'s membership: insert it if absent, remove it if present.
    #[verifier::loop_isolation(false)]
    pub fn toggle(&mut self, p: &NotePath)
        requires
            old(self).wf(),
        ensures
            final(self).wf(),
            final(self)@ == if old(self)@.contains(p@) {
                old(self)@.remove(p@)
            } else {
                old(self)@.insert(p@)
            },
    {
        let ghost old_view = self@;
        let ghost old_elems = self.elems@;
        let mut i: usize = 0;
        while i < self.elems.len()
            invariant
                i <= self.elems@.len(),
                self.elems@ == old_elems,
                forall|j: int| 0 <= j < i ==> self.elems@[j]@ != p@,
            decreases self.elems@.len() - i,
        {
            if self.elems[i].same_as(p) {
                self.elems.remove(i);
                proof {
                    assert(old_view.contains(p@)) by {
                        assert(old_elems[i as int]@ == p@);
                    }
                    assert(self@ =~= old_view.remove(p@)) by {
                        assert forall|q: Seq<Seq<char>>| self@.contains(q) implies old_view.remove(
                            p@,
                        ).contains(q) by {
                            let k = choose|k: int|
                                0 <= k < self.elems@.len() && self.elems@[k]@ == q;
                            if k < i {
                                assert(old_elems[k]@ == q);
                            } else {
                                assert(old_elems[k + 1]@ == q);
                            }
                            assert(q != p@);
                        }
                        assert forall|q: Seq<Seq<char>>|
                            old_view.remove(p@).contains(q) implies self@.contains(q) by {
                            let k = choose|k: int|
                                0 <= k < old_elems.len() && old_elems[k]@ == q;
                            if k < i {
                                assert(self.elems@[k]@ == q);
                            } else {
                                assert(k != i);
                                assert(self.elems@[k - 1]@ == q);
                            }
                        }
                    }
                }
                return ;
            }
            i = i + 1;
        }
        proof {
            assert(!old_view.contains(p@));
        }
        self.elems.push(p.duplicate());
        proof {
            assert(self@ =~= old_view.insert(p@)) by {
                assert forall|q: Seq<Seq<char>>| self@.contains(q) implies old_view.insert(
                    p@,
                ).contains(q) by {
                    let k = choose|k: int| 0 <= k < self.elems@.len() && self.elems@[k]@ == q;
                    if k < old_elems.len() {
                        assert(old_elems[k]@ == q);
                    } else {
                        assert(q == p@);
                    }
                }
                assert forall|q: Seq<Seq<char>>| old_view.insert(p@).contains(q) implies self@
                    .contains(q) by {
                    if q == p@ {
                        assert(self.elems@[self.elems@.len() - 1]@ == q);
                    } else {
                        let k = choose|k: int| 0 <= k < old_elems.len() && old_elems[k]@ == q;
                        assert(self.elems@[k]@ == q);
                    }
                }
            }
            assert(self.wf()) by {
                assert(forall|j: int|
                    0 <= j < old_elems.len() ==> self.elems@[j] == old_elems[j]);
            }
        }
    }
}

} // verus!
