//! The file explorer plugin. Directory listings, renames and deletions are
//! file-system work done by the surrounding application; here lives the
//! tab's own state, above all which tree nodes are expanded.

use vstd::prelude::*;

verus! {

/// Whether a path occurs in a node list.
pub open spec fn contains_path(s: Seq<String>, p: Seq<char>) -> bool {
    exists|i: int| 0 <= i < s.len() && s[i]@ == p
}

/// A node list without duplicates.
pub open spec fn nodes_unique(s: Seq<String>) -> bool {
    forall|i: int, j: int| 0 <= i < j < s.len() ==> (#[trigger] s[i])@ != (#[trigger] s[j])@
}

/// The file explorer tab: the root it browses, the expanded tree nodes, and
/// the state of the rename and new-item dialogs.
#[derive(Clone, Debug)]
pub struct FileExplorerTab {
    pub root_path: Option<String>,
    pub expanded_nodes: Vec<String>,
    pub rename_path: Option<String>,
    pub new_item_parent: Option<(String, bool)>,
    pub input_text: String,
}

impl FileExplorerTab {
    pub fn new() -> (r: FileExplorerTab)
        ensures
            r.root_path is None,
            r.expanded_nodes@.len() == 0,
            r.rename_path is None,
            r.new_item_parent is None,
            r.input_text@ == Seq::<char>::empty(),
    {
        FileExplorerTab {
            root_path: None,
            expanded_nodes: Vec::new(),
            rename_path: None,
            new_item_parent: None,
            input_text: String::new(),
        }
    }

    /// Where `path` stands in the node list, if anywhere.
    fn find_node(&self, path: &String) -> (r: Option<usize>)
        ensures
            match r {
                Some(i) => i < self.expanded_nodes@.len() && self.expanded_nodes@[i as int]@
                    == path@,
                None => !contains_path(self.expanded_nodes@, path@),
            },
    {
        let n = self.expanded_nodes.len();
        let mut i: usize = 0;
        while i < n
            invariant
                i <= n,
                n == self.expanded_nodes@.len(),
                forall|k: int| 0 <= k < i ==> (#[trigger] self.expanded_nodes@[k])@ != path@,
            decreases n - i,
        {
            if self.expanded_nodes[i] == *path {
                return Some(i);
            }
            i += 1;
        }
        None
    }

    /// Whether a tree node is shown expanded.
    pub fn is_expanded(&self, path: &String) -> (r: bool)
        ensures
            r == contains_path(self.expanded_nodes@, path@),
    {
        match self.find_node(path) {
            Some(_) => true,
            None => false,
        }
    }

    /// Mark a tree node expanded. Marking it twice changes nothing.
    pub fn expand(&mut self, path: String)
        requires
            nodes_unique(old(self).expanded_nodes@),
        ensures
            contains_path(final(self).expanded_nodes@, path@),
            forall|q: Seq<char>|
                #[trigger] contains_path(final(self).expanded_nodes@, q) <==> (contains_path(
                    old(self).expanded_nodes@,
                    q,
                ) || q == path@),
            nodes_unique(final(self).expanded_nodes@),
            final(self).root_path == old(self).root_path,
            final(self).rename_path == old(self).rename_path,
            final(self).new_item_parent == old(self).new_item_parent,
            final(self).input_text == old(self).input_text,
    {
        match self.find_node(&path) {
            Some(_) => {
                proof {
                    assert forall|q: Seq<char>|
                        #[trigger] contains_path(self.expanded_nodes@, q) <==> (contains_path(
                            old(self).expanded_nodes@,
                            q,
                        ) || q == path@) by {}
                }
            },
            None => {
                let ghost before = self.expanded_nodes@;
                self.expanded_nodes.push(path);
                proof {
                    assert(self.expanded_nodes@[before.len() as int]@ == path@);
                    assert forall|q: Seq<char>| #[trigger]
                        contains_path(self.expanded_nodes@, q) implies (contains_path(before, q)
                        || q == path@) by {
                        let i = choose|i: int|
                            0 <= i < self.expanded_nodes@.len() && self.expanded_nodes@[i]@ == q;
                        if i < before.len() {
                            assert(before[i]@ == q);
                        }
                    }
                    assert forall|q: Seq<char>|
                        (contains_path(before, q) || q == path@) implies #[trigger] contains_path(
                        self.expanded_nodes@,
                        q,
                    ) by {
                        if contains_path(before, q) {
                            let i = choose|i: int| 0 <= i < before.len() && before[i]@ == q;
                            assert(self.expanded_nodes@[i]@ == q);
                        } else {
                            assert(self.expanded_nodes@[before.len() as int]@ == q);
                        }
                    }
                    assert forall|i: int, j: int|
                        0 <= i < j < self.expanded_nodes@.len() implies (
                    #[trigger] self.expanded_nodes@[i])@ != (#[trigger] self.expanded_nodes@[j])@ by {
                        if j < before.len() {
                            assert(before[i]@ != before[j]@);
                        } else {
                            assert(!contains_path(before, path@));
                            assert(before[i]@ != path@);
                        }
                    }
                }
            },
        }
    }

    /// Mark a tree node collapsed; the other nodes keep their state.
    pub fn collapse(&mut self, path: &String)
        requires
            nodes_unique(old(self).expanded_nodes@),
        ensures
            !contains_path(final(self).expanded_nodes@, path@),
            forall|q: Seq<char>|
                q != path@ ==> (#[trigger] contains_path(final(self).expanded_nodes@, q)
                    <==> contains_path(old(self).expanded_nodes@, q)),
            nodes_unique(final(self).expanded_nodes@),
            final(self).root_path == old(self).root_path,
            final(self).rename_path == old(self).rename_path,
            final(self).new_item_parent == old(self).new_item_parent,
            final(self).input_text == old(self).input_text,
    {
        match self.find_node(path) {
            Some(idx) => {
                let ghost before = self.expanded_nodes@;
                let _removed = self.expanded_nodes.remove(idx);
                proof {
                    before.remove_ensures(idx as int);
                    let after = self.expanded_nodes@;
                    assert forall|j: int|
                        0 <= j < after.len() implies (#[trigger] after[j])@ != path@ by {
                        if j < idx {
                            assert(after[j] == before[j]);
                            assert(before[j]@ != before[idx as int]@);
                        } else {
                            assert(after[j] == before[j + 1]);
                            assert(before[idx as int]@ != before[j + 1]@);
                        }
                    }
                    assert forall|q: Seq<char>|
                        q != path@ implies (#[trigger] contains_path(after, q) <==> contains_path(
                        before,
                        q,
                    )) by {
                        if contains_path(after, q) {
                            let i = choose|i: int| 0 <= i < after.len() && after[i]@ == q;
                            if i < idx {
                                assert(before[i]@ == q);
                            } else {
                                assert(before[i + 1]@ == q);
                            }
                        }
                        if contains_path(before, q) {
                            let i = choose|i: int| 0 <= i < before.len() && before[i]@ == q;
                            if i < idx {
                                assert(after[i]@ == q);
                            } else {
                                assert(i != idx);
                                assert(after[i - 1]@ == q);
                            }
                        }
                    }
                    assert forall|i: int, j: int|
                        0 <= i < j < after.len() implies (#[trigger] after[i])@ != (
                    #[trigger] after[j])@ by {
                        let bi: int = if i < idx { i } else { i + 1 };
                        let bj: int = if j < idx { j } else { j + 1 };
                        assert(after[i] == before[bi]);
                        assert(after[j] == before[bj]);
                        assert(before[bi]@ != before[bj]@);
                    }
                }
            },
            None => {},
        }
    }
}

/// The file manager plugin itself holds no state.
pub struct FileManagerPlugin;

pub fn create() -> (r: FileManagerPlugin)
    ensures
        r == (FileManagerPlugin {}),
{
    FileManagerPlugin
}

} // verus!
