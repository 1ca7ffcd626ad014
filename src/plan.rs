//! Pairing each directory with the name that its marker asks for.
use vstd::prelude::*;

use crate::marker::{find_marker, first_marker};

verus! {

/// A subdirectory as the caller found it: its name and the names of its
/// immediate children, in the order in which they were listed.
pub struct DirListing {
    pub name: Vec<u8>,
    pub children: Vec<Vec<u8>>,
}

/// One rename to perform: the directory named `from` is to be named `to`,
/// in the same parent.
pub struct RenameEntry {
    pub from: Vec<u8>,
    pub to: Vec<u8>,
}

/// The model of a [`DirListing`].
pub ghost struct DirView {
    pub name: Seq<u8>,
    pub children: Seq<Seq<u8>>,
}

/// The model of a [`RenameEntry`].
pub ghost struct EntryView {
    pub from: Seq<u8>,
    pub to: Seq<u8>,
}

impl View for DirListing {
    type V = DirView;

    open spec fn view(&self) -> DirView {
        DirView { name: self.name@, children: self.children@.map_values(|c: Vec<u8>| c@) }
    }
}

impl View for RenameEntry {
    type V = EntryView;

    open spec fn view(&self) -> EntryView {
        EntryView { from: self.from@, to: self.to@ }
    }
}

/// Whether the directory holds a marker that asks for another name than its own.
pub open spec fn wants_rename(d: DirView) -> bool {
    &&& first_marker(d.children) is Some
    &&& first_marker(d.children)->0 != d.name
}

/// The rename from the directory's name to its first marker's base name.
pub open spec fn marker_entry(d: DirView) -> EntryView {
    EntryView { from: d.name, to: first_marker(d.children)->0 }
}

/// The rename that a directory asks for, if any.
pub open spec fn entry_of(d: DirView) -> Option<EntryView> {
    if wants_rename(d) {
        Some(marker_entry(d))
    } else {
        None
    }
}

/// The plan: the renames that the directories ask for, in their order.
pub open spec fn plan_of(dirs: Seq<DirView>) -> Seq<EntryView> {
    dirs.filter_map(|d: DirView| entry_of(d))
}

/// The names of the directories are pairwise distinct, as in one parent.
pub open spec fn names_distinct(dirs: Seq<DirView>) -> bool {
    forall|i: int, j: int| 0 <= i < dirs.len() && 0 <= j < dirs.len() && i != j
        ==> #[trigger] dirs[i].name != #[trigger] dirs[j].name
}

/// The directories as they stand once every rename of the plan has been made.
pub open spec fn after_renames(dirs: Seq<DirView>) -> Seq<DirView> {
    dirs.map_values(
        |d: DirView|
            if wants_rename(d) {
                DirView { name: first_marker(d.children)->0, children: d.children }
            } else {
                d
            },
    )
}

/// Returns whether two byte strings are equal.
fn same_bytes(a: &Vec<u8>, b: &Vec<u8>) -> (r: bool)
    ensures
        r == (a@ == b@),
{
    if a.len() != b.len() {
        return false;
    }
    let mut i: usize = 0;
    while i < a.len()
        invariant
            a.len() == b.len(),
            0 <= i <= a.len(),
            forall|j: int| 0 <= j < i ==> a@[j] == b@[j],
        decreases a.len() - i,
    {
        if a[i] != b[i] {
            return false;
        }
        i = i + 1;
    }
    assert(a@ =~= b@);
    true
}

/// Returns a copy of a byte string.
pub(crate) fn copy_bytes(a: &Vec<u8>) -> (r: Vec<u8>)
    ensures
        r@ == a@,
{
    let mut r: Vec<u8> = Vec::new();
    let mut i: usize = 0;
    while i < a.len()
        invariant
            0 <= i <= a.len(),
            r@ =~= a@.subrange(0, i as int),
        decreases a.len() - i,
    {
        r.push(a[i]);
        i = i + 1;
    }
    r
}

/// Returns the rename that `dir` asks for: to the base name of its first
/// marker, when it has one and that differs from its name.
pub fn rename_entry_for(dir: &DirListing) -> (r: Option<RenameEntry>)
    ensures
        match r {
            Some(e) => entry_of(dir@) == Some(e@),
            None => entry_of(dir@) is None,
        },
{
    match find_marker(&dir.children) {
        None => None,
        Some(base) => {
            if same_bytes(&base, &dir.name) {
                None
            } else {
                Some(RenameEntry { from: copy_bytes(&dir.name), to: base })
            }
        },
    }
}

/// Returns the plan for `dirs`: one entry for each directory that holds a
/// marker asking for another name, in the order of `dirs`.
pub fn plan_renames(dirs: &Vec<DirListing>) -> (r: Vec<RenameEntry>)
    ensures
        r@.map_values(|e: RenameEntry| e@) == plan_of(dirs@.map_values(|d: DirListing| d@)),
{
    let ghost all = dirs@.map_values(|d: DirListing| d@);
    let mut r: Vec<RenameEntry> = Vec::new();
    let mut i: usize = 0;
    while i < dirs.len()
        invariant
            0 <= i <= dirs.len(),
            all == dirs@.map_values(|d: DirListing| d@),
            r@.map_values(|e: RenameEntry| e@) == plan_of(all.take(i as int)),
        decreases dirs.len() - i,
    {
        let ghost before = r@.map_values(|e: RenameEntry| e@);
        assert(all.take(i + 1).drop_last() =~= all.take(i as int));
        assert(all.take(i + 1).last() == dirs@[i as int]@);
        match rename_entry_for(&dirs[i]) {
            Some(e) => {
                r.push(e);
                assert(r@.map_values(|e: RenameEntry| e@) =~= before + seq![e@]);
            },
            None => {},
        }
        i = i + 1;
    }
    assert(all.take(dirs.len() as int) =~= all);
    r
}

/// The directories that want a rename, in their order.
pub open spec fn candidates(dirs: Seq<DirView>) -> Seq<DirView> {
    dirs.filter(|d: DirView| wants_rename(d))
}

/// The plan holds exactly one entry for each directory that wants a rename,
/// in their order, pairing the directory's name with its marker's base name.
pub proof fn lemma_plan_is_candidates(dirs: Seq<DirView>)
    ensures
        plan_of(dirs) == candidates(dirs).map_values(|d: DirView| marker_entry(d)),
        plan_of(dirs).len() == candidates(dirs).len(),
    decreases dirs.len(),
{
    reveal(Seq::filter);
    let f = |d: DirView| marker_entry(d);
    if dirs.len() > 0 {
        lemma_plan_is_candidates(dirs.drop_last());
        if wants_rename(dirs.last()) {
            assert(candidates(dirs) == candidates(dirs.drop_last()).push(dirs.last()));
        } else {
            assert(candidates(dirs) == candidates(dirs.drop_last()));
        }
        assert(plan_of(dirs) =~= candidates(dirs).map_values(f));
    } else {
        assert(plan_of(dirs) =~= candidates(dirs).map_values(f));
    }
}

/// Every entry of the plan comes from a directory that wants a rename:
/// one with a marker whose base name differs from its own name.
pub proof fn lemma_plan_entries_come_from_candidates(dirs: Seq<DirView>, k: int)
    requires
        0 <= k < plan_of(dirs).len(),
    ensures
        exists|j: int|
            0 <= j < dirs.len() && wants_rename(#[trigger] dirs[j]) && plan_of(dirs)[k]
                == marker_entry(dirs[j]),
    decreases dirs.len(),
{
    let rest = dirs.drop_last();
    if k < plan_of(rest).len() {
        lemma_plan_entries_come_from_candidates(rest, k);
        let j = choose|j: int|
            0 <= j < rest.len() && wants_rename(#[trigger] rest[j]) && plan_of(rest)[k]
                == marker_entry(rest[j]);
        assert(rest[j] == dirs[j]);
        assert(plan_of(dirs)[k] == plan_of(rest)[k]);
    } else {
        let j = dirs.len() - 1;
        assert(wants_rename(dirs[j]));
    }
}

/// A directory without a marker never appears in the plan.
pub proof fn lemma_unmarked_not_planned(dirs: Seq<DirView>, i: int)
    requires
        names_distinct(dirs),
        0 <= i < dirs.len(),
        !(first_marker(dirs[i].children) is Some),
    ensures
        forall|k: int| 0 <= k < plan_of(dirs).len() ==> #[trigger] plan_of(dirs)[k].from != dirs[i].name,
{
    assert forall|k: int| 0 <= k < plan_of(dirs).len() implies #[trigger] plan_of(dirs)[k].from != dirs[i].name by {
        lemma_plan_entries_come_from_candidates(dirs, k);
        let j = choose|j: int|
            0 <= j < dirs.len() && wants_rename(#[trigger] dirs[j]) && plan_of(dirs)[k]
                == marker_entry(dirs[j]);
        assert(j != i);
    }
}

/// A directory already named after its marker never appears in the plan.
pub proof fn lemma_named_not_planned(dirs: Seq<DirView>, i: int)
    requires
        names_distinct(dirs),
        0 <= i < dirs.len(),
        first_marker(dirs[i].children) == Some(dirs[i].name),
    ensures
        forall|k: int| 0 <= k < plan_of(dirs).len() ==> #[trigger] plan_of(dirs)[k].from != dirs[i].name,
{
    assert forall|k: int| 0 <= k < plan_of(dirs).len() implies #[trigger] plan_of(dirs)[k].from != dirs[i].name by {
        lemma_plan_entries_come_from_candidates(dirs, k);
        let j = choose|j: int|
            0 <= j < dirs.len() && wants_rename(#[trigger] dirs[j]) && plan_of(dirs)[k]
                == marker_entry(dirs[j]);
        assert(j != i);
    }
}

/// Once every rename of the plan has been made, the plan for the result is empty.
pub proof fn lemma_second_plan_empty(dirs: Seq<DirView>)
    ensures
        plan_of(after_renames(dirs)).len() == 0,
    decreases dirs.len(),
{
    if dirs.len() > 0 {
        lemma_second_plan_empty(dirs.drop_last());
        assert(after_renames(dirs).drop_last() =~= after_renames(dirs.drop_last()));
        assert(!wants_rename(after_renames(dirs).last()));
    }
}

} // verus!
