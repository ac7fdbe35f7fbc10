//! References to state cells, as the analysis records them.

use vstd::prelude::*;
use crate::names::{lemma_name_lt_asymmetric, lemma_name_lt_irreflexive, lemma_name_lt_total,
    lemma_name_lt_transitive, name_lt, Ident, IdentView};
use crate::sorting::{dedup_adjacent, stable_sort, strict_weak_order};

verus! {

/// The facet of a composite object that a reference goes to: the object and
/// the accessor that hands the facet out.
#[derive(Debug, PartialEq, Eq)]
pub struct BuiltinInfo {
    pub host: Ident,
    pub member: Ident,
}

/// The mathematical value of a [`BuiltinInfo`].
pub struct BuiltinInfoView {
    pub host: IdentView,
    pub member: IdentView,
}

impl View for BuiltinInfo {
    type V = BuiltinInfoView;

    open spec fn view(&self) -> BuiltinInfoView {
        BuiltinInfoView { host: self.host@, member: self.member@ }
    }
}

/// One reference to a state cell: the variable that a closure has to hold,
/// the facet it stands for if it is one, and whether it is written through.
#[derive(Debug, PartialEq, Eq)]
pub struct DollarRef {
    pub name: Ident,
    pub builtin: Option<BuiltinInfo>,
    pub write: bool,
}

/// The mathematical value of a [`DollarRef`].
pub struct DollarRefView {
    pub name: IdentView,
    pub builtin: Option<BuiltinInfoView>,
    pub write: bool,
}

impl DollarRefView {
    /// The variable that the reference reads from in the enclosing code: the
    /// composite object of a facet, the cell itself otherwise.
    pub open spec fn host(self) -> IdentView {
        match self.builtin {
            Some(b) => b.host,
            None => self.name,
        }
    }

    /// The same reference without its facet.
    pub open spec fn plain(self) -> DollarRefView {
        DollarRefView { name: self.name, builtin: None, write: self.write }
    }
}

impl View for DollarRef {
    type V = DollarRefView;

    open spec fn view(&self) -> DollarRefView {
        DollarRefView {
            name: self.name@,
            builtin: match self.builtin {
                Some(b) => Some(b@),
                None => None,
            },
            write: self.write,
        }
    }
}

impl BuiltinInfo {
    pub fn duplicate(&self) -> (b: BuiltinInfo)
        ensures
            b@ == self@,
    {
        BuiltinInfo { host: self.host.duplicate(), member: self.member.duplicate() }
    }
}

impl DollarRef {
    /// The variable that the reference reads from in the enclosing code.
    pub fn host(&self) -> (id: &Ident)
        ensures
            id@ == self@.host(),
    {
        match &self.builtin {
            Some(b) => &b.host,
            None => &self.name,
        }
    }

    pub fn duplicate(&self) -> (r: DollarRef)
        ensures
            r@ == self@,
    {
        DollarRef {
            name: self.name.duplicate(),
            builtin: match &self.builtin {
                Some(b) => Some(b.duplicate()),
                None => None,
            },
            write: self.write,
        }
    }

    /// A copy that stands for an ordinary variable of the same name.
    pub fn without_builtin(&self) -> (r: DollarRef)
        ensures
            r@ == self@.plain(),
    {
        DollarRef { name: self.name.duplicate(), builtin: None, write: self.write }
    }
}

/// Whether `a` has to stand before `b` in a manifest: facets before ordinary
/// cells, then by name, then writers before readers.
pub open spec fn sorts_before(a: DollarRefView, b: DollarRefView) -> bool {
    if (a.builtin is Some) != (b.builtin is Some) {
        a.builtin is Some
    } else if a.name.name != b.name.name {
        name_lt(a.name.name, b.name.name)
    } else {
        a.write && !b.write
    }
}

/// Whether two references bind the same variable name.
pub open spec fn same_variable(a: DollarRefView, b: DollarRefView) -> bool {
    a.name.name == b.name.name
}

/// The order of a manifest, as a value.
pub open spec fn manifest_order() -> spec_fn(DollarRefView, DollarRefView) -> bool {
    |a: DollarRefView, b: DollarRefView| sorts_before(a, b)
}

/// The relation by which a manifest drops repeated neighbours, as a value.
pub open spec fn manifest_same() -> spec_fn(DollarRefView, DollarRefView) -> bool {
    |a: DollarRefView, b: DollarRefView| same_variable(a, b)
}

/// The references in the order of a manifest, without each one that has the
/// name of the one kept before it: sorted stably by [`sorts_before`], then
/// rid of repeated neighbours.
pub open spec fn ordered(refs: Seq<DollarRefView>) -> Seq<DollarRefView> {
    dedup_adjacent(stable_sort(refs, manifest_order()), manifest_same())
}

/// Whether a facet of the name `name` stands among `refs`.
pub open spec fn has_facet(refs: Seq<DollarRefView>, name: Seq<char>) -> bool {
    exists|i: int|
        0 <= i < refs.len() && (#[trigger] refs[i]).builtin is Some && refs[i].name.name == name
}

/// Whether an ordinary cell of the name `name` is written through in
/// `refs`.
pub open spec fn has_plain_writer(refs: Seq<DollarRefView>, name: Seq<char>) -> bool {
    exists|i: int|
        0 <= i < refs.len() && (#[trigger] refs[i]).builtin is None && refs[i].name.name == name
            && refs[i].write
}

impl DollarRefView {
    /// The same reference, written through if `write`.
    pub open spec fn with_write(self, write: bool) -> DollarRefView {
        DollarRefView { name: self.name, builtin: self.builtin, write }
    }

    /// What stands for this entry of the ordered references in the manifest
    /// of `all`. A facet stands for an ordinary cell of its name too, and is
    /// a writer if that cell is written through; an ordinary cell of the name
    /// of a facet has no entry of its own.
    pub open spec fn settled(self, all: Seq<DollarRefView>) -> Option<DollarRefView> {
        if self.builtin is Some {
            Some(self.with_write(self.write || has_plain_writer(all, self.name.name)))
        } else if has_facet(all, self.name.name) {
            None
        } else {
            Some(self)
        }
    }
}

/// What stands in the manifest of `all` for the first `k` of the ordered
/// references `list`.
pub open spec fn settle(list: Seq<DollarRefView>, all: Seq<DollarRefView>, k: int) -> Seq<
    DollarRefView,
>
    decreases k,
{
    if k <= 0 || k > list.len() {
        Seq::empty()
    } else {
        match list[k - 1].settled(all) {
            Some(entry) => settle(list, all, k - 1).push(entry),
            None => settle(list, all, k - 1),
        }
    }
}

/// The manifest that a scope hands out for the references recorded in it:
/// the facets first, then the ordinary cells, each kind sorted by name, one
/// entry for each name, which is a writer if a reference of that name is
/// written through.
pub open spec fn finalize(refs: Seq<DollarRefView>) -> Seq<DollarRefView> {
    settle(ordered(refs), refs, ordered(refs).len() as int)
}

/// The manifest of no reference is empty.
pub proof fn lemma_finalize_empty()
    ensures
        finalize(Seq::<DollarRefView>::empty()) == Seq::<DollarRefView>::empty(),
{
    let s = Seq::<DollarRefView>::empty();
    assert(stable_sort(s, manifest_order()) =~= s);
    assert(dedup_adjacent(s, manifest_same()) =~= s);
    assert(ordered(s) == s);
    assert(settle(s, s, 0) =~= s);
}

/// The order of a manifest is the order of a key.
pub proof fn lemma_manifest_order()
    ensures
        strict_weak_order(manifest_order()),
{
    let before = manifest_order();
    assert forall|a: DollarRefView| !#[trigger] before(a, a) by {
        lemma_name_lt_irreflexive(a.name.name);
    }
    assert forall|a: DollarRefView, b: DollarRefView, c: DollarRefView| #[trigger]
        before(a, b) && #[trigger] before(b, c) implies before(a, c) by {
        if (a.builtin is Some) == (b.builtin is Some) && (b.builtin is Some) == (c.builtin is Some) {
            if a.name.name != b.name.name && b.name.name != c.name.name {
                lemma_name_lt_transitive(a.name.name, b.name.name, c.name.name);
                lemma_name_lt_irreflexive(a.name.name);
            }
        }
    }
    assert forall|a: DollarRefView, b: DollarRefView, c: DollarRefView|
        !#[trigger] before(a, b) && !#[trigger] before(b, c) implies !before(a, c) by {
        if before(a, c) {
            if (a.builtin is Some) != (c.builtin is Some) {
            } else if (a.builtin is Some) != (b.builtin is Some) {
            } else {
                lemma_name_lt_total(a.name.name, b.name.name);
                lemma_name_lt_total(b.name.name, c.name.name);
                if a.name.name != b.name.name && b.name.name != c.name.name {
                    // c < b < a by totality, yet a <= c
                    lemma_name_lt_transitive(c.name.name, b.name.name, a.name.name);
                    if a.name.name != c.name.name {
                        lemma_name_lt_asymmetric(a.name.name, c.name.name);
                    } else {
                        lemma_name_lt_irreflexive(a.name.name);
                    }
                } else if a.name.name != b.name.name {
                    lemma_name_lt_asymmetric(a.name.name, c.name.name);
                } else if b.name.name != c.name.name {
                    lemma_name_lt_asymmetric(a.name.name, c.name.name);
                }
            }
        }
    }
}

} // verus!
