//! The facets that every composite object offers besides its own fields:
//! which member names and method names belong to a facet, and how the
//! variable and the accessor of a facet are called.

use vstd::prelude::*;
use inflector::Inflector;
use crate::names::{concat, Ident, IdentView};

verus! {

/// The name of a facet type in snake case, as `Inflector::to_snake_case`
/// writes it.
pub uninterp spec fn snake_case_of(name: Seq<char>) -> Seq<char>;

/// Writes the name of a facet type in snake case.
///
/// Trusted: calls `Inflector::to_snake_case` on the name. The conversion
/// reads nothing but its argument and does not panic.
#[verifier::external_body]
pub(crate) fn to_snake_case(name: &str) -> (snake: String)
    ensures
        snake@ == snake_case_of(name@),
{
    name.to_snake_case()
}

/// Which members and methods of a composite object belong to which facet.
#[derive(Debug, PartialEq, Eq)]
pub struct BuiltinTable {
    fields: Vec<(String, String)>,
    methods: Vec<(String, String)>,
}

/// The mathematical value of a [`BuiltinTable`]: pairs of a member name and
/// the name of the facet type that owns it.
pub struct BuiltinTableView {
    pub fields: Seq<(Seq<char>, Seq<char>)>,
    pub methods: Seq<(Seq<char>, Seq<char>)>,
}

/// The names that a vector of pairs holds.
pub open spec fn pairs_view(pairs: Seq<(String, String)>) -> Seq<(Seq<char>, Seq<char>)> {
    Seq::new(pairs.len(), |i: int| (pairs[i].0@, pairs[i].1@))
}

/// The facet type of the first pair with the key `member`.
pub open spec fn lookup(pairs: Seq<(Seq<char>, Seq<char>)>, member: Seq<char>) -> Option<Seq<char>>
    decreases pairs.len(),
{
    if pairs.len() == 0 {
        None
    } else if pairs[0].0 == member {
        Some(pairs[0].1)
    } else {
        lookup(pairs.skip(1), member)
    }
}

/// The variable that stands for the facet `facet` of `host`.
pub open spec fn facet_variable(host: IdentView, facet: Seq<char>) -> IdentView {
    IdentView { name: host.name + "_"@ + facet, span: host.span }
}

/// The method of `host` that hands out its facet `facet`.
pub open spec fn facet_accessor(host: IdentView, facet: Seq<char>) -> IdentView {
    IdentView { name: "get_builtin_"@ + facet, span: host.span }
}

impl View for BuiltinTable {
    type V = BuiltinTableView;

    closed spec fn view(&self) -> BuiltinTableView {
        BuiltinTableView { fields: pairs_view(self.fields@), methods: pairs_view(self.methods@) }
    }
}

fn find<'a>(pairs: &'a Vec<(String, String)>, member: &str) -> (found: Option<&'a String>)
    ensures
        match found {
            Some(facet) => lookup(pairs_view(pairs@), member@) == Some(facet@),
            None => lookup(pairs_view(pairs@), member@) is None,
        },
{
    let ghost all = pairs_view(pairs@);
    let key = String::from_str(member);
    let mut i: usize = 0;
    assert(all.skip(0) =~= all);
    while i < pairs.len()
        invariant
            i <= pairs.len(),
            all == pairs_view(pairs@),
            key@ == member@,
            lookup(all, member@) == lookup(all.skip(i as int), member@),
        decreases pairs.len() - i,
    {
        proof {
            assert(all.skip(i as int)[0] == all[i as int]);
            assert(all.skip(i as int).skip(1) =~= all.skip(i + 1));
        }
        if pairs[i].0 == key {
            return Some(&pairs[i].1);
        }
        i += 1;
    }
    None
}

impl BuiltinTable {
    /// A table without facets.
    pub fn new() -> (table: BuiltinTable)
        ensures
            table@.fields.len() == 0,
            table@.methods.len() == 0,
    {
        BuiltinTable { fields: Vec::new(), methods: Vec::new() }
    }

    /// Declares that the member `member` of any object belongs to the facet
    /// of type `facet`.
    pub fn add_field(&mut self, member: &str, facet: &str)
        ensures
            final(self)@.fields == old(self)@.fields.push((member@, facet@)),
            final(self)@.methods == old(self)@.methods,
    {
        self.fields.push((String::from_str(member), String::from_str(facet)));
        assert(self@.fields =~= old(self)@.fields.push((member@, facet@)));
    }

    /// Declares that the method `method` of any object belongs to the facet
    /// of type `facet`.
    pub fn add_method(&mut self, method: &str, facet: &str)
        ensures
            final(self)@.methods == old(self)@.methods.push((method@, facet@)),
            final(self)@.fields == old(self)@.fields,
    {
        self.methods.push((String::from_str(method), String::from_str(facet)));
        assert(self@.methods =~= old(self)@.methods.push((method@, facet@)));
    }

    /// The facet type that owns the member `member`, if one does.
    pub fn field_facet(&self, member: &str) -> (found: Option<&String>)
        ensures
            match found {
                Some(facet) => lookup(self@.fields, member@) == Some(facet@),
                None => lookup(self@.fields, member@) is None,
            },
    {
        find(&self.fields, member)
    }

    /// The facet type that owns the method `method`, if one does.
    pub fn method_facet(&self, method: &str) -> (found: Option<&String>)
        ensures
            match found {
                Some(facet) => lookup(self@.methods, method@) == Some(facet@),
                None => lookup(self@.methods, method@) is None,
            },
    {
        find(&self.methods, method)
    }
}

/// The variable that stands for the facet `facet` of `host`.
pub fn facet_variable_of(host: &Ident, facet: &str) -> (id: Ident)
    ensures
        id@ == facet_variable(host@, facet@),
{
    let mut name = concat(host.name.as_str(), "_");
    name.append(facet);
    Ident { name, span: host.span }
}

/// The method of `host` that hands out its facet `facet`.
pub fn facet_accessor_of(host: &Ident, facet: &str) -> (id: Ident)
    ensures
        id@ == facet_accessor(host@, facet@),
{
    Ident { name: concat("get_builtin_", facet), span: host.span }
}

} // verus!
