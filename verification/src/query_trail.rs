//! The query-trail generator and the trail semantics. For every object
//! type, one accessor per field is generated: a boolean presence test for
//! leaf fields (scalar or enum), a nested trail for composite fields. The
//! trail itself is a two-phase value: only an explicit, fallible walk step
//! turns an unwalked trail into one whose accessors consult the live
//! request's selection.

use vstd::prelude::*;
use crate::ast::Definition;
use crate::ast::Document;
use crate::ast::FieldDefinition;
use crate::ast::ObjectType;
use crate::ast::TypeDefinition;
use crate::symbol_table::AstData;
use crate::symbol_table::DefinedKind;
use crate::symbol_table::s_lookup_kind;
use crate::text::camel_of;
use crate::text::snake_of;
use crate::text::str_eq;
use crate::text::to_camel_case;
use crate::text::to_snake_case;

verus! {

/// What a generated accessor returns: a leaf presence test, or a nested
/// trail scoped to the named composite type.
pub enum TrailTarget {
    Leaf,
    Node(String),
}

/// The spec-level image of an accessor target.
pub enum TrailTargetModel {
    Leaf,
    Node(Seq<char>),
}

/// One generated accessor.
pub struct TrailMethod {
    pub name: String,
    pub graphql_name: String,
    pub target: TrailTarget,
}

/// The spec-level image of one accessor.
pub struct TrailMethodModel {
    pub name: Seq<char>,
    pub graphql_name: String,
    pub target: TrailTargetModel,
}

/// The generated trail accessors of one object type.
pub struct TrailMethods {
    pub trail_type: String,
    pub methods: Vec<TrailMethod>,
}

/// The spec-level image of one object's trail accessors.
pub struct TrailMethodsModel {
    pub trail_type: String,
    pub methods: Seq<TrailMethodModel>,
}

/// The image of an accessor.
pub open spec fn trail_method_view(m: TrailMethod) -> TrailMethodModel {
    TrailMethodModel {
        name: m.name@,
        graphql_name: m.graphql_name,
        target: match m.target {
            TrailTarget::Leaf => TrailTargetModel::Leaf,
            TrailTarget::Node(n) => TrailTargetModel::Node(n@),
        },
    }
}

/// The image of one object's accessors.
pub open spec fn trail_methods_view(t: TrailMethods) -> TrailMethodsModel {
    TrailMethodsModel {
        trail_type: t.trail_type,
        methods: Seq::new(t.methods@.len(), |i: int| trail_method_view(t.methods@[i])),
    }
}

/// Whether a field whose innermost type has this name is a leaf: built-in
/// and reserved scalars and declared scalars and enums are leaves;
/// objects, interfaces and unions are composites.
pub open spec fn s_trail_is_leaf(table: AstData, name: Seq<char>) -> bool {
    if name == "String"@ || name == "Float"@ || name == "Int"@ || name == "Boolean"@ || name
        == "ID"@ || name == "Url"@ || name == "Uuid"@ || name == "Date"@ || name == "DateTime"@ {
        true
    } else {
        match s_lookup_kind(table.kinds@, name) {
            Some(DefinedKind::Scalar) => true,
            Some(DefinedKind::Enum) => true,
            _ => false,
        }
    }
}

/// The accessor generated for one field.
pub open spec fn s_trail_method(table: AstData, f: FieldDefinition) -> TrailMethodModel {
    TrailMethodModel {
        name: snake_of(f.name@),
        graphql_name: f.name,
        target: if s_trail_is_leaf(table, f.field_type.spec_base()@) {
            TrailTargetModel::Leaf
        } else {
            TrailTargetModel::Node(camel_of(f.field_type.spec_base()@))
        },
    }
}

/// The accessors generated for one object type.
pub open spec fn s_trail_methods(table: AstData, ob: ObjectType) -> TrailMethodsModel {
    TrailMethodsModel {
        trail_type: ob.name,
        methods: Seq::new(ob.fields@.len(), |i: int| s_trail_method(table, ob.fields@[i])),
    }
}

/// The trail entries of one definition: every object type gets one,
/// including the query, mutation and subscription roots.
pub open spec fn s_trail_entry(table: AstData, def: Definition) -> Seq<TrailMethodsModel> {
    match def {
        Definition::Type(TypeDefinition::Object(ob)) => seq![s_trail_methods(table, ob)],
        _ => Seq::empty(),
    }
}

/// The trail entries of the whole document, in order.
pub open spec fn s_query_trails(table: AstData, defs: Seq<Definition>) -> Seq<TrailMethodsModel>
    decreases defs.len(),
{
    if defs.len() == 0 {
        Seq::empty()
    } else {
        s_query_trails(table, defs.drop_last()) + s_trail_entry(table, defs.last())
    }
}

/// Decides `s_trail_is_leaf`.
fn trail_is_leaf(table: &AstData, name: &String) -> (r: bool)
    ensures
        r == s_trail_is_leaf(*table, name@),
{
    if str_eq(name.as_str(), "String") || str_eq(name.as_str(), "Float") || str_eq(
        name.as_str(),
        "Int",
    ) || str_eq(name.as_str(), "Boolean") || str_eq(name.as_str(), "ID") || str_eq(
        name.as_str(),
        "Url",
    ) || str_eq(name.as_str(), "Uuid") || str_eq(name.as_str(), "Date") || str_eq(
        name.as_str(),
        "DateTime",
    ) {
        true
    } else {
        match table.lookup_kind(name.as_str()) {
            Some(DefinedKind::Scalar) => true,
            Some(DefinedKind::Enum) => true,
            _ => false,
        }
    }
}

/// Generates the accessor methods for one object type.
fn gen_field_walk_methods(table: &AstData, ob: &ObjectType) -> (r: TrailMethods)
    ensures
        trail_methods_view(r) == s_trail_methods(*table, *ob),
{
    let mut methods: Vec<TrailMethod> = Vec::new();
    let mut i: usize = 0;
    while i < ob.fields.len()
        invariant
            i <= ob.fields.len(),
            methods@.len() == i,
            forall|j: int|
                0 <= j < i ==> trail_method_view(#[trigger] methods@[j]) == s_trail_method(
                    *table,
                    ob.fields@[j],
                ),
        decreases ob.fields.len() - i,
    {
        let f = &ob.fields[i];
        let base = f.field_type.base_name();
        let target = if trail_is_leaf(table, base) {
            TrailTarget::Leaf
        } else {
            TrailTarget::Node(to_camel_case(base.as_str()))
        };
        methods.push(
            TrailMethod {
                name: to_snake_case(f.name.as_str()),
                graphql_name: f.name.clone(),
                target,
            },
        );
        i += 1;
    }
    let r = TrailMethods { trail_type: ob.name.clone(), methods };
    proof {
        assert(trail_methods_view(r).methods =~= s_trail_methods(*table, *ob).methods);
        assert(trail_methods_view(r) == s_trail_methods(*table, *ob));
    }
    r
}

/// Generates the trail accessors for every object type of the document.
pub fn gen_query_trails(doc: &Document, table: &AstData) -> (r: Vec<TrailMethods>)
    ensures
        Seq::new(r@.len(), |i: int| trail_methods_view(r@[i])) == s_query_trails(
            *table,
            doc.definitions@,
        ),
{
    let defs = &doc.definitions;
    let mut out: Vec<TrailMethods> = Vec::new();
    let mut i: usize = 0;
    while i < defs.len()
        invariant
            i <= defs.len(),
            Seq::new(out@.len(), |j: int| trail_methods_view(out@[j])) == s_query_trails(
                *table,
                defs@.take(i as int),
            ),
        decreases defs.len() - i,
    {
        proof {
            assert(defs@.take(i as int + 1).drop_last() =~= defs@.take(i as int));
            assert(defs@.take(i as int + 1).last() == defs@[i as int]);
        }
        match &defs[i] {
            Definition::Type(TypeDefinition::Object(ob)) => {
                let entry = gen_field_walk_methods(table, ob);
                out.push(entry);
            },
            _ => {},
        }
        proof {
            assert(Seq::new(out@.len(), |j: int| trail_methods_view(out@[j])) =~= s_query_trails(
                *table,
                defs@.take(i as int + 1),
            ));
        }
        i += 1;
    }
    proof {
        assert(defs@.take(defs@.len() as int) =~= defs@);
    }
    out
}

/// One level of a live request's selection: a field name and the nested
/// fields selected under it.
pub struct Selection {
    pub name: String,
    pub children: Vec<Selection>,
}

/// The first selected child of this name.
pub open spec fn s_find_child(children: Seq<Selection>, name: Seq<char>) -> Option<Selection>
    decreases children.len(),
{
    if children.len() == 0 {
        None
    } else if children[0].name@ == name {
        Some(children[0])
    } else {
        s_find_child(children.drop_first(), name)
    }
}

/// A trail that has not been walked: its accessors are unreachable until
/// an explicit walk step establishes that the field was selected at all.
pub struct QueryTrail<'a> {
    pub look_ahead: Option<&'a Selection>,
}

/// A trail whose walk step succeeded: its accessors consult the selection
/// it carries.
pub struct WalkedTrail<'a> {
    pub look_ahead: &'a Selection,
}

impl<'a> QueryTrail<'a> {
    /// A trail rooted at a request's selection.
    pub fn new(selection: &'a Selection) -> (r: QueryTrail<'a>)
        ensures
            r.look_ahead == Some(selection),
    {
        QueryTrail { look_ahead: Some(selection) }
    }

    /// The walk step: absence when the field this trail stands for was not
    /// selected, a walked handle on its selection otherwise.
    pub fn walk(self) -> (r: Option<WalkedTrail<'a>>)
        ensures
            match self.look_ahead {
                None => r is None,
                Some(s) => r matches Some(w) && w.look_ahead == s,
            },
    {
        match self.look_ahead {
            Some(inner) => Some(WalkedTrail { look_ahead: inner }),
            None => None,
        }
    }
}

impl<'a> WalkedTrail<'a> {
    /// The accessor for a composite field: a new, unwalked trail scoped to
    /// that field's nested selection, absent when the field was not
    /// selected.
    pub fn select_child(&self, name: &str) -> (r: QueryTrail<'a>)
        ensures
            match s_find_child(self.look_ahead.children@, name@) {
                None => r.look_ahead is None,
                Some(c) => r.look_ahead matches Some(s) && *s == c,
            },
    {
        let children = &self.look_ahead.children;
        let mut i: usize = 0;
        proof {
            assert(children@.skip(0) =~= children@);
        }
        while i < children.len()
            invariant
                i <= children.len(),
                *children == self.look_ahead.children,
                s_find_child(children@.skip(i as int), name@) == s_find_child(children@, name@),
            decreases children.len() - i,
        {
            proof {
                assert(children@.skip(i as int).drop_first() =~= children@.skip(i as int + 1));
                assert(children@.skip(i as int)[0] == children@[i as int]);
            }
            if str_eq(children[i].name.as_str(), name) {
                return QueryTrail { look_ahead: Some(&children[i]) };
            }
            i += 1;
        }
        QueryTrail { look_ahead: None }
    }

    /// The accessor for a leaf field: whether the leaf was selected.
    pub fn leaf_selected(&self, name: &str) -> (r: bool)
        ensures
            r == (s_find_child(self.look_ahead.children@, name@) is Some),
    {
        let trail = self.select_child(name);
        match trail.look_ahead {
            Some(_) => true,
            None => false,
        }
    }
}

} // verus!
