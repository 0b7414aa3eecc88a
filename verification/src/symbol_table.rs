//! The symbol table: a pre-pass index over the whole document, built once
//! before any field is compiled. It answers how a name is classified
//! (scalar, enum, union, interface, or — by permissive default — object),
//! which concrete objects implement an interface, whether the reserved
//! scalars were declared, which object is the subscription root, and what
//! fields an input object declares.

use vstd::prelude::*;
use crate::ast::Definition;
use crate::ast::DirectiveUse;
use crate::ast::Document;
use crate::ast::InputValueDef;
use crate::ast::SchemaTypeRef;
use crate::ast::TypeDefinition;
use crate::ast::Value;
use crate::text::clone_opt_string;
use crate::text::clone_string_vec;
use crate::text::str_eq;

verus! {

/// The kinds the table records. An undeclared name classifies as an object
/// reference: that permissive fallback lets forward references and
/// externally declared objects resolve without error.
#[derive(Clone, Copy, PartialEq, Eq, Structural, Debug)]
pub enum DefinedKind {
    Scalar,
    Enum,
    Union,
    Interface,
}

/// How the reserved date-time scalar was declared.
#[derive(Clone, Copy, PartialEq, Eq, Structural, Debug)]
pub enum DateTimeScalarDefinition {
    WithTimeZone,
    WithoutTimeZone,
}

/// What the table keeps of one input-object field.
pub struct InputFieldInfo {
    pub name: String,
    pub value_type_name: String,
    pub nullable: bool,
}

/// The symbol table itself. Built once from the full document; read-only
/// afterwards. Input-object fields are kept as flat
/// (object name, field record) pairs in declaration order.
pub struct AstData {
    pub kinds: Vec<(String, DefinedKind)>,
    pub objects: Vec<(String, Vec<String>)>,
    pub input_fields: Vec<(String, InputFieldInfo)>,
    pub date_scalar_present: bool,
    pub date_time_scalar: Option<DateTimeScalarDefinition>,
    pub uuid_scalar_present: bool,
    pub url_scalar_present: bool,
    pub subscription_name: Option<String>,
}

/// The view of an optional string.
pub open spec fn opt_view(s: Option<String>) -> Option<Seq<char>> {
    match s {
        Some(x) => Some(x@),
        None => None,
    }
}

/// The kind entry one definition contributes to the table: scalars, enums,
/// unions and interfaces are recorded; objects and everything else fall
/// through to the default classification.
pub open spec fn s_kind_entry(def: Definition) -> Seq<(String, DefinedKind)> {
    match def {
        Definition::Type(TypeDefinition::Scalar(sc)) => seq![(sc.name, DefinedKind::Scalar)],
        Definition::Type(TypeDefinition::Enum(en)) => seq![(en.name, DefinedKind::Enum)],
        Definition::Type(TypeDefinition::Union(un)) => seq![(un.name, DefinedKind::Union)],
        Definition::Type(TypeDefinition::Interface(it)) => seq![(it.name, DefinedKind::Interface)],
        _ => Seq::empty(),
    }
}

/// All kind entries, in document order.
pub open spec fn s_kinds(defs: Seq<Definition>) -> Seq<(String, DefinedKind)>
    decreases defs.len(),
{
    if defs.len() == 0 {
        Seq::empty()
    } else {
        s_kinds(defs.drop_last()) + s_kind_entry(defs.last())
    }
}

/// The object entry one definition contributes.
pub open spec fn s_object_entry(def: Definition) -> Seq<(String, Seq<String>)> {
    match def {
        Definition::Type(TypeDefinition::Object(ob)) => seq![
            (ob.name, ob.implements_interfaces@),
        ],
        _ => Seq::empty(),
    }
}

/// The contents of the table's object entries.
pub open spec fn s_objects_view(v: Seq<(String, Vec<String>)>) -> Seq<(String, Seq<String>)> {
    Seq::new(v.len(), |j: int| (v[j].0, v[j].1@))
}

/// All object entries, in document order.
pub open spec fn s_objects(defs: Seq<Definition>) -> Seq<(String, Seq<String>)>
    decreases defs.len(),
{
    if defs.len() == 0 {
        Seq::empty()
    } else {
        s_objects(defs.drop_last()) + s_object_entry(defs.last())
    }
}

/// What the table keeps of one input-object field.
pub open spec fn s_input_field_of(f: InputValueDef) -> InputFieldInfo {
    InputFieldInfo {
        name: f.name,
        value_type_name: f.value_type.spec_base(),
        nullable: !(f.value_type is NonNull),
    }
}

/// The flat input-field entries one definition contributes.
pub open spec fn s_input_entry(def: Definition) -> Seq<(String, InputFieldInfo)> {
    match def {
        Definition::Type(TypeDefinition::InputObject(io)) => Seq::new(
            io.fields@.len(),
            |j: int| (io.name, s_input_field_of(io.fields@[j])),
        ),
        _ => Seq::empty(),
    }
}

/// All input-field entries, in document order.
pub open spec fn s_input_entries(defs: Seq<Definition>) -> Seq<(String, InputFieldInfo)>
    decreases defs.len(),
{
    if defs.len() == 0 {
        Seq::empty()
    } else {
        s_input_entries(defs.drop_last()) + s_input_entry(defs.last())
    }
}

/// Whether a scalar of the given name is declared anywhere in the document.
pub open spec fn s_scalar_declared(defs: Seq<Definition>, name: Seq<char>) -> bool
    decreases defs.len(),
{
    if defs.len() == 0 {
        false
    } else {
        (match defs.last() {
            Definition::Type(TypeDefinition::Scalar(sc)) => sc.name@ == name,
            _ => false,
        }) || s_scalar_declared(defs.drop_last(), name)
    }
}

/// The first argument of the given name in a usage's argument list.
pub open spec fn s_first_arg(args: Seq<(String, Value)>, name: Seq<char>) -> Option<Value>
    decreases args.len(),
{
    if args.len() == 0 {
        None
    } else if args[0].0@ == name {
        Some(args[0].1)
    } else {
        s_first_arg(args.drop_first(), name)
    }
}

/// The first `@juniper` usage in a directive list.
pub open spec fn s_first_juniper(dirs: Seq<DirectiveUse>) -> Option<DirectiveUse>
    decreases dirs.len(),
{
    if dirs.len() == 0 {
        None
    } else if dirs[0].name@ == "juniper"@ {
        Some(dirs[0])
    } else {
        s_first_juniper(dirs.drop_first())
    }
}

/// How a date-time scalar declaration chooses its time-zone form: by the
/// `with_time_zone` argument of its `@juniper` directive, `true` when
/// absent or not a boolean.
pub open spec fn s_with_time_zone(dirs: Seq<DirectiveUse>) -> bool {
    match s_first_juniper(dirs) {
        None => true,
        Some(d) => match s_first_arg(d.arguments@, "with_time_zone"@) {
            Some(Value::Boolean(b)) => b,
            _ => true,
        },
    }
}

/// The recorded date-time scalar declaration: the last one in the document
/// wins.
pub open spec fn s_date_time_scalar(defs: Seq<Definition>) -> Option<DateTimeScalarDefinition>
    decreases defs.len(),
{
    if defs.len() == 0 {
        None
    } else {
        match defs.last() {
            Definition::Type(TypeDefinition::Scalar(sc)) => {
                if sc.name@ == "DateTime"@ {
                    if s_with_time_zone(sc.directives@) {
                        Some(DateTimeScalarDefinition::WithTimeZone)
                    } else {
                        Some(DateTimeScalarDefinition::WithoutTimeZone)
                    }
                } else {
                    s_date_time_scalar(defs.drop_last())
                }
            },
            _ => s_date_time_scalar(defs.drop_last()),
        }
    }
}

/// The recorded subscription root name: the last schema block wins.
pub open spec fn s_subscription_name(defs: Seq<Definition>) -> Option<String>
    decreases defs.len(),
{
    if defs.len() == 0 {
        None
    } else {
        match defs.last() {
            Definition::Schema(sd) => sd.subscription,
            _ => s_subscription_name(defs.drop_last()),
        }
    }
}

/// First-match lookup of a name among the kind entries.
pub open spec fn s_lookup_kind(
    entries: Seq<(String, DefinedKind)>,
    name: Seq<char>,
) -> Option<DefinedKind>
    decreases entries.len(),
{
    if entries.len() == 0 {
        None
    } else if entries[0].0@ == name {
        Some(entries[0].1)
    } else {
        s_lookup_kind(entries.drop_first(), name)
    }
}

/// Whether a sequence of strings holds one with these contents.
pub open spec fn s_strings_contain(v: Seq<String>, x: Seq<char>) -> bool {
    exists|j: int| 0 <= j < v.len() && (#[trigger] v[j])@ == x
}

/// The implementors of an interface: every object that declares it, in
/// document order.
pub open spec fn s_implementors(objects: Seq<(String, Seq<String>)>, iface: Seq<char>) -> Seq<
    String,
>
    decreases objects.len(),
{
    if objects.len() == 0 {
        Seq::empty()
    } else {
        let rest = s_implementors(objects.drop_first(), iface);
        if s_strings_contain(objects[0].1, iface) {
            seq![objects[0].0] + rest
        } else {
            rest
        }
    }
}

/// First-match lookup of one input-object field record.
pub open spec fn s_lookup_input_field(
    entries: Seq<(String, InputFieldInfo)>,
    tn: Seq<char>,
    field: Seq<char>,
) -> Option<InputFieldInfo>
    decreases entries.len(),
{
    if entries.len() == 0 {
        None
    } else if entries[0].0@ == tn && entries[0].1.name@ == field {
        Some(entries[0].1)
    } else {
        s_lookup_input_field(entries.drop_first(), tn, field)
    }
}

/// The field records of one input object, in declaration order.
pub open spec fn s_input_fields_of_object(
    entries: Seq<(String, InputFieldInfo)>,
    tn: Seq<char>,
) -> Seq<InputFieldInfo>
    decreases entries.len(),
{
    if entries.len() == 0 {
        Seq::empty()
    } else {
        let rest = s_input_fields_of_object(entries.drop_first(), tn);
        if entries[0].0@ == tn {
            seq![entries[0].1] + rest
        } else {
            rest
        }
    }
}

/// The with-time-zone choice of a scalar declaration's directive list.
fn with_time_zone_of(dirs: &Vec<DirectiveUse>) -> (r: bool)
    ensures
        r == s_with_time_zone(dirs@),
{
    let mut i: usize = 0;
    proof {
        assert(dirs@.skip(0) =~= dirs@);
    }
    while i < dirs.len()
        invariant
            i <= dirs.len(),
            s_first_juniper(dirs@.skip(i as int)) == s_first_juniper(dirs@),
        decreases dirs.len() - i,
    {
        proof {
            assert(dirs@.skip(i as int).drop_first() =~= dirs@.skip(i as int + 1));
            assert(dirs@.skip(i as int)[0] == dirs@[i as int]);
        }
        if str_eq(dirs[i].name.as_str(), "juniper") {
            let d = &dirs[i];
            let mut k: usize = 0;
            proof {
                assert(d.arguments@.skip(0) =~= d.arguments@);
            }
            while k < d.arguments.len()
                invariant
                    k <= d.arguments.len(),
                    *d == dirs@[i as int],
                    s_first_juniper(dirs@) == Some(*d),
                    s_first_arg(d.arguments@.skip(k as int), "with_time_zone"@) == s_first_arg(
                        d.arguments@,
                        "with_time_zone"@,
                    ),
                decreases d.arguments.len() - k,
            {
                proof {
                    assert(d.arguments@.skip(k as int).drop_first() =~= d.arguments@.skip(
                        k as int + 1,
                    ));
                    assert(d.arguments@.skip(k as int)[0] == d.arguments@[k as int]);
                }
                if str_eq(d.arguments[k].0.as_str(), "with_time_zone") {
                    match &d.arguments[k].1 {
                        Value::Boolean(b) => {
                            return *b;
                        },
                        _ => {
                            return true;
                        },
                    }
                }
                k += 1;
            }
            return true;
        }
        i += 1;
    }
    true
}

impl AstData {
    /// Builds the table in one pass over the document.
    pub fn new(doc: &Document) -> (r: AstData)
        ensures
            r.kinds@ == s_kinds(doc.definitions@),
            s_objects_view(r.objects@) == s_objects(doc.definitions@),
            r.input_fields@ == s_input_entries(doc.definitions@),
            r.date_scalar_present == s_scalar_declared(doc.definitions@, "Date"@),
            r.date_time_scalar == s_date_time_scalar(doc.definitions@),
            r.uuid_scalar_present == s_scalar_declared(doc.definitions@, "Uuid"@),
            r.url_scalar_present == s_scalar_declared(doc.definitions@, "Url"@),
            r.subscription_name == s_subscription_name(doc.definitions@),
    {
        let defs = &doc.definitions;
        let mut table = AstData {
            kinds: Vec::new(),
            objects: Vec::new(),
            input_fields: Vec::new(),
            date_scalar_present: false,
            date_time_scalar: None,
            uuid_scalar_present: false,
            url_scalar_present: false,
            subscription_name: None,
        };
        let mut i: usize = 0;
        while i < defs.len()
            invariant
                i <= defs.len(),
                table.kinds@ == s_kinds(defs@.take(i as int)),
                s_objects_view(table.objects@) == s_objects(defs@.take(i as int)),
                table.input_fields@ == s_input_entries(defs@.take(i as int)),
                table.date_scalar_present == s_scalar_declared(defs@.take(i as int), "Date"@),
                table.date_time_scalar == s_date_time_scalar(defs@.take(i as int)),
                table.uuid_scalar_present == s_scalar_declared(defs@.take(i as int), "Uuid"@),
                table.url_scalar_present == s_scalar_declared(defs@.take(i as int), "Url"@),
                table.subscription_name == s_subscription_name(defs@.take(i as int)),
            decreases defs.len() - i,
        {
            proof {
                assert(defs@.take(i as int + 1).drop_last() =~= defs@.take(i as int));
                assert(defs@.take(i as int + 1).last() == defs@[i as int]);
            }
            match &defs[i] {
                Definition::Schema(sd) => {
                    table.subscription_name = clone_opt_string(&sd.subscription);
                    proof {
                        assert(table.kinds@ =~= s_kinds(defs@.take(i as int + 1)));
                        assert(s_objects_view(table.objects@) =~= s_objects(
                            defs@.take(i as int + 1),
                        ));
                        assert(table.input_fields@ =~= s_input_entries(defs@.take(i as int + 1)));
                    }
                },
                Definition::Type(TypeDefinition::Scalar(sc)) => {
                    table.kinds.push((sc.name.clone(), DefinedKind::Scalar));
                    if str_eq(sc.name.as_str(), "Date") {
                        table.date_scalar_present = true;
                    }
                    if str_eq(sc.name.as_str(), "Uuid") {
                        table.uuid_scalar_present = true;
                    }
                    if str_eq(sc.name.as_str(), "Url") {
                        table.url_scalar_present = true;
                    }
                    if str_eq(sc.name.as_str(), "DateTime") {
                        if with_time_zone_of(&sc.directives) {
                            table.date_time_scalar = Some(DateTimeScalarDefinition::WithTimeZone);
                        } else {
                            table.date_time_scalar = Some(
                                DateTimeScalarDefinition::WithoutTimeZone,
                            );
                        }
                    }
                    proof {
                        assert(table.kinds@ =~= s_kinds(defs@.take(i as int + 1)));
                        assert(s_objects_view(table.objects@) =~= s_objects(
                            defs@.take(i as int + 1),
                        ));
                        assert(table.input_fields@ =~= s_input_entries(defs@.take(i as int + 1)));
                    }
                },
                Definition::Type(TypeDefinition::Enum(en)) => {
                    table.kinds.push((en.name.clone(), DefinedKind::Enum));
                    proof {
                        assert(table.kinds@ =~= s_kinds(defs@.take(i as int + 1)));
                        assert(s_objects_view(table.objects@) =~= s_objects(
                            defs@.take(i as int + 1),
                        ));
                        assert(table.input_fields@ =~= s_input_entries(defs@.take(i as int + 1)));
                    }
                },
                Definition::Type(TypeDefinition::Union(un)) => {
                    table.kinds.push((un.name.clone(), DefinedKind::Union));
                    proof {
                        assert(table.kinds@ =~= s_kinds(defs@.take(i as int + 1)));
                        assert(s_objects_view(table.objects@) =~= s_objects(
                            defs@.take(i as int + 1),
                        ));
                        assert(table.input_fields@ =~= s_input_entries(defs@.take(i as int + 1)));
                    }
                },
                Definition::Type(TypeDefinition::Interface(it)) => {
                    table.kinds.push((it.name.clone(), DefinedKind::Interface));
                    proof {
                        assert(table.kinds@ =~= s_kinds(defs@.take(i as int + 1)));
                        assert(s_objects_view(table.objects@) =~= s_objects(
                            defs@.take(i as int + 1),
                        ));
                        assert(table.input_fields@ =~= s_input_entries(defs@.take(i as int + 1)));
                    }
                },
                Definition::Type(TypeDefinition::Object(ob)) => {
                    table.objects.push(
                        (ob.name.clone(), clone_string_vec(&ob.implements_interfaces)),
                    );
                    proof {
                        assert(table.kinds@ =~= s_kinds(defs@.take(i as int + 1)));
                        assert(s_objects_view(table.objects@) =~= s_objects(
                            defs@.take(i as int + 1),
                        ));
                        assert(table.input_fields@ =~= s_input_entries(defs@.take(i as int + 1)));
                    }
                },
                Definition::Type(TypeDefinition::InputObject(io)) => {
                    let ghost before = table.input_fields@;
                    let ghost entry = s_input_entry(defs@[i as int]);
                    let mut k: usize = 0;
                    while k < io.fields.len()
                        invariant
                            k <= io.fields.len(),
                            entry == s_input_entry(defs@[i as int]),
                            defs@[i as int] matches Definition::Type(
                                TypeDefinition::InputObject(io2),
                            ) && io2 == *io,
                            entry.len() == io.fields@.len(),
                            table.input_fields@ == before + entry.take(k as int),
                            table.kinds@ == s_kinds(defs@.take(i as int)),
                            s_objects_view(table.objects@) == s_objects(defs@.take(i as int)),
                            table.date_scalar_present == s_scalar_declared(
                                defs@.take(i as int),
                                "Date"@,
                            ),
                            table.date_time_scalar == s_date_time_scalar(defs@.take(i as int)),
                            table.uuid_scalar_present == s_scalar_declared(
                                defs@.take(i as int),
                                "Uuid"@,
                            ),
                            table.url_scalar_present == s_scalar_declared(
                                defs@.take(i as int),
                                "Url"@,
                            ),
                            table.subscription_name == s_subscription_name(defs@.take(i as int)),
                        decreases io.fields.len() - k,
                    {
                        let f = &io.fields[k];
                        let nullable = match &f.value_type {
                            SchemaTypeRef::NonNull(_) => false,
                            _ => true,
                        };
                        table.input_fields.push(
                            (
                                io.name.clone(),
                                InputFieldInfo {
                                    name: f.name.clone(),
                                    value_type_name: f.value_type.base_name().clone(),
                                    nullable,
                                },
                            ),
                        );
                        proof {
                            assert(table.input_fields@ =~= before + entry.take(k as int + 1));
                        }
                        k += 1;
                    }
                    proof {
                        assert(entry.take(entry.len() as int) =~= entry);
                        assert(table.kinds@ =~= s_kinds(defs@.take(i as int + 1)));
                        assert(s_objects_view(table.objects@) =~= s_objects(
                            defs@.take(i as int + 1),
                        ));
                        assert(table.input_fields@ =~= s_input_entries(defs@.take(i as int + 1)));
                    }
                },
                Definition::TypeExtension(_) => {
                    proof {
                        assert(s_kind_entry(defs@[i as int]) =~= Seq::empty());
                        assert(table.kinds@ =~= s_kinds(defs@.take(i as int + 1)));
                    }
                },
                Definition::Directive(_) => {
                    proof {
                        assert(s_kind_entry(defs@[i as int]) =~= Seq::empty());
                        assert(table.kinds@ =~= s_kinds(defs@.take(i as int + 1)));
                    }
                },
            }
            i += 1;
        }
        proof {
            assert(defs@.take(defs@.len() as int) =~= defs@);
        }
        table
    }

    /// Classification of a name, `None` meaning the object fallback.
    pub fn lookup_kind(&self, name: &str) -> (r: Option<DefinedKind>)
        ensures
            r == s_lookup_kind(self.kinds@, name@),
    {
        let mut i: usize = 0;
        proof {
            assert(self.kinds@.skip(0) =~= self.kinds@);
        }
        while i < self.kinds.len()
            invariant
                i <= self.kinds.len(),
                s_lookup_kind(self.kinds@.skip(i as int), name@) == s_lookup_kind(
                    self.kinds@,
                    name@,
                ),
            decreases self.kinds.len() - i,
        {
            proof {
                assert(self.kinds@.skip(i as int).drop_first() =~= self.kinds@.skip(i as int + 1));
                assert(self.kinds@.skip(i as int)[0] == self.kinds@[i as int]);
            }
            if str_eq(self.kinds[i].0.as_str(), name) {
                return Some(self.kinds[i].1);
            }
            i += 1;
        }
        None
    }

    /// Whether the name is a declared scalar.
    pub fn is_scalar(&self, name: &str) -> (r: bool)
        ensures
            r == (s_lookup_kind(self.kinds@, name@) == Some(DefinedKind::Scalar)),
    {
        match self.lookup_kind(name) {
            Some(DefinedKind::Scalar) => true,
            _ => false,
        }
    }

    /// Whether the name is a declared enum.
    pub fn is_enum_type(&self, name: &str) -> (r: bool)
        ensures
            r == (s_lookup_kind(self.kinds@, name@) == Some(DefinedKind::Enum)),
    {
        match self.lookup_kind(name) {
            Some(DefinedKind::Enum) => true,
            _ => false,
        }
    }

    /// Whether the name is a declared union.
    pub fn is_union_type(&self, name: &str) -> (r: bool)
        ensures
            r == (s_lookup_kind(self.kinds@, name@) == Some(DefinedKind::Union)),
    {
        match self.lookup_kind(name) {
            Some(DefinedKind::Union) => true,
            _ => false,
        }
    }

    /// Whether the name is a declared interface.
    pub fn is_interface_type(&self, name: &str) -> (r: bool)
        ensures
            r == (s_lookup_kind(self.kinds@, name@) == Some(DefinedKind::Interface)),
    {
        match self.lookup_kind(name) {
            Some(DefinedKind::Interface) => true,
            _ => false,
        }
    }

    /// Whether the name is the declared subscription root.
    pub fn is_subscription_type(&self, name: &str) -> (r: bool)
        ensures
            r == (opt_view(self.subscription_name) == Some(name@)),
    {
        match &self.subscription_name {
            Some(s) => str_eq(s.as_str(), name),
            None => false,
        }
    }

    /// Every object that declares this interface, in document order.
    pub fn get_implementors_of_interface(&self, name: &str) -> (r: Vec<String>)
        ensures
            r@ == s_implementors(s_objects_view(self.objects@), name@),
    {
        let ghost objs = s_objects_view(self.objects@);
        let mut out: Vec<String> = Vec::new();
        let mut i: usize = 0;
        proof {
            assert(objs.skip(0) =~= objs);
            assert(out@ + s_implementors(objs, name@) =~= s_implementors(objs, name@));
        }
        while i < self.objects.len()
            invariant
                i <= self.objects.len(),
                objs == s_objects_view(self.objects@),
                objs.len() == self.objects@.len(),
                out@ + s_implementors(objs.skip(i as int), name@) == s_implementors(objs, name@),
            decreases self.objects.len() - i,
        {
            proof {
                assert(objs.skip(i as int).drop_first() =~= objs.skip(i as int + 1));
                assert(objs.skip(i as int)[0] == objs[i as int]);
            }
            let entry = &self.objects[i];
            let mut found = false;
            let mut k: usize = 0;
            while k < entry.1.len()
                invariant
                    k <= entry.1.len(),
                    *entry == self.objects@[i as int],
                    found == exists|j: int| 0 <= j < k && (#[trigger] entry.1@[j])@ == name@,
                decreases entry.1.len() - k,
            {
                if str_eq(entry.1[k].as_str(), name) {
                    found = true;
                }
                k += 1;
            }
            proof {
                assert(objs[i as int].1 == self.objects@[i as int].1@);
                assert(found == s_strings_contain(objs[i as int].1, name@));
            }
            if found {
                out.push(entry.0.clone());
            }
            proof {
                assert(out@ + s_implementors(objs.skip(i as int + 1), name@) =~= s_implementors(
                    objs,
                    name@,
                ));
            }
            i += 1;
        }
        proof {
            assert(out@ =~= s_implementors(objs, name@));
        }
        out
    }

    /// Whether the reserved date scalar was declared.
    pub fn date_scalar_defined(&self) -> (r: bool)
        ensures
            r == self.date_scalar_present,
    {
        self.date_scalar_present
    }

    /// Whether the reserved UUID scalar was declared.
    pub fn uuid_scalar_defined(&self) -> (r: bool)
        ensures
            r == self.uuid_scalar_present,
    {
        self.uuid_scalar_present
    }

    /// Whether the reserved URL scalar was declared.
    pub fn url_scalar_defined(&self) -> (r: bool)
        ensures
            r == self.url_scalar_present,
    {
        self.url_scalar_present
    }

    /// How the reserved date-time scalar was declared, if at all.
    pub fn date_time_scalar_definition(&self) -> (r: Option<DateTimeScalarDefinition>)
        ensures
            r == self.date_time_scalar,
    {
        self.date_time_scalar
    }

    /// One input-object field's record, by object and field name.
    pub fn lookup_input_field(&self, tn: &str, field: &str) -> (r: Option<&InputFieldInfo>)
        ensures
            match s_lookup_input_field(self.input_fields@, tn@, field@) {
                None => r is None,
                Some(info) => r matches Some(f) && *f == info,
            },
    {
        let mut i: usize = 0;
        proof {
            assert(self.input_fields@.skip(0) =~= self.input_fields@);
        }
        while i < self.input_fields.len()
            invariant
                i <= self.input_fields.len(),
                s_lookup_input_field(self.input_fields@.skip(i as int), tn@, field@)
                    == s_lookup_input_field(self.input_fields@, tn@, field@),
            decreases self.input_fields.len() - i,
        {
            proof {
                assert(self.input_fields@.skip(i as int).drop_first() =~= self.input_fields@.skip(
                    i as int + 1,
                ));
                assert(self.input_fields@.skip(i as int)[0] == self.input_fields@[i as int]);
            }
            let entry = &self.input_fields[i];
            if str_eq(entry.0.as_str(), tn) && str_eq(entry.1.name.as_str(), field) {
                return Some(&entry.1);
            }
            i += 1;
        }
        None
    }

    /// The declared type name of one input-object field.
    pub fn input_object_field_type_name(&self, tn: &str, field: &str) -> (r: Option<&String>)
        ensures
            match s_lookup_input_field(self.input_fields@, tn@, field@) {
                None => r is None,
                Some(info) => r matches Some(s) && *s == info.value_type_name,
            },
    {
        match self.lookup_input_field(tn, field) {
            Some(info) => Some(&info.value_type_name),
            None => None,
        }
    }

    /// Whether one input-object field is nullable.
    pub fn input_object_field_is_nullable(&self, tn: &str, field: &str) -> (r: Option<bool>)
        ensures
            match s_lookup_input_field(self.input_fields@, tn@, field@) {
                None => r is None,
                Some(info) => r == Some(info.nullable),
            },
    {
        match self.lookup_input_field(tn, field) {
            Some(info) => Some(info.nullable),
            None => None,
        }
    }

    /// The field records of one input object, in declaration order.
    pub fn input_object_fields(&self, tn: &str) -> (r: Vec<InputFieldInfo>)
        ensures
            r@ == s_input_fields_of_object(self.input_fields@, tn@),
    {
        let mut out: Vec<InputFieldInfo> = Vec::new();
        let mut i: usize = 0;
        proof {
            assert(self.input_fields@.skip(0) =~= self.input_fields@);
            assert(out@ + s_input_fields_of_object(self.input_fields@, tn@)
                =~= s_input_fields_of_object(self.input_fields@, tn@));
        }
        while i < self.input_fields.len()
            invariant
                i <= self.input_fields.len(),
                out@ + s_input_fields_of_object(self.input_fields@.skip(i as int), tn@)
                    == s_input_fields_of_object(self.input_fields@, tn@),
            decreases self.input_fields.len() - i,
        {
            proof {
                assert(self.input_fields@.skip(i as int).drop_first() =~= self.input_fields@.skip(
                    i as int + 1,
                ));
                assert(self.input_fields@.skip(i as int)[0] == self.input_fields@[i as int]);
            }
            let entry = &self.input_fields[i];
            if str_eq(entry.0.as_str(), tn) {
                out.push(
                    InputFieldInfo {
                        name: entry.1.name.clone(),
                        value_type_name: entry.1.value_type_name.clone(),
                        nullable: entry.1.nullable,
                    },
                );
            }
            proof {
                assert(out@ + s_input_fields_of_object(
                    self.input_fields@.skip(i as int + 1),
                    tn@,
                ) =~= s_input_fields_of_object(self.input_fields@, tn@));
            }
            i += 1;
        }
        proof {
            assert(out@ =~= s_input_fields_of_object(self.input_fields@, tn@));
        }
        out
    }
}

} // verus!
