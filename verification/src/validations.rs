//! The validation passes: two independent read-only lints over the
//! document, each with its own error accumulator — field names that are
//! already snake_case (the convention is camelCase, and emission
//! snake-cases names itself), and the reserved UUID scalar written in its
//! fully uppercase form.

use vstd::prelude::*;
use crate::ast::Definition;
use crate::ast::Document;
use crate::ast::FieldDefinition;
use crate::ast::InputValueDef;
use crate::ast::ObjectType;
use crate::ast::InterfaceType;
use crate::ast::InputObjectType;
use crate::ast::ScalarType;
use crate::ast::TypeDefinition;
use crate::error::Error;
use crate::error::ErrorKind;
use crate::error::Pos;
use crate::text::contains_underscore;
use crate::text::snake_of;
use crate::text::str_eq;
use crate::text::to_snake_case;

verus! {

/// A name is already snake_case when it holds an underscore and
/// snake-casing leaves it unchanged.
pub open spec fn s_is_snake_case(s: Seq<char>) -> bool {
    s.contains('_') && snake_of(s) == s
}

/// Decides `s_is_snake_case`.
pub fn is_snake_case(s: &str) -> (r: bool)
    ensures
        r == s_is_snake_case(s@),
{
    if !contains_underscore(s) {
        return false;
    }
    let snaked = to_snake_case(s);
    str_eq(snaked.as_str(), s)
}

/// The lint's diagnostic for one field name.
pub open spec fn s_field_case_error(name: Seq<char>, pos: Pos) -> Seq<Error> {
    if s_is_snake_case(name) {
        seq![Error { pos, kind: ErrorKind::FieldNameInSnakeCase }]
    } else {
        Seq::empty()
    }
}

/// The lint's diagnostics over a field list.
pub open spec fn s_fields_case_errors(fields: Seq<FieldDefinition>) -> Seq<Error>
    decreases fields.len(),
{
    if fields.len() == 0 {
        Seq::empty()
    } else {
        s_field_case_error(fields[0].name@, fields[0].position) + s_fields_case_errors(
            fields.drop_first(),
        )
    }
}

/// The lint's diagnostics over an input-object field list.
pub open spec fn s_input_fields_case_errors(fields: Seq<InputValueDef>) -> Seq<Error>
    decreases fields.len(),
{
    if fields.len() == 0 {
        Seq::empty()
    } else {
        s_field_case_error(fields[0].name@, fields[0].position) + s_input_fields_case_errors(
            fields.drop_first(),
        )
    }
}

/// The field-name lint over one definition.
pub open spec fn s_def_field_case_errors(def: Definition) -> Seq<Error> {
    match def {
        Definition::Type(TypeDefinition::Object(ob)) => s_fields_case_errors(ob.fields@),
        Definition::Type(TypeDefinition::Interface(it)) => s_fields_case_errors(it.fields@),
        Definition::Type(TypeDefinition::InputObject(io)) => s_input_fields_case_errors(
            io.fields@,
        ),
        _ => Seq::empty(),
    }
}

/// The field-name lint over the whole document.
pub open spec fn s_doc_field_case_errors(defs: Seq<Definition>) -> Seq<Error>
    decreases defs.len(),
{
    if defs.len() == 0 {
        Seq::empty()
    } else {
        s_doc_field_case_errors(defs.drop_last()) + s_def_field_case_errors(defs.last())
    }
}

/// The uppercase-UUID lint over one definition.
pub open spec fn s_def_uuid_case_errors(def: Definition) -> Seq<Error> {
    match def {
        Definition::Type(TypeDefinition::Scalar(sc)) => {
            if sc.name@ == "UUID"@ {
                seq![Error { pos: sc.position, kind: ErrorKind::UppercaseUuidScalar }]
            } else {
                Seq::empty()
            }
        },
        _ => Seq::empty(),
    }
}

/// The uppercase-UUID lint over the whole document.
pub open spec fn s_doc_uuid_case_errors(defs: Seq<Definition>) -> Seq<Error>
    decreases defs.len(),
{
    if defs.len() == 0 {
        Seq::empty()
    } else {
        s_doc_uuid_case_errors(defs.drop_last()) + s_def_uuid_case_errors(defs.last())
    }
}

/// Both lints over the whole document, field-name diagnostics first.
pub open spec fn s_validate_doc(defs: Seq<Definition>) -> Seq<Error> {
    s_doc_field_case_errors(defs) + s_doc_uuid_case_errors(defs)
}

/// The field-name lint: rejects field and input-field names already in
/// snake_case.
pub struct FieldNameCaseValidator {
    pub errors: Vec<Error>,
}

impl FieldNameCaseValidator {
    /// A fresh lint with an empty accumulator.
    pub fn new() -> (r: Self)
        ensures
            r.errors@ == Seq::<Error>::empty(),
    {
        FieldNameCaseValidator { errors: Vec::new() }
    }

    /// Checks one name.
    pub fn validate_field(&mut self, name: &str, pos: Pos)
        ensures
            final(self).errors@ == old(self).errors@ + s_field_case_error(name@, pos),
    {
        if is_snake_case(name) {
            self.errors.push(Error { pos, kind: ErrorKind::FieldNameInSnakeCase });
        }
    }

    /// Checks every field of a list.
    pub fn validate_fields(&mut self, fields: &Vec<FieldDefinition>)
        ensures
            final(self).errors@ == old(self).errors@ + s_fields_case_errors(fields@),
    {
        let ghost mut emitted: Seq<Error> = Seq::empty();
        let mut i: usize = 0;
        proof {
            assert(fields@.skip(0) =~= fields@);
            assert(self.errors@ =~= old(self).errors@ + emitted);
        }
        while i < fields.len()
            invariant
                i <= fields.len(),
                self.errors@ == old(self).errors@ + emitted,
                emitted + s_fields_case_errors(fields@.skip(i as int)) == s_fields_case_errors(
                    fields@,
                ),
            decreases fields.len() - i,
        {
            proof {
                assert(fields@.skip(i as int).drop_first() =~= fields@.skip(i as int + 1));
                assert(fields@.skip(i as int)[0] == fields@[i as int]);
            }
            self.validate_field(fields[i].name.as_str(), fields[i].position);
            proof {
                emitted = emitted + s_field_case_error(
                    fields@[i as int].name@,
                    fields@[i as int].position,
                );
                assert(self.errors@ =~= old(self).errors@ + emitted);
                assert(emitted + s_fields_case_errors(fields@.skip(i as int + 1))
                    =~= s_fields_case_errors(fields@));
            }
            i += 1;
        }
        proof {
            assert(emitted =~= s_fields_case_errors(fields@));
        }
    }

    /// Checks an object definition's fields.
    pub fn visit_object_type(&mut self, ty: &ObjectType)
        ensures
            final(self).errors@ == old(self).errors@ + s_fields_case_errors(ty.fields@),
    {
        self.validate_fields(&ty.fields);
    }

    /// Checks an interface definition's fields.
    pub fn visit_interface_type(&mut self, ty: &InterfaceType)
        ensures
            final(self).errors@ == old(self).errors@ + s_fields_case_errors(ty.fields@),
    {
        self.validate_fields(&ty.fields);
    }

    /// Checks an input object definition's fields.
    pub fn visit_input_object_type(&mut self, ty: &InputObjectType)
        ensures
            final(self).errors@ == old(self).errors@ + s_input_fields_case_errors(ty.fields@),
    {
        let ghost mut emitted: Seq<Error> = Seq::empty();
        let mut i: usize = 0;
        proof {
            assert(ty.fields@.skip(0) =~= ty.fields@);
            assert(self.errors@ =~= old(self).errors@ + emitted);
        }
        while i < ty.fields.len()
            invariant
                i <= ty.fields.len(),
                self.errors@ == old(self).errors@ + emitted,
                emitted + s_input_fields_case_errors(ty.fields@.skip(i as int))
                    == s_input_fields_case_errors(ty.fields@),
            decreases ty.fields.len() - i,
        {
            proof {
                assert(ty.fields@.skip(i as int).drop_first() =~= ty.fields@.skip(i as int + 1));
                assert(ty.fields@.skip(i as int)[0] == ty.fields@[i as int]);
            }
            self.validate_field(ty.fields[i].name.as_str(), ty.fields[i].position);
            proof {
                emitted = emitted + s_field_case_error(
                    ty.fields@[i as int].name@,
                    ty.fields@[i as int].position,
                );
                assert(self.errors@ =~= old(self).errors@ + emitted);
                assert(emitted + s_input_fields_case_errors(ty.fields@.skip(i as int + 1))
                    =~= s_input_fields_case_errors(ty.fields@));
            }
            i += 1;
        }
        proof {
            assert(emitted =~= s_input_fields_case_errors(ty.fields@));
        }
    }

    /// Runs the lint over every definition of the document.
    pub fn visit_document(&mut self, doc: &Document)
        ensures
            final(self).errors@ == old(self).errors@ + s_doc_field_case_errors(doc.definitions@),
    {
        let defs = &doc.definitions;
        let mut i: usize = 0;
        while i < defs.len()
            invariant
                i <= defs.len(),
                self.errors@ == old(self).errors@ + s_doc_field_case_errors(
                    defs@.take(i as int),
                ),
            decreases defs.len() - i,
        {
            proof {
                assert(defs@.take(i as int + 1).drop_last() =~= defs@.take(i as int));
                assert(defs@.take(i as int + 1).last() == defs@[i as int]);
            }
            match &defs[i] {
                Definition::Type(TypeDefinition::Object(ob)) => {
                    self.visit_object_type(ob);
                },
                Definition::Type(TypeDefinition::Interface(it)) => {
                    self.visit_interface_type(it);
                },
                Definition::Type(TypeDefinition::InputObject(io)) => {
                    self.visit_input_object_type(io);
                },
                _ => {},
            }
            proof {
                assert(self.errors@ =~= old(self).errors@ + s_doc_field_case_errors(
                    defs@.take(i as int + 1),
                ));
            }
            i += 1;
        }
        proof {
            assert(defs@.take(defs@.len() as int) =~= defs@);
        }
    }
}

/// The uppercase-UUID lint: the reserved UUID scalar must be written in
/// its canonical mixed-case form.
pub struct UuidNameCaseValidator {
    pub errors: Vec<Error>,
}

impl UuidNameCaseValidator {
    /// A fresh lint with an empty accumulator.
    pub fn new() -> (r: Self)
        ensures
            r.errors@ == Seq::<Error>::empty(),
    {
        UuidNameCaseValidator { errors: Vec::new() }
    }

    /// Checks one scalar definition.
    pub fn visit_scalar_type(&mut self, scalar: &ScalarType)
        ensures
            final(self).errors@ == old(self).errors@ + s_def_uuid_case_errors(
                Definition::Type(TypeDefinition::Scalar(*scalar)),
            ),
    {
        if str_eq(scalar.name.as_str(), "UUID") {
            self.errors.push(Error { pos: scalar.position, kind: ErrorKind::UppercaseUuidScalar });
        }
    }

    /// Runs the lint over every definition of the document.
    pub fn visit_document(&mut self, doc: &Document)
        ensures
            final(self).errors@ == old(self).errors@ + s_doc_uuid_case_errors(doc.definitions@),
    {
        let defs = &doc.definitions;
        let mut i: usize = 0;
        while i < defs.len()
            invariant
                i <= defs.len(),
                self.errors@ == old(self).errors@ + s_doc_uuid_case_errors(defs@.take(i as int)),
            decreases defs.len() - i,
        {
            proof {
                assert(defs@.take(i as int + 1).drop_last() =~= defs@.take(i as int));
                assert(defs@.take(i as int + 1).last() == defs@[i as int]);
            }
            match &defs[i] {
                Definition::Type(TypeDefinition::Scalar(sc)) => {
                    self.visit_scalar_type(sc);
                },
                _ => {},
            }
            proof {
                assert(self.errors@ =~= old(self).errors@ + s_doc_uuid_case_errors(
                    defs@.take(i as int + 1),
                ));
            }
            i += 1;
        }
        proof {
            assert(defs@.take(defs@.len() as int) =~= defs@);
        }
    }
}

} // verus!
