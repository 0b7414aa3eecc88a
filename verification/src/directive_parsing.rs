//! The directive parser and validator: the fixed `@juniper` grammar, the
//! typed record a field's directives parse into, the validation of the
//! grammar declaration itself, and the per-location usage rules.

use vstd::prelude::*;
use crate::ast::DirectiveDefinition;
use crate::ast::DirectiveUse;
use crate::ast::InputValueDef;
use crate::ast::SchemaTypeRef;
use crate::ast::Value;
use crate::error::DirectiveArgName;
use crate::error::DirectiveIssue;
use crate::error::DirectiveLocation;
use crate::error::Error;
use crate::error::ErrorKind;
use crate::error::Pos;
use crate::text::parses_as_type;
use crate::text::str_eq;
use crate::text::type_text_parses;

verus! {

/// Who owns a resolved value: the resolver hands it over, lends it, or
/// lends the contents of a container.
#[derive(Clone, Copy, PartialEq, Eq, Structural, Debug)]
pub enum Ownership {
    Owned,
    Borrowed,
    AsRef,
}

impl Ownership {
    /// Whether the as-ref transform was requested.
    pub fn is_as_ref(&self) -> (r: bool)
        ensures
            r == (*self is AsRef),
    {
        match self {
            Ownership::AsRef => true,
            _ => false,
        }
    }
}

/// Whether and why a field or enum value is deprecated.
pub enum Deprecation {
    NoDeprecation,
    Deprecated(Option<String>),
}

/// The typed record a field's directives parse into.
pub struct FieldDirectives {
    pub ownership: Ownership,
    pub infallible: bool,
    /// The `async` argument of the directive grammar.
    pub asyncness: bool,
    pub stream_item_infallible: Option<bool>,
    pub stream_type: Option<String>,
    pub deprecated: Option<Deprecation>,
}

/// Where a field stands, which decides which directives are legal on it.
#[derive(Clone, Copy, PartialEq, Eq, Structural, Debug)]
pub enum FieldLocation {
    Object,
    Interface,
    Subscription,
}

/// The record every field starts from: the declared defaults of the
/// directive grammar.
pub open spec fn s_default_field_directives() -> FieldDirectives {
    FieldDirectives {
        ownership: Ownership::Borrowed,
        infallible: false,
        asyncness: false,
        stream_item_infallible: None,
        stream_type: None,
        deprecated: None,
    }
}

/// The deprecation reason of a `@deprecated` usage: its `reason` argument,
/// when that is a string.
pub open spec fn s_deprecation_reason(args: Seq<(String, Value)>) -> Option<String>
    decreases args.len(),
{
    if args.len() == 0 {
        None
    } else if args[0].0@ == "reason"@ {
        match args[0].1 {
            Value::Str(s) => Some(s),
            _ => None,
        }
    } else {
        s_deprecation_reason(args.drop_first(), )
    }
}

/// One named argument of a `@juniper` usage applied to the record:
/// a recognized argument with a well-shaped value updates its slot; an
/// ill-shaped value or an unknown name leaves the record alone and yields
/// one diagnostic at the usage position.
pub open spec fn s_apply_juniper_arg(
    cur: FieldDirectives,
    pos: Pos,
    name: String,
    value: Value,
) -> (FieldDirectives, Seq<Error>) {
    if name@ == "ownership"@ {
        match value {
            Value::Str(s) => {
                if s@ == "owned"@ {
                    (FieldDirectives { ownership: Ownership::Owned, ..cur }, Seq::empty())
                } else if s@ == "borrowed"@ {
                    (FieldDirectives { ownership: Ownership::Borrowed, ..cur }, Seq::empty())
                } else if s@ == "as_ref"@ {
                    (FieldDirectives { ownership: Ownership::AsRef, ..cur }, Seq::empty())
                } else {
                    (cur, seq![Error { pos, kind: ErrorKind::UnknownOwnership(s) }])
                }
            },
            _ => (
                cur,
                seq![
                    Error {
                        pos,
                        kind: ErrorKind::InvalidArgumentValue(DirectiveArgName::Ownership),
                    },
                ],
            ),
        }
    } else if name@ == "infallible"@ {
        match value {
            Value::Boolean(b) => (FieldDirectives { infallible: b, ..cur }, Seq::empty()),
            _ => (
                cur,
                seq![
                    Error {
                        pos,
                        kind: ErrorKind::InvalidArgumentValue(DirectiveArgName::Infallible),
                    },
                ],
            ),
        }
    } else if name@ == "async"@ {
        match value {
            Value::Boolean(b) => (FieldDirectives { asyncness: b, ..cur }, Seq::empty()),
            _ => (
                cur,
                seq![
                    Error { pos, kind: ErrorKind::InvalidArgumentValue(DirectiveArgName::Async) },
                ],
            ),
        }
    } else if name@ == "stream_item_infallible"@ {
        match value {
            Value::Boolean(b) => (
                FieldDirectives { stream_item_infallible: Some(b), ..cur },
                Seq::empty(),
            ),
            _ => (
                cur,
                seq![
                    Error {
                        pos,
                        kind: ErrorKind::InvalidArgumentValue(
                            DirectiveArgName::StreamItemInfallible,
                        ),
                    },
                ],
            ),
        }
    } else if name@ == "stream_type"@ {
        match value {
            Value::Str(s) => (FieldDirectives { stream_type: Some(s), ..cur }, Seq::empty()),
            Value::Null => (FieldDirectives { stream_type: None, ..cur }, Seq::empty()),
            _ => (
                cur,
                seq![
                    Error {
                        pos,
                        kind: ErrorKind::InvalidArgumentValue(DirectiveArgName::StreamType),
                    },
                ],
            ),
        }
    } else {
        (cur, seq![Error { pos, kind: ErrorKind::UnknownDirectiveArgument(name) }])
    }
}

/// All arguments of one `@juniper` usage, applied left to right.
pub open spec fn s_apply_juniper_args(
    cur: FieldDirectives,
    pos: Pos,
    args: Seq<(String, Value)>,
) -> (FieldDirectives, Seq<Error>)
    decreases args.len(),
{
    if args.len() == 0 {
        (cur, Seq::empty())
    } else {
        let step = s_apply_juniper_arg(cur, pos, args[0].0, args[0].1);
        let rest = s_apply_juniper_args(step.0, pos, args.drop_first());
        (rest.0, step.1 + rest.1)
    }
}

/// One directive usage applied to the record: `@juniper` parses its
/// arguments, `@deprecated` records the deprecation, anything else is left
/// to other tooling.
pub open spec fn s_apply_field_directive(cur: FieldDirectives, d: DirectiveUse) -> (
    FieldDirectives,
    Seq<Error>,
) {
    if d.name@ == "juniper"@ {
        s_apply_juniper_args(cur, d.position, d.arguments@)
    } else if d.name@ == "deprecated"@ {
        (
            FieldDirectives {
                deprecated: Some(Deprecation::Deprecated(s_deprecation_reason(d.arguments@))),
                ..cur
            },
            Seq::empty(),
        )
    } else {
        (cur, Seq::empty())
    }
}

/// A whole directive list applied left to right from a given record.
pub open spec fn s_parse_field_directives_from(
    cur: FieldDirectives,
    dirs: Seq<DirectiveUse>,
) -> (FieldDirectives, Seq<Error>)
    decreases dirs.len(),
{
    if dirs.len() == 0 {
        (cur, Seq::empty())
    } else {
        let step = s_apply_field_directive(cur, dirs[0]);
        let rest = s_parse_field_directives_from(step.0, dirs.drop_first());
        (rest.0, step.1 + rest.1)
    }
}

/// What a field's directive list parses to, and the diagnostics on the way:
/// defaults substituted for everything the usage omits.
pub open spec fn s_parse_field_directives(dirs: Seq<DirectiveUse>) -> (FieldDirectives, Seq<Error>) {
    s_parse_field_directives_from(s_default_field_directives(), dirs)
}

/// Parses one field's directive list into the typed record, accumulating
/// diagnostics; parsing never aborts, an ill-formed argument keeps its
/// default.
pub fn parse_field_directives(dirs: &Vec<DirectiveUse>, errs: &mut Vec<Error>) -> (r:
    FieldDirectives)
    ensures
        r == s_parse_field_directives(dirs@).0,
        final(errs)@ == old(errs)@ + s_parse_field_directives(dirs@).1,
{
    let mut cur = FieldDirectives {
        ownership: Ownership::Borrowed,
        infallible: false,
        asyncness: false,
        stream_item_infallible: None,
        stream_type: None,
        deprecated: None,
    };
    let ghost total = s_parse_field_directives(dirs@);
    let ghost mut emitted: Seq<Error> = Seq::empty();
    let mut i: usize = 0;
    proof {
        assert(dirs@.skip(0) =~= dirs@);
        assert(errs@ =~= old(errs)@ + emitted);
    }
    while i < dirs.len()
        invariant
            i <= dirs.len(),
            errs@ == old(errs)@ + emitted,
            s_parse_field_directives_from(cur, dirs@.skip(i as int)).0 == total.0,
            emitted + s_parse_field_directives_from(cur, dirs@.skip(i as int)).1 == total.1,
        decreases dirs.len() - i,
    {
        proof {
            assert(dirs@.skip(i as int).drop_first() =~= dirs@.skip(i as int + 1));
            assert(dirs@.skip(i as int)[0] == dirs@[i as int]);
        }
        let d = &dirs[i];
        let ghost step = s_apply_field_directive(cur, dirs@[i as int]);
        if str_eq(d.name.as_str(), "juniper") {
            let ghost inner_total = s_apply_juniper_args(cur, d.position, d.arguments@);
            let ghost mut inner_emitted: Seq<Error> = Seq::empty();
            let mut k: usize = 0;
            proof {
                assert(d.arguments@.skip(0) =~= d.arguments@);
            }
            while k < d.arguments.len()
                invariant
                    k <= d.arguments.len(),
                    errs@ == old(errs)@ + emitted + inner_emitted,
                    s_apply_juniper_args(cur, d.position, d.arguments@.skip(k as int)).0
                        == inner_total.0,
                    inner_emitted + s_apply_juniper_args(
                        cur,
                        d.position,
                        d.arguments@.skip(k as int),
                    ).1 == inner_total.1,
                    *d == dirs@[i as int],
                decreases d.arguments.len() - k,
            {
                proof {
                    assert(d.arguments@.skip(k as int).drop_first() =~= d.arguments@.skip(
                        k as int + 1,
                    ));
                    assert(d.arguments@.skip(k as int)[0] == d.arguments@[k as int]);
                }
                let ghost arg_step = s_apply_juniper_arg(
                    cur,
                    d.position,
                    d.arguments@[k as int].0,
                    d.arguments@[k as int].1,
                );
                let arg_name = &d.arguments[k].0;
                let arg_value = &d.arguments[k].1;
                if str_eq(arg_name.as_str(), "ownership") {
                    match arg_value {
                        Value::Str(s) => {
                            if str_eq(s.as_str(), "owned") {
                                cur.ownership = Ownership::Owned;
                            } else if str_eq(s.as_str(), "borrowed") {
                                cur.ownership = Ownership::Borrowed;
                            } else if str_eq(s.as_str(), "as_ref") {
                                cur.ownership = Ownership::AsRef;
                            } else {
                                errs.push(
                                    Error {
                                        pos: d.position,
                                        kind: ErrorKind::UnknownOwnership(s.clone()),
                                    },
                                );
                            }
                        },
                        _ => {
                            errs.push(
                                Error {
                                    pos: d.position,
                                    kind: ErrorKind::InvalidArgumentValue(
                                        DirectiveArgName::Ownership,
                                    ),
                                },
                            );
                        },
                    }
                } else if str_eq(arg_name.as_str(), "infallible") {
                    match arg_value {
                        Value::Boolean(b) => {
                            cur.infallible = *b;
                        },
                        _ => {
                            errs.push(
                                Error {
                                    pos: d.position,
                                    kind: ErrorKind::InvalidArgumentValue(
                                        DirectiveArgName::Infallible,
                                    ),
                                },
                            );
                        },
                    }
                } else if str_eq(arg_name.as_str(), "async") {
                    match arg_value {
                        Value::Boolean(b) => {
                            cur.asyncness = *b;
                        },
                        _ => {
                            errs.push(
                                Error {
                                    pos: d.position,
                                    kind: ErrorKind::InvalidArgumentValue(DirectiveArgName::Async),
                                },
                            );
                        },
                    }
                } else if str_eq(arg_name.as_str(), "stream_item_infallible") {
                    match arg_value {
                        Value::Boolean(b) => {
                            cur.stream_item_infallible = Some(*b);
                        },
                        _ => {
                            errs.push(
                                Error {
                                    pos: d.position,
                                    kind: ErrorKind::InvalidArgumentValue(
                                        DirectiveArgName::StreamItemInfallible,
                                    ),
                                },
                            );
                        },
                    }
                } else if str_eq(arg_name.as_str(), "stream_type") {
                    match arg_value {
                        Value::Str(s) => {
                            cur.stream_type = Some(s.clone());
                        },
                        Value::Null => {
                            cur.stream_type = None;
                        },
                        _ => {
                            errs.push(
                                Error {
                                    pos: d.position,
                                    kind: ErrorKind::InvalidArgumentValue(
                                        DirectiveArgName::StreamType,
                                    ),
                                },
                            );
                        },
                    }
                } else {
                    errs.push(
                        Error {
                            pos: d.position,
                            kind: ErrorKind::UnknownDirectiveArgument(arg_name.clone()),
                        },
                    );
                }
                proof {
                    inner_emitted = inner_emitted + arg_step.1;
                    assert(errs@ =~= old(errs)@ + emitted + inner_emitted);
                    assert(inner_emitted + s_apply_juniper_args(
                        cur,
                        d.position,
                        d.arguments@.skip(k as int + 1),
                    ).1 =~= inner_total.1);
                }
                k += 1;
            }
            proof {
                emitted = emitted + inner_emitted;
                assert(errs@ =~= old(errs)@ + emitted);
                assert(emitted + s_parse_field_directives_from(
                    cur,
                    dirs@.skip(i as int + 1),
                ).1 =~= total.1);
            }
        } else if str_eq(d.name.as_str(), "deprecated") {
            let mut reason: Option<String> = None;
            let mut k: usize = 0;
            proof {
                assert(d.arguments@.skip(0) =~= d.arguments@);
            }
            let mut done = false;
            while k < d.arguments.len() && !done
                invariant
                    k <= d.arguments.len(),
                    *d == dirs@[i as int],
                    if done {
                        reason == s_deprecation_reason(d.arguments@)
                    } else {
                        reason is None && s_deprecation_reason(d.arguments@.skip(k as int))
                            == s_deprecation_reason(d.arguments@)
                    },
                decreases d.arguments.len() - k,
            {
                proof {
                    assert(d.arguments@.skip(k as int).drop_first() =~= d.arguments@.skip(
                        k as int + 1,
                    ));
                    assert(d.arguments@.skip(k as int)[0] == d.arguments@[k as int]);
                }
                if str_eq(d.arguments[k].0.as_str(), "reason") {
                    match &d.arguments[k].1 {
                        Value::Str(s) => {
                            reason = Some(s.clone());
                        },
                        _ => {},
                    }
                    done = true;
                }
                k += 1;
            }
            cur.deprecated = Some(Deprecation::Deprecated(reason));
        }
        proof {
            assert(s_parse_field_directives_from(cur, dirs@.skip(i as int + 1)).0 == total.0);
            assert(emitted + s_parse_field_directives_from(cur, dirs@.skip(i as int + 1)).1
                =~= total.1);
        }
        i += 1;
    }
    proof {
        assert(dirs@.skip(dirs@.len() as int).len() == 0);
        assert(emitted =~= total.1);
        assert(errs@ =~= old(errs)@ + total.1);
    }
    cur
}


/// Which grammar argument a declared name stands for, if any.
pub open spec fn s_known_arg(n: Seq<char>) -> Option<DirectiveArgName> {
    if n == "ownership"@ {
        Some(DirectiveArgName::Ownership)
    } else if n == "infallible"@ {
        Some(DirectiveArgName::Infallible)
    } else if n == "with_time_zone"@ {
        Some(DirectiveArgName::WithTimeZone)
    } else if n == "async"@ {
        Some(DirectiveArgName::Async)
    } else if n == "stream_item_infallible"@ {
        Some(DirectiveArgName::StreamItemInfallible)
    } else if n == "stream_type"@ {
        Some(DirectiveArgName::StreamType)
    } else {
        None
    }
}

/// The type each grammar argument must be declared with.
pub open spec fn s_expected_type_name(a: DirectiveArgName) -> Seq<char> {
    match a {
        DirectiveArgName::Ownership => "String"@,
        DirectiveArgName::StreamType => "String"@,
        _ => "Boolean"@,
    }
}

/// Whether a declared default is the one the grammar fixes for this
/// argument.
pub open spec fn s_default_matches(a: DirectiveArgName, v: Value) -> bool {
    match a {
        DirectiveArgName::Ownership => v matches Value::Str(s) && s@ == "borrowed"@,
        DirectiveArgName::Infallible => v matches Value::Boolean(b) && b == false,
        DirectiveArgName::WithTimeZone => v matches Value::Boolean(b) && b == true,
        DirectiveArgName::Async => v matches Value::Boolean(b) && b == false,
        DirectiveArgName::StreamItemInfallible => v matches Value::Boolean(b) && b == true,
        DirectiveArgName::StreamType => v is Null,
    }
}

/// The diagnostics of the location list: every location outside the fixed
/// required set is one error.
pub open spec fn s_location_errors(pos: Pos, locs: Seq<DirectiveLocation>) -> Seq<Error>
    decreases locs.len(),
{
    if locs.len() == 0 {
        Seq::empty()
    } else {
        (match locs[0] {
            DirectiveLocation::FieldDefinition => Seq::empty(),
            DirectiveLocation::Scalar => Seq::empty(),
            other => seq![
                Error {
                    pos,
                    kind: ErrorKind::InvalidJuniperDirective(DirectiveIssue::InvalidLocation(other)),
                },
            ],
        }) + s_location_errors(pos, locs.drop_first())
    }
}

/// The diagnostics for required locations the definition omits.
pub open spec fn s_missing_location_errors(pos: Pos, locs: Seq<DirectiveLocation>) -> Seq<Error> {
    (if !locs.contains(DirectiveLocation::FieldDefinition) {
        seq![
            Error {
                pos,
                kind: ErrorKind::InvalidJuniperDirective(
                    DirectiveIssue::MissingFieldDefinitionLocation,
                ),
            },
        ]
    } else {
        Seq::empty()
    }) + (if !locs.contains(DirectiveLocation::Scalar) {
        seq![
            Error {
                pos,
                kind: ErrorKind::InvalidJuniperDirective(DirectiveIssue::MissingScalarLocation),
            },
        ]
    } else {
        Seq::empty()
    })
}

/// One error per directive that a declared argument itself carries.
pub open spec fn s_arg_directive_errors(a: DirectiveArgName, dirs: Seq<DirectiveUse>) -> Seq<
    Error,
> {
    Seq::new(
        dirs.len(),
        |i: int|
            Error {
                pos: dirs[i].position,
                kind: ErrorKind::InvalidJuniperDirective(DirectiveIssue::ArgWithDirectives(a)),
            },
    )
}

/// The type diagnostic of one declared argument.
pub open spec fn s_arg_type_error(arg: InputValueDef, a: DirectiveArgName) -> Seq<Error> {
    if arg.value_type matches SchemaTypeRef::Named(n) && n@ == s_expected_type_name(a) {
        Seq::empty()
    } else {
        seq![
            Error {
                pos: arg.position,
                kind: ErrorKind::InvalidJuniperDirective(DirectiveIssue::ArgWrongType(a)),
            },
        ]
    }
}

/// The default-value diagnostic of one declared argument: the default must
/// be present and must be the fixed one.
pub open spec fn s_arg_default_error(arg: InputValueDef, a: DirectiveArgName) -> Seq<Error> {
    match arg.default_value {
        None => seq![
            Error {
                pos: arg.position,
                kind: ErrorKind::InvalidJuniperDirective(DirectiveIssue::ArgMissingDefault(a)),
            },
        ],
        Some(v) => {
            if s_default_matches(a, v) {
                Seq::empty()
            } else {
                seq![
                    Error {
                        pos: arg.position,
                        kind: ErrorKind::InvalidJuniperDirective(DirectiveIssue::ArgWrongDefault(a)),
                    },
                ]
            }
        },
    }
}

/// All diagnostics of one declared argument.
pub open spec fn s_arg_errors(arg: InputValueDef) -> Seq<Error> {
    match s_known_arg(arg.name@) {
        None => seq![
            Error {
                pos: arg.position,
                kind: ErrorKind::InvalidJuniperDirective(DirectiveIssue::UnknownArg(arg.name)),
            },
        ],
        Some(a) => s_arg_type_error(arg, a) + s_arg_directive_errors(a, arg.directives@)
            + s_arg_default_error(arg, a),
    }
}

/// All diagnostics of the declared argument list, in order.
pub open spec fn s_args_errors(args: Seq<InputValueDef>) -> Seq<Error>
    decreases args.len(),
{
    if args.len() == 0 {
        Seq::empty()
    } else {
        s_arg_errors(args[0]) + s_args_errors(args.drop_first())
    }
}

/// Whether the definition declares this grammar argument.
pub open spec fn s_arg_present(args: Seq<InputValueDef>, a: DirectiveArgName) -> bool
    decreases args.len(),
{
    if args.len() == 0 {
        false
    } else {
        s_arg_present(args.drop_last(), a) || s_known_arg(args.last().name@) == Some(a)
    }
}

/// One diagnostic naming each required argument the definition omits.
pub open spec fn s_missing_arg_error(
    pos: Pos,
    args: Seq<InputValueDef>,
    a: DirectiveArgName,
) -> Seq<Error> {
    if !s_arg_present(args, a) {
        seq![
            Error { pos, kind: ErrorKind::InvalidJuniperDirective(DirectiveIssue::MissingArg(a)) },
        ]
    } else {
        Seq::empty()
    }
}

/// The diagnostics for required arguments the definition omits, in the
/// grammar's order.
pub open spec fn s_missing_arg_errors(pos: Pos, args: Seq<InputValueDef>) -> Seq<Error> {
    s_missing_arg_error(pos, args, DirectiveArgName::Ownership) + s_missing_arg_error(
        pos,
        args,
        DirectiveArgName::Infallible,
    ) + s_missing_arg_error(pos, args, DirectiveArgName::WithTimeZone) + s_missing_arg_error(
        pos,
        args,
        DirectiveArgName::Async,
    ) + s_missing_arg_error(pos, args, DirectiveArgName::StreamItemInfallible)
        + s_missing_arg_error(pos, args, DirectiveArgName::StreamType)
}

/// Everything wrong with a `@juniper` directive definition: its location
/// set must be exactly the required one, and each required argument must
/// be declared with the fixed type and default.
pub open spec fn s_validate_juniper_directive_definition(d: DirectiveDefinition) -> Seq<Error> {
    s_location_errors(d.position, d.locations@) + s_missing_location_errors(d.position, d.locations@)
        + s_args_errors(d.arguments@) + s_missing_arg_errors(d.position, d.arguments@)
}

/// Checks the location list of the definition: every named location must
/// be in the required set, and both required locations must be named.
fn check_directive_locations(d: &DirectiveDefinition, errs: &mut Vec<Error>)
    ensures
        final(errs)@ == old(errs)@ + s_location_errors(d.position, d.locations@)
            + s_missing_location_errors(d.position, d.locations@),
{
    let ghost mut emitted: Seq<Error> = Seq::empty();
    let ghost loc_total = s_location_errors(d.position, d.locations@);
    let mut field_location_present = false;
    let mut scalar_location_present = false;
    let mut i: usize = 0;
    proof {
        assert(d.locations@.skip(0) =~= d.locations@);
        assert(errs@ =~= old(errs)@ + emitted);
    }
    while i < d.locations.len()
        invariant
            i <= d.locations.len(),
            errs@ == old(errs)@ + emitted,
            emitted + s_location_errors(d.position, d.locations@.skip(i as int)) == loc_total,
            field_location_present == d.locations@.take(i as int).contains(
                DirectiveLocation::FieldDefinition,
            ),
            scalar_location_present == d.locations@.take(i as int).contains(
                DirectiveLocation::Scalar,
            ),
        decreases d.locations.len() - i,
    {
        proof {
            assert(d.locations@.skip(i as int).drop_first() =~= d.locations@.skip(i as int + 1));
            assert(d.locations@.skip(i as int)[0] == d.locations@[i as int]);
        }
        let loc = d.locations[i];
        match loc {
            DirectiveLocation::FieldDefinition => {
                field_location_present = true;
            },
            DirectiveLocation::Scalar => {
                scalar_location_present = true;
            },
            other => {
                errs.push(
                    Error {
                        pos: d.position,
                        kind: ErrorKind::InvalidJuniperDirective(
                            DirectiveIssue::InvalidLocation(other),
                        ),
                    },
                );
                proof {
                    emitted = emitted + seq![
                        Error {
                            pos: d.position,
                            kind: ErrorKind::InvalidJuniperDirective(
                                DirectiveIssue::InvalidLocation(d.locations@[i as int]),
                            ),
                        },
                    ];
                    assert(errs@ =~= old(errs)@ + emitted);
                    assert(emitted + s_location_errors(
                        d.position,
                        d.locations@.skip(i as int + 1),
                    ) =~= loc_total);
                }
            },
        }
        proof {
            assert(d.locations@.take(i as int + 1).drop_last() =~= d.locations@.take(i as int));
            if field_location_present != d.locations@.take(i as int + 1).contains(
                DirectiveLocation::FieldDefinition,
            ) {
                assert(d.locations@.take(i as int + 1).last() == d.locations@[i as int]);
                assert(false);
            }
            if scalar_location_present != d.locations@.take(i as int + 1).contains(
                DirectiveLocation::Scalar,
            ) {
                assert(d.locations@.take(i as int + 1).last() == d.locations@[i as int]);
                assert(false);
            }
        }
        i += 1;
    }
    proof {
        assert(d.locations@.take(d.locations@.len() as int) =~= d.locations@);
        assert(emitted =~= loc_total);
    }
    if !field_location_present {
        errs.push(
            Error {
                pos: d.position,
                kind: ErrorKind::InvalidJuniperDirective(
                    DirectiveIssue::MissingFieldDefinitionLocation,
                ),
            },
        );
    }
    if !scalar_location_present {
        errs.push(
            Error {
                pos: d.position,
                kind: ErrorKind::InvalidJuniperDirective(DirectiveIssue::MissingScalarLocation),
            },
        );
    }
    proof {
        assert(errs@ =~= old(errs)@ + s_location_errors(d.position, d.locations@)
            + s_missing_location_errors(d.position, d.locations@));
    }
}

/// Which grammar argument a declared name stands for.
fn known_arg_of(name: &String) -> (r: Option<DirectiveArgName>)
    ensures
        r == s_known_arg(name@),
{
    if str_eq(name.as_str(), "ownership") {
        Some(DirectiveArgName::Ownership)
    } else if str_eq(name.as_str(), "infallible") {
        Some(DirectiveArgName::Infallible)
    } else if str_eq(name.as_str(), "with_time_zone") {
        Some(DirectiveArgName::WithTimeZone)
    } else if str_eq(name.as_str(), "async") {
        Some(DirectiveArgName::Async)
    } else if str_eq(name.as_str(), "stream_item_infallible") {
        Some(DirectiveArgName::StreamItemInfallible)
    } else if str_eq(name.as_str(), "stream_type") {
        Some(DirectiveArgName::StreamType)
    } else {
        None
    }
}

/// Checks one declared argument of the definition: its name, type,
/// attached directives, and declared default.
fn check_directive_argument(arg: &InputValueDef, errs: &mut Vec<Error>) -> (r: Option<
    DirectiveArgName,
>)
    ensures
        final(errs)@ == old(errs)@ + s_arg_errors(*arg),
        r == s_known_arg(arg.name@),
{
    let known = known_arg_of(&arg.name);
    let a = match known {
        None => {
            errs.push(
                Error {
                    pos: arg.position,
                    kind: ErrorKind::InvalidJuniperDirective(
                        DirectiveIssue::UnknownArg(arg.name.clone()),
                    ),
                },
            );
            return None;
        },
        Some(a) => a,
    };
    let type_ok = match &arg.value_type {
        SchemaTypeRef::Named(n) => {
            let expected: &str = match a {
                DirectiveArgName::Ownership => "String",
                DirectiveArgName::StreamType => "String",
                _ => "Boolean",
            };
            str_eq(n.as_str(), expected)
        },
        _ => false,
    };
    if !type_ok {
        errs.push(
            Error {
                pos: arg.position,
                kind: ErrorKind::InvalidJuniperDirective(DirectiveIssue::ArgWrongType(a)),
            },
        );
    }
    let ghost after_type = errs@;
    let mut j: usize = 0;
    while j < arg.directives.len()
        invariant
            j <= arg.directives.len(),
            errs@ == after_type + s_arg_directive_errors(a, arg.directives@).take(j as int),
        decreases arg.directives.len() - j,
    {
        errs.push(
            Error {
                pos: arg.directives[j].position,
                kind: ErrorKind::InvalidJuniperDirective(DirectiveIssue::ArgWithDirectives(a)),
            },
        );
        proof {
            assert(errs@ =~= after_type + s_arg_directive_errors(a, arg.directives@).take(
                j as int + 1,
            ));
        }
        j += 1;
    }
    proof {
        assert(s_arg_directive_errors(a, arg.directives@).take(arg.directives@.len() as int)
            =~= s_arg_directive_errors(a, arg.directives@));
    }
    match &arg.default_value {
        None => {
            errs.push(
                Error {
                    pos: arg.position,
                    kind: ErrorKind::InvalidJuniperDirective(DirectiveIssue::ArgMissingDefault(a)),
                },
            );
        },
        Some(v) => {
            let matches_default = match a {
                DirectiveArgName::Ownership => match v {
                    Value::Str(s) => str_eq(s.as_str(), "borrowed"),
                    _ => false,
                },
                DirectiveArgName::Infallible => match v {
                    Value::Boolean(b) => !*b,
                    _ => false,
                },
                DirectiveArgName::WithTimeZone => match v {
                    Value::Boolean(b) => *b,
                    _ => false,
                },
                DirectiveArgName::Async => match v {
                    Value::Boolean(b) => !*b,
                    _ => false,
                },
                DirectiveArgName::StreamItemInfallible => match v {
                    Value::Boolean(b) => *b,
                    _ => false,
                },
                DirectiveArgName::StreamType => match v {
                    Value::Null => true,
                    _ => false,
                },
            };
            if !matches_default {
                errs.push(
                    Error {
                        pos: arg.position,
                        kind: ErrorKind::InvalidJuniperDirective(
                            DirectiveIssue::ArgWrongDefault(a),
                        ),
                    },
                );
            }
        },
    }
    proof {
        assert(errs@ =~= old(errs)@ + s_arg_errors(*arg));
    }
    Some(a)
}

/// Checks the declared argument list and reports the required arguments
/// that are missing.
#[verifier::rlimit(100)]
#[verifier::spinoff_prover]
fn check_directive_arguments(d: &DirectiveDefinition, errs: &mut Vec<Error>)
    ensures
        final(errs)@ == old(errs)@ + s_args_errors(d.arguments@) + s_missing_arg_errors(
            d.position,
            d.arguments@,
        ),
{
    let ghost args_total = s_args_errors(d.arguments@);
    let ghost mut args_emitted: Seq<Error> = Seq::empty();
    let mut ownership_present = false;
    let mut infallible_present = false;
    let mut with_time_zone_present = false;
    let mut async_present = false;
    let mut stream_item_infallible_present = false;
    let mut stream_type_present = false;
    let mut k: usize = 0;
    proof {
        assert(d.arguments@.skip(0) =~= d.arguments@);
        assert(errs@ =~= old(errs)@ + args_emitted);
    }
    while k < d.arguments.len()
        invariant
            k <= d.arguments.len(),
            errs@ == old(errs)@ + args_emitted,
            args_emitted + s_args_errors(d.arguments@.skip(k as int)) == args_total,
            ownership_present == s_arg_present(
                d.arguments@.take(k as int),
                DirectiveArgName::Ownership,
            ),
            infallible_present == s_arg_present(
                d.arguments@.take(k as int),
                DirectiveArgName::Infallible,
            ),
            with_time_zone_present == s_arg_present(
                d.arguments@.take(k as int),
                DirectiveArgName::WithTimeZone,
            ),
            async_present == s_arg_present(d.arguments@.take(k as int), DirectiveArgName::Async),
            stream_item_infallible_present == s_arg_present(
                d.arguments@.take(k as int),
                DirectiveArgName::StreamItemInfallible,
            ),
            stream_type_present == s_arg_present(
                d.arguments@.take(k as int),
                DirectiveArgName::StreamType,
            ),
        decreases d.arguments.len() - k,
    {
        proof {
            assert(d.arguments@.skip(k as int).drop_first() =~= d.arguments@.skip(k as int + 1));
            assert(d.arguments@.skip(k as int)[0] == d.arguments@[k as int]);
            assert(d.arguments@.take(k as int + 1).drop_last() =~= d.arguments@.take(k as int));
            assert(d.arguments@.take(k as int + 1).last() == d.arguments@[k as int]);
        }
        let known = check_directive_argument(&d.arguments[k], errs);
        match known {
            Some(DirectiveArgName::Ownership) => {
                ownership_present = true;
            },
            Some(DirectiveArgName::Infallible) => {
                infallible_present = true;
            },
            Some(DirectiveArgName::WithTimeZone) => {
                with_time_zone_present = true;
            },
            Some(DirectiveArgName::Async) => {
                async_present = true;
            },
            Some(DirectiveArgName::StreamItemInfallible) => {
                stream_item_infallible_present = true;
            },
            Some(DirectiveArgName::StreamType) => {
                stream_type_present = true;
            },
            None => {},
        }
        proof {
            args_emitted = args_emitted + s_arg_errors(d.arguments@[k as int]);
            assert(errs@ =~= old(errs)@ + args_emitted);
            assert(args_emitted + s_args_errors(d.arguments@.skip(k as int + 1)) =~= args_total);
        }
        k += 1;
    }
    proof {
        assert(d.arguments@.take(d.arguments@.len() as int) =~= d.arguments@);
        assert(args_emitted =~= args_total);
    }
    if !ownership_present {
        errs.push(
            Error {
                pos: d.position,
                kind: ErrorKind::InvalidJuniperDirective(
                    DirectiveIssue::MissingArg(DirectiveArgName::Ownership),
                ),
            },
        );
    }
    if !infallible_present {
        errs.push(
            Error {
                pos: d.position,
                kind: ErrorKind::InvalidJuniperDirective(
                    DirectiveIssue::MissingArg(DirectiveArgName::Infallible),
                ),
            },
        );
    }
    if !with_time_zone_present {
        errs.push(
            Error {
                pos: d.position,
                kind: ErrorKind::InvalidJuniperDirective(
                    DirectiveIssue::MissingArg(DirectiveArgName::WithTimeZone),
                ),
            },
        );
    }
    if !async_present {
        errs.push(
            Error {
                pos: d.position,
                kind: ErrorKind::InvalidJuniperDirective(
                    DirectiveIssue::MissingArg(DirectiveArgName::Async),
                ),
            },
        );
    }
    if !stream_item_infallible_present {
        errs.push(
            Error {
                pos: d.position,
                kind: ErrorKind::InvalidJuniperDirective(
                    DirectiveIssue::MissingArg(DirectiveArgName::StreamItemInfallible),
                ),
            },
        );
    }
    if !stream_type_present {
        errs.push(
            Error {
                pos: d.position,
                kind: ErrorKind::InvalidJuniperDirective(
                    DirectiveIssue::MissingArg(DirectiveArgName::StreamType),
                ),
            },
        );
    }
    proof {
        assert(errs@ =~= old(errs)@ + s_args_errors(d.arguments@) + s_missing_arg_errors(
            d.position,
            d.arguments@,
        ));
    }
}

/// Validates the `@juniper` directive definition itself against the fixed
/// grammar.
pub fn validate_juniper_directive_definition(d: &DirectiveDefinition, errs: &mut Vec<Error>)
    requires
        d.name@ == "juniper"@,
    ensures
        final(errs)@ == old(errs)@ + s_validate_juniper_directive_definition(*d),
{
    check_directive_locations(d, errs);
    check_directive_arguments(d, errs);
    proof {
        assert(errs@ =~= old(errs)@ + s_validate_juniper_directive_definition(*d));
    }
}

/// The usage rules a field location imposes on its parsed directives:
/// stream directives belong to subscription fields alone, a subscription
/// field must own its result, and a given stream return type must parse as
/// a type expression.
pub open spec fn s_validate_directive_for_field(
    d: FieldDirectives,
    loc: FieldLocation,
    pos: Pos,
) -> Seq<Error> {
    match loc {
        FieldLocation::Subscription => (match d.ownership {
            Ownership::Owned => Seq::empty(),
            _ => seq![Error { pos, kind: ErrorKind::SubscriptionFieldMustBeOwned }],
        }) + (match d.stream_type {
            Some(ty) => {
                if parses_as_type(ty@) {
                    Seq::empty()
                } else {
                    seq![Error { pos, kind: ErrorKind::InvalidStreamReturnType }]
                }
            },
            None => Seq::empty(),
        }),
        _ => (if d.stream_type is Some {
            seq![Error { pos, kind: ErrorKind::StreamTypeNotSupportedHere }]
        } else {
            Seq::empty()
        }) + (if d.stream_item_infallible is Some {
            seq![Error { pos, kind: ErrorKind::StreamItemInfallibleNotSupportedHere }]
        } else {
            Seq::empty()
        }),
    }
}

/// Checks a field's parsed directives against its location.
pub fn validate_directive_for_field(
    directives: &FieldDirectives,
    field_location: FieldLocation,
    pos: Pos,
    errs: &mut Vec<Error>,
)
    ensures
        final(errs)@ == old(errs)@ + s_validate_directive_for_field(
            *directives,
            field_location,
            pos,
        ),
{
    match field_location {
        FieldLocation::Subscription => {
            match &directives.ownership {
                Ownership::Owned => {},
                _ => {
                    errs.push(Error { pos, kind: ErrorKind::SubscriptionFieldMustBeOwned });
                },
            }
            match &directives.stream_type {
                Some(ty) => {
                    if !type_text_parses(ty.as_str()) {
                        errs.push(Error { pos, kind: ErrorKind::InvalidStreamReturnType });
                    }
                },
                None => {},
            }
        },
        _ => {
            if directives.stream_type.is_some() {
                errs.push(Error { pos, kind: ErrorKind::StreamTypeNotSupportedHere });
            }
            if directives.stream_item_infallible.is_some() {
                errs.push(Error { pos, kind: ErrorKind::StreamItemInfallibleNotSupportedHere });
            }
        },
    }
    proof {
        assert(errs@ =~= old(errs)@ + s_validate_directive_for_field(
            *directives,
            field_location,
            pos,
        ));
    }
}


/// One named argument of a `@juniper` usage on a scalar declaration:
/// only `with_time_zone` is accepted there, with a boolean value.
pub open spec fn s_scalar_arg_error(pos: Pos, name: String, value: Value) -> Seq<Error> {
    if name@ == "with_time_zone"@ {
        match value {
            Value::Boolean(_) => Seq::empty(),
            _ => seq![
                Error {
                    pos,
                    kind: ErrorKind::InvalidArgumentValue(DirectiveArgName::WithTimeZone),
                },
            ],
        }
    } else {
        seq![Error { pos, kind: ErrorKind::UnknownDirectiveArgument(name) }]
    }
}

/// All arguments of one `@juniper` usage at a scalar location.
pub open spec fn s_scalar_args_errors(pos: Pos, args: Seq<(String, Value)>) -> Seq<Error>
    decreases args.len(),
{
    if args.len() == 0 {
        Seq::empty()
    } else {
        s_scalar_arg_error(pos, args[0].0, args[0].1) + s_scalar_args_errors(
            pos,
            args.drop_first(),
        )
    }
}

/// The diagnostics of one directive usage on a scalar declaration.
pub open spec fn s_scalar_directive_errors(d: DirectiveUse) -> Seq<Error> {
    if d.name@ == "juniper"@ {
        s_scalar_args_errors(d.position, d.arguments@)
    } else {
        Seq::empty()
    }
}

/// The diagnostics of a scalar declaration's whole directive list.
pub open spec fn s_scalar_usage_errors(dirs: Seq<DirectiveUse>) -> Seq<Error>
    decreases dirs.len(),
{
    if dirs.len() == 0 {
        Seq::empty()
    } else {
        s_scalar_directive_errors(dirs[0]) + s_scalar_usage_errors(dirs.drop_first())
    }
}

/// Checks the directives of a scalar declaration.
pub fn parse_scalar_directives(dirs: &Vec<DirectiveUse>, errs: &mut Vec<Error>)
    ensures
        final(errs)@ == old(errs)@ + s_scalar_usage_errors(dirs@),
{
    let ghost mut emitted: Seq<Error> = Seq::empty();
    let ghost total = s_scalar_usage_errors(dirs@);
    let mut i: usize = 0;
    proof {
        assert(dirs@.skip(0) =~= dirs@);
        assert(errs@ =~= old(errs)@ + emitted);
    }
    while i < dirs.len()
        invariant
            i <= dirs.len(),
            errs@ == old(errs)@ + emitted,
            emitted + s_scalar_usage_errors(dirs@.skip(i as int)) == total,
        decreases dirs.len() - i,
    {
        proof {
            assert(dirs@.skip(i as int).drop_first() =~= dirs@.skip(i as int + 1));
            assert(dirs@.skip(i as int)[0] == dirs@[i as int]);
        }
        let d = &dirs[i];
        if str_eq(d.name.as_str(), "juniper") {
            let ghost inner_total = s_scalar_args_errors(d.position, d.arguments@);
            let ghost mut inner_emitted: Seq<Error> = Seq::empty();
            let mut k: usize = 0;
            proof {
                assert(d.arguments@.skip(0) =~= d.arguments@);
            }
            while k < d.arguments.len()
                invariant
                    k <= d.arguments.len(),
                    *d == dirs@[i as int],
                    errs@ == old(errs)@ + emitted + inner_emitted,
                    inner_emitted + s_scalar_args_errors(
                        d.position,
                        d.arguments@.skip(k as int),
                    ) == inner_total,
                decreases d.arguments.len() - k,
            {
                proof {
                    assert(d.arguments@.skip(k as int).drop_first() =~= d.arguments@.skip(
                        k as int + 1,
                    ));
                    assert(d.arguments@.skip(k as int)[0] == d.arguments@[k as int]);
                }
                let arg_name = &d.arguments[k].0;
                let arg_value = &d.arguments[k].1;
                if str_eq(arg_name.as_str(), "with_time_zone") {
                    match arg_value {
                        Value::Boolean(_) => {},
                        _ => {
                            errs.push(
                                Error {
                                    pos: d.position,
                                    kind: ErrorKind::InvalidArgumentValue(
                                        DirectiveArgName::WithTimeZone,
                                    ),
                                },
                            );
                        },
                    }
                } else {
                    errs.push(
                        Error {
                            pos: d.position,
                            kind: ErrorKind::UnknownDirectiveArgument(arg_name.clone()),
                        },
                    );
                }
                proof {
                    inner_emitted = inner_emitted + s_scalar_arg_error(
                        d.position,
                        d.arguments@[k as int].0,
                        d.arguments@[k as int].1,
                    );
                    assert(errs@ =~= old(errs)@ + emitted + inner_emitted);
                    assert(inner_emitted + s_scalar_args_errors(
                        d.position,
                        d.arguments@.skip(k as int + 1),
                    ) =~= inner_total);
                }
                k += 1;
            }
            proof {
                emitted = emitted + inner_emitted;
                assert(errs@ =~= old(errs)@ + emitted);
                assert(emitted + s_scalar_usage_errors(dirs@.skip(i as int + 1)) =~= total);
            }
        } else {
            proof {
                assert(emitted + s_scalar_usage_errors(dirs@.skip(i as int + 1)) =~= total);
            }
        }
        i += 1;
    }
    proof {
        assert(emitted =~= total);
    }
}

/// What an enum value's directive list says about deprecation, applied
/// left to right.
pub open spec fn s_parse_deprecation_from(cur: Deprecation, dirs: Seq<DirectiveUse>) -> Deprecation
    decreases dirs.len(),
{
    if dirs.len() == 0 {
        cur
    } else {
        let next = if dirs[0].name@ == "deprecated"@ {
            Deprecation::Deprecated(s_deprecation_reason(dirs[0].arguments@))
        } else {
            cur
        };
        s_parse_deprecation_from(next, dirs.drop_first())
    }
}

/// What an enum value's directive list says about deprecation.
pub open spec fn s_parse_deprecation(dirs: Seq<DirectiveUse>) -> Deprecation {
    s_parse_deprecation_from(Deprecation::NoDeprecation, dirs)
}

/// Parses an enum value's directives into its deprecation record.
pub fn parse_enum_value_directives(dirs: &Vec<DirectiveUse>) -> (r: Deprecation)
    ensures
        r == s_parse_deprecation(dirs@),
{
    let mut cur = Deprecation::NoDeprecation;
    let mut i: usize = 0;
    proof {
        assert(dirs@.skip(0) =~= dirs@);
    }
    while i < dirs.len()
        invariant
            i <= dirs.len(),
            s_parse_deprecation_from(cur, dirs@.skip(i as int)) == s_parse_deprecation(dirs@),
        decreases dirs.len() - i,
    {
        proof {
            assert(dirs@.skip(i as int).drop_first() =~= dirs@.skip(i as int + 1));
            assert(dirs@.skip(i as int)[0] == dirs@[i as int]);
        }
        let d = &dirs[i];
        if str_eq(d.name.as_str(), "deprecated") {
            let mut reason: Option<String> = None;
            let mut k: usize = 0;
            let mut done = false;
            proof {
                assert(d.arguments@.skip(0) =~= d.arguments@);
            }
            while k < d.arguments.len() && !done
                invariant
                    k <= d.arguments.len(),
                    *d == dirs@[i as int],
                    if done {
                        reason == s_deprecation_reason(d.arguments@)
                    } else {
                        reason is None && s_deprecation_reason(d.arguments@.skip(k as int))
                            == s_deprecation_reason(d.arguments@)
                    },
                decreases d.arguments.len() - k,
            {
                proof {
                    assert(d.arguments@.skip(k as int).drop_first() =~= d.arguments@.skip(
                        k as int + 1,
                    ));
                    assert(d.arguments@.skip(k as int)[0] == d.arguments@[k as int]);
                }
                if str_eq(d.arguments[k].0.as_str(), "reason") {
                    match &d.arguments[k].1 {
                        Value::Str(rs) => {
                            reason = Some(rs.clone());
                        },
                        _ => {},
                    }
                    done = true;
                }
                k += 1;
            }
            cur = Deprecation::Deprecated(reason);
        }
        i += 1;
    }
    cur
}

/// A directive definition that omits a required argument is always
/// diagnosed with an error naming exactly that argument.
pub proof fn lemma_missing_argument_is_reported(d: DirectiveDefinition, a: DirectiveArgName)
    requires
        !s_arg_present(d.arguments@, a),
    ensures
        s_validate_juniper_directive_definition(d).contains(
            Error {
                pos: d.position,
                kind: ErrorKind::InvalidJuniperDirective(DirectiveIssue::MissingArg(a)),
            },
        ),
{
    let e = Error {
        pos: d.position,
        kind: ErrorKind::InvalidJuniperDirective(DirectiveIssue::MissingArg(a)),
    };
    let pos = d.position;
    let args = d.arguments@;
    let m1 = s_missing_arg_error(pos, args, DirectiveArgName::Ownership);
    let m2 = s_missing_arg_error(pos, args, DirectiveArgName::Infallible);
    let m3 = s_missing_arg_error(pos, args, DirectiveArgName::WithTimeZone);
    let m4 = s_missing_arg_error(pos, args, DirectiveArgName::Async);
    let m5 = s_missing_arg_error(pos, args, DirectiveArgName::StreamItemInfallible);
    let m6 = s_missing_arg_error(pos, args, DirectiveArgName::StreamType);
    let tail = s_missing_arg_errors(pos, args);
    match a {
        DirectiveArgName::Ownership => {
            assert(tail[0] == e);
        },
        DirectiveArgName::Infallible => {
            assert(tail[m1.len() as int] == e);
        },
        DirectiveArgName::WithTimeZone => {
            assert(tail[(m1.len() + m2.len()) as int] == e);
        },
        DirectiveArgName::Async => {
            assert(tail[(m1.len() + m2.len() + m3.len()) as int] == e);
        },
        DirectiveArgName::StreamItemInfallible => {
            assert(tail[(m1.len() + m2.len() + m3.len() + m4.len()) as int] == e);
        },
        DirectiveArgName::StreamType => {
            assert(tail[(m1.len() + m2.len() + m3.len() + m4.len() + m5.len()) as int] == e);
        },
    }
    let whole = s_validate_juniper_directive_definition(d);
    let prefix_len = s_location_errors(pos, d.locations@).len() + s_missing_location_errors(
        pos,
        d.locations@,
    ).len() + s_args_errors(args).len();
    let j = choose|j: int| 0 <= j < tail.len() && tail[j] == e;
    assert(whole[prefix_len as int + j] == e);
}

/// The location list of a definition that names only required locations
/// draws no diagnostics.
proof fn lemma_location_errors_empty(pos: Pos, locs: Seq<DirectiveLocation>)
    requires
        forall|i: int|
            0 <= i < locs.len() ==> (locs[i] == DirectiveLocation::FieldDefinition || locs[i]
                == DirectiveLocation::Scalar),
    ensures
        s_location_errors(pos, locs).len() == 0,
    decreases locs.len(),
{
    if locs.len() > 0 {
        assert(forall|i: int|
            0 <= i < locs.drop_first().len() ==> locs.drop_first()[i] == locs[i + 1]);
        lemma_location_errors_empty(pos, locs.drop_first());
    }
}

/// An argument list whose every entry draws no diagnostics draws none as a
/// whole.
proof fn lemma_args_errors_empty(args: Seq<InputValueDef>)
    requires
        forall|i: int| 0 <= i < args.len() ==> s_arg_errors(#[trigger] args[i]).len() == 0,
    ensures
        s_args_errors(args).len() == 0,
    decreases args.len(),
{
    if args.len() > 0 {
        assert(forall|i: int|
            0 <= i < args.drop_first().len() ==> args.drop_first()[i] == args[i + 1]);
        lemma_args_errors_empty(args.drop_first());
    }
}

/// A definition whose location set is exactly the required one and whose
/// six arguments are each declared with the fixed type and default — and
/// nothing else — is accepted without diagnostics.
pub proof fn lemma_well_formed_definition_accepted(d: DirectiveDefinition)
    requires
        forall|i: int|
            0 <= i < d.locations@.len() ==> (d.locations@[i] == DirectiveLocation::FieldDefinition
                || d.locations@[i] == DirectiveLocation::Scalar),
        d.locations@.contains(DirectiveLocation::FieldDefinition),
        d.locations@.contains(DirectiveLocation::Scalar),
        forall|i: int|
            0 <= i < d.arguments@.len() ==> s_known_arg(#[trigger] d.arguments@[i].name@) is Some,
        forall|i: int|
            0 <= i < d.arguments@.len() ==> ((#[trigger] d.arguments@[i].value_type) matches
                SchemaTypeRef::Named(n) && n@ == s_expected_type_name(
                s_known_arg(d.arguments@[i].name@).unwrap(),
            )),
        forall|i: int| 0 <= i < d.arguments@.len() ==> (#[trigger] d.arguments@[i]).directives@.len()
            == 0,
        forall|i: int|
            0 <= i < d.arguments@.len() ==> ((#[trigger] d.arguments@[i]).default_value matches
                Some(v) && s_default_matches(s_known_arg(d.arguments@[i].name@).unwrap(), v)),
        s_arg_present(d.arguments@, DirectiveArgName::Ownership),
        s_arg_present(d.arguments@, DirectiveArgName::Infallible),
        s_arg_present(d.arguments@, DirectiveArgName::WithTimeZone),
        s_arg_present(d.arguments@, DirectiveArgName::Async),
        s_arg_present(d.arguments@, DirectiveArgName::StreamItemInfallible),
        s_arg_present(d.arguments@, DirectiveArgName::StreamType),
    ensures
        s_validate_juniper_directive_definition(d).len() == 0,
{
    lemma_location_errors_empty(d.position, d.locations@);
    assert forall|i: int| 0 <= i < d.arguments@.len() implies s_arg_errors(
        #[trigger] d.arguments@[i],
    ).len() == 0 by {
        let arg = d.arguments@[i];
        let a = s_known_arg(arg.name@).unwrap();
        assert(s_arg_type_error(arg, a).len() == 0);
        assert(s_arg_directive_errors(a, arg.directives@).len() == 0);
        assert(s_arg_default_error(arg, a).len() == 0);
    }
    lemma_args_errors_empty(d.arguments@);
}

} // verus!
