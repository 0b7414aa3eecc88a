//! Diagnostics: source positions, the closed set of error kinds, and the
//! ordered, deduplicated error collection that the compiler reports.
//!
//! Errors are accumulated in visitation order and frozen at checkpoints into
//! a collection sorted by source position and then by kind, with exact
//! duplicates removed, so that repeated runs on the same input report the
//! same diagnostics in the same order.

use vstd::prelude::*;

verus! {

/// A position in the source document (line, then column), as the external
/// parser reports it.
#[derive(Clone, Copy, PartialEq, Eq, Structural, Debug)]
pub struct Pos {
    pub line: usize,
    pub column: usize,
}

/// The named arguments of the `@juniper` directive grammar.
#[derive(Clone, Copy, PartialEq, Eq, Structural, Debug)]
pub enum DirectiveArgName {
    Ownership,
    Infallible,
    WithTimeZone,
    Async,
    StreamItemInfallible,
    StreamType,
}

/// The locations a directive definition may name, as the GraphQL grammar
/// fixes them.
#[derive(Clone, Copy, PartialEq, Eq, Structural, Debug)]
pub enum DirectiveLocation {
    Query,
    Mutation,
    Subscription,
    Field,
    FragmentDefinition,
    FragmentSpread,
    InlineFragment,
    Schema,
    Scalar,
    Object,
    FieldDefinition,
    ArgumentDefinition,
    Interface,
    Union,
    Enum,
    EnumValue,
    InputObject,
    InputFieldDefinition,
    VariableDefinition,
}

/// What is wrong with a `@juniper` directive *definition* (the grammar
/// declaration itself, not a usage site).
#[derive(Debug)]
pub enum DirectiveIssue {
    /// The definition names a location outside the required set.
    InvalidLocation(DirectiveLocation),
    /// The required `FIELD_DEFINITION` location is missing.
    MissingFieldDefinitionLocation,
    /// The required `SCALAR` location is missing.
    MissingScalarLocation,
    /// A declared argument itself carries a directive, which is not supported.
    ArgWithDirectives(DirectiveArgName),
    /// A declared argument has a type other than the one the grammar fixes.
    ArgWrongType(DirectiveArgName),
    /// A declared argument carries a default other than the fixed one.
    ArgWrongDefault(DirectiveArgName),
    /// A declared argument carries no default value at all.
    ArgMissingDefault(DirectiveArgName),
    /// The definition declares an argument the grammar does not know.
    UnknownArg(String),
    /// A required argument is missing from the definition.
    MissingArg(DirectiveArgName),
}

/// Everything the compiler can complain about, each variant one diagnostic
/// category tied to a source position.
#[derive(Debug)]
pub enum ErrorKind {
    NoQueryType,
    SpecialCaseScalarWithDescription,
    CannotDeclareBuiltinAsScalar,
    SubscriptionsCannotImplementInterfaces,
    TypeExtensionNotSupported,
    InputTypeFieldWithDefaultValue,
    NonnullableFieldWithDefaultValue,
    AsRefOwnershipForNamedType,
    DateScalarNotDefined,
    DateTimeScalarNotDefined,
    UuidScalarNotDefined,
    UrlScalarNotDefined,
    VariableDefaultValue,
    StreamTypeNotSupportedHere,
    StreamItemInfallibleNotSupportedHere,
    SubscriptionFieldMustBeOwned,
    /// The text given as a stream return type does not parse as a type
    /// expression.
    InvalidStreamReturnType,
    FieldNameInSnakeCase,
    UppercaseUuidScalar,
    /// The `@juniper` directive definition itself is malformed.
    InvalidJuniperDirective(DirectiveIssue),
    /// A usage site passes an argument the directive does not accept there;
    /// the payload is the offending argument name.
    UnknownDirectiveArgument(String),
    /// A usage site passes a value of the wrong shape for this argument.
    InvalidArgumentValue(DirectiveArgName),
    /// The `ownership` argument holds a string outside the accepted set;
    /// the payload is the offending value.
    UnknownOwnership(String),
}

/// One diagnostic: a position and a kind.
#[derive(Debug)]
pub struct Error {
    pub pos: Pos,
    pub kind: ErrorKind,
}

/// Equality of directive issues, string payloads compared by contents.
pub open spec fn issue_eq(a: DirectiveIssue, b: DirectiveIssue) -> bool {
    match (a, b) {
        (DirectiveIssue::InvalidLocation(x), DirectiveIssue::InvalidLocation(y)) => x == y,
        (
            DirectiveIssue::MissingFieldDefinitionLocation,
            DirectiveIssue::MissingFieldDefinitionLocation,
        ) => true,
        (DirectiveIssue::MissingScalarLocation, DirectiveIssue::MissingScalarLocation) => true,
        (DirectiveIssue::ArgWithDirectives(x), DirectiveIssue::ArgWithDirectives(y)) => x == y,
        (DirectiveIssue::ArgWrongType(x), DirectiveIssue::ArgWrongType(y)) => x == y,
        (DirectiveIssue::ArgWrongDefault(x), DirectiveIssue::ArgWrongDefault(y)) => x == y,
        (DirectiveIssue::ArgMissingDefault(x), DirectiveIssue::ArgMissingDefault(y)) => x == y,
        (DirectiveIssue::UnknownArg(x), DirectiveIssue::UnknownArg(y)) => x@ == y@,
        (DirectiveIssue::MissingArg(x), DirectiveIssue::MissingArg(y)) => x == y,
        _ => false,
    }
}

/// Equality of error kinds, string payloads compared by contents.
pub open spec fn kind_eq(a: ErrorKind, b: ErrorKind) -> bool {
    match (a, b) {
        (ErrorKind::NoQueryType, ErrorKind::NoQueryType) => true,
        (
            ErrorKind::SpecialCaseScalarWithDescription,
            ErrorKind::SpecialCaseScalarWithDescription,
        ) => true,
        (ErrorKind::CannotDeclareBuiltinAsScalar, ErrorKind::CannotDeclareBuiltinAsScalar) => true,
        (
            ErrorKind::SubscriptionsCannotImplementInterfaces,
            ErrorKind::SubscriptionsCannotImplementInterfaces,
        ) => true,
        (ErrorKind::TypeExtensionNotSupported, ErrorKind::TypeExtensionNotSupported) => true,
        (
            ErrorKind::InputTypeFieldWithDefaultValue,
            ErrorKind::InputTypeFieldWithDefaultValue,
        ) => true,
        (
            ErrorKind::NonnullableFieldWithDefaultValue,
            ErrorKind::NonnullableFieldWithDefaultValue,
        ) => true,
        (ErrorKind::AsRefOwnershipForNamedType, ErrorKind::AsRefOwnershipForNamedType) => true,
        (ErrorKind::DateScalarNotDefined, ErrorKind::DateScalarNotDefined) => true,
        (ErrorKind::DateTimeScalarNotDefined, ErrorKind::DateTimeScalarNotDefined) => true,
        (ErrorKind::UuidScalarNotDefined, ErrorKind::UuidScalarNotDefined) => true,
        (ErrorKind::UrlScalarNotDefined, ErrorKind::UrlScalarNotDefined) => true,
        (ErrorKind::VariableDefaultValue, ErrorKind::VariableDefaultValue) => true,
        (ErrorKind::StreamTypeNotSupportedHere, ErrorKind::StreamTypeNotSupportedHere) => true,
        (
            ErrorKind::StreamItemInfallibleNotSupportedHere,
            ErrorKind::StreamItemInfallibleNotSupportedHere,
        ) => true,
        (ErrorKind::SubscriptionFieldMustBeOwned, ErrorKind::SubscriptionFieldMustBeOwned) => true,
        (ErrorKind::InvalidStreamReturnType, ErrorKind::InvalidStreamReturnType) => true,
        (ErrorKind::FieldNameInSnakeCase, ErrorKind::FieldNameInSnakeCase) => true,
        (ErrorKind::UppercaseUuidScalar, ErrorKind::UppercaseUuidScalar) => true,
        (ErrorKind::InvalidJuniperDirective(x), ErrorKind::InvalidJuniperDirective(y)) => issue_eq(
            x,
            y,
        ),
        (ErrorKind::UnknownDirectiveArgument(x), ErrorKind::UnknownDirectiveArgument(y)) => x@
            == y@,
        (ErrorKind::InvalidArgumentValue(x), ErrorKind::InvalidArgumentValue(y)) => x == y,
        (ErrorKind::UnknownOwnership(x), ErrorKind::UnknownOwnership(y)) => x@ == y@,
        _ => false,
    }
}

/// Equality of diagnostics: same position and same kind.
pub open spec fn err_eq(a: Error, b: Error) -> bool {
    a.pos == b.pos && kind_eq(a.kind, b.kind)
}

/// The rank of a kind in the report order; kinds at one position are sorted
/// by this number.
pub open spec fn kind_rank(k: ErrorKind) -> int {
    match k {
        ErrorKind::NoQueryType => 0,
        ErrorKind::SpecialCaseScalarWithDescription => 1,
        ErrorKind::CannotDeclareBuiltinAsScalar => 2,
        ErrorKind::SubscriptionsCannotImplementInterfaces => 3,
        ErrorKind::TypeExtensionNotSupported => 4,
        ErrorKind::InputTypeFieldWithDefaultValue => 5,
        ErrorKind::NonnullableFieldWithDefaultValue => 6,
        ErrorKind::AsRefOwnershipForNamedType => 7,
        ErrorKind::DateScalarNotDefined => 8,
        ErrorKind::DateTimeScalarNotDefined => 9,
        ErrorKind::UuidScalarNotDefined => 10,
        ErrorKind::UrlScalarNotDefined => 11,
        ErrorKind::VariableDefaultValue => 12,
        ErrorKind::StreamTypeNotSupportedHere => 13,
        ErrorKind::StreamItemInfallibleNotSupportedHere => 14,
        ErrorKind::SubscriptionFieldMustBeOwned => 15,
        ErrorKind::InvalidStreamReturnType => 16,
        ErrorKind::FieldNameInSnakeCase => 17,
        ErrorKind::UppercaseUuidScalar => 18,
        ErrorKind::InvalidJuniperDirective(_) => 19,
        ErrorKind::UnknownDirectiveArgument(_) => 20,
        ErrorKind::InvalidArgumentValue(_) => 21,
        ErrorKind::UnknownOwnership(_) => 22,
    }
}

/// Report order: by line, then column, then kind rank. Diagnostics that
/// compare equal here keep their accumulation order (the sort is stable).
pub open spec fn key_le(a: Error, b: Error) -> bool {
    a.pos.line < b.pos.line || (a.pos.line == b.pos.line && (a.pos.column < b.pos.column || (
    a.pos.column == b.pos.column && kind_rank(a.kind) <= kind_rank(b.kind))))
}

/// Whether the sequence already holds a diagnostic equal to `e`.
pub open spec fn s_has(s: Seq<Error>, e: Error) -> bool {
    exists|i: int| 0 <= i < s.len() && err_eq(s[i], e)
}

/// Stable sorted insertion: `e` goes after every entry whose key is less
/// than or equal to its own.
pub open spec fn s_ins(s: Seq<Error>, e: Error) -> Seq<Error>
    decreases s.len(),
{
    if s.len() == 0 {
        seq![e]
    } else if key_le(s[0], e) {
        seq![s[0]] + s_ins(s.drop_first(), e)
    } else {
        seq![e] + s
    }
}

/// Insertion with deduplication: an exact duplicate leaves the collection
/// unchanged.
pub open spec fn s_add(s: Seq<Error>, e: Error) -> Seq<Error> {
    if s_has(s, e) {
        s
    } else {
        s_ins(s, e)
    }
}

/// The frozen report of an accumulation sequence: every diagnostic inserted
/// in order, sorted and deduplicated.
pub open spec fn s_checkpoint(input: Seq<Error>) -> Seq<Error>
    decreases input.len(),
{
    if input.len() == 0 {
        Seq::empty()
    } else {
        s_add(s_checkpoint(input.drop_last()), input.last())
    }
}

impl Clone for DirectiveIssue {
    fn clone(&self) -> (res: Self)
        ensures
            res == *self,
    {
        match self {
            DirectiveIssue::InvalidLocation(x) => DirectiveIssue::InvalidLocation(*x),
            DirectiveIssue::MissingFieldDefinitionLocation => {
                DirectiveIssue::MissingFieldDefinitionLocation
            },
            DirectiveIssue::MissingScalarLocation => DirectiveIssue::MissingScalarLocation,
            DirectiveIssue::ArgWithDirectives(x) => DirectiveIssue::ArgWithDirectives(*x),
            DirectiveIssue::ArgWrongType(x) => DirectiveIssue::ArgWrongType(*x),
            DirectiveIssue::ArgWrongDefault(x) => DirectiveIssue::ArgWrongDefault(*x),
            DirectiveIssue::ArgMissingDefault(x) => DirectiveIssue::ArgMissingDefault(*x),
            DirectiveIssue::UnknownArg(x) => DirectiveIssue::UnknownArg(x.clone()),
            DirectiveIssue::MissingArg(x) => DirectiveIssue::MissingArg(*x),
        }
    }
}

impl Clone for ErrorKind {
    fn clone(&self) -> (res: Self)
        ensures
            res == *self,
    {
        match self {
            ErrorKind::NoQueryType => ErrorKind::NoQueryType,
            ErrorKind::SpecialCaseScalarWithDescription => {
                ErrorKind::SpecialCaseScalarWithDescription
            },
            ErrorKind::CannotDeclareBuiltinAsScalar => ErrorKind::CannotDeclareBuiltinAsScalar,
            ErrorKind::SubscriptionsCannotImplementInterfaces => {
                ErrorKind::SubscriptionsCannotImplementInterfaces
            },
            ErrorKind::TypeExtensionNotSupported => ErrorKind::TypeExtensionNotSupported,
            ErrorKind::InputTypeFieldWithDefaultValue => ErrorKind::InputTypeFieldWithDefaultValue,
            ErrorKind::NonnullableFieldWithDefaultValue => {
                ErrorKind::NonnullableFieldWithDefaultValue
            },
            ErrorKind::AsRefOwnershipForNamedType => ErrorKind::AsRefOwnershipForNamedType,
            ErrorKind::DateScalarNotDefined => ErrorKind::DateScalarNotDefined,
            ErrorKind::DateTimeScalarNotDefined => ErrorKind::DateTimeScalarNotDefined,
            ErrorKind::UuidScalarNotDefined => ErrorKind::UuidScalarNotDefined,
            ErrorKind::UrlScalarNotDefined => ErrorKind::UrlScalarNotDefined,
            ErrorKind::VariableDefaultValue => ErrorKind::VariableDefaultValue,
            ErrorKind::StreamTypeNotSupportedHere => ErrorKind::StreamTypeNotSupportedHere,
            ErrorKind::StreamItemInfallibleNotSupportedHere => {
                ErrorKind::StreamItemInfallibleNotSupportedHere
            },
            ErrorKind::SubscriptionFieldMustBeOwned => ErrorKind::SubscriptionFieldMustBeOwned,
            ErrorKind::InvalidStreamReturnType => ErrorKind::InvalidStreamReturnType,
            ErrorKind::FieldNameInSnakeCase => ErrorKind::FieldNameInSnakeCase,
            ErrorKind::UppercaseUuidScalar => ErrorKind::UppercaseUuidScalar,
            ErrorKind::InvalidJuniperDirective(x) => ErrorKind::InvalidJuniperDirective(x.clone()),
            ErrorKind::UnknownDirectiveArgument(x) => {
                ErrorKind::UnknownDirectiveArgument(x.clone())
            },
            ErrorKind::InvalidArgumentValue(x) => ErrorKind::InvalidArgumentValue(*x),
            ErrorKind::UnknownOwnership(x) => ErrorKind::UnknownOwnership(x.clone()),
        }
    }
}

impl Clone for Error {
    fn clone(&self) -> (res: Self)
        ensures
            res == *self,
    {
        Error { pos: self.pos, kind: self.kind.clone() }
    }
}


/// Decides `issue_eq`.
fn issue_eq_exec(a: &DirectiveIssue, b: &DirectiveIssue) -> (r: bool)
    ensures
        r == issue_eq(*a, *b),
{
    match (a, b) {
        (DirectiveIssue::InvalidLocation(x), DirectiveIssue::InvalidLocation(y)) => *x == *y,
        (
            DirectiveIssue::MissingFieldDefinitionLocation,
            DirectiveIssue::MissingFieldDefinitionLocation,
        ) => true,
        (DirectiveIssue::MissingScalarLocation, DirectiveIssue::MissingScalarLocation) => true,
        (DirectiveIssue::ArgWithDirectives(x), DirectiveIssue::ArgWithDirectives(y)) => *x == *y,
        (DirectiveIssue::ArgWrongType(x), DirectiveIssue::ArgWrongType(y)) => *x == *y,
        (DirectiveIssue::ArgWrongDefault(x), DirectiveIssue::ArgWrongDefault(y)) => *x == *y,
        (DirectiveIssue::ArgMissingDefault(x), DirectiveIssue::ArgMissingDefault(y)) => *x == *y,
        (DirectiveIssue::UnknownArg(x), DirectiveIssue::UnknownArg(y)) => *x == *y,
        (DirectiveIssue::MissingArg(x), DirectiveIssue::MissingArg(y)) => *x == *y,
        _ => false,
    }
}

/// Decides `kind_eq`.
fn kind_eq_exec(a: &ErrorKind, b: &ErrorKind) -> (r: bool)
    ensures
        r == kind_eq(*a, *b),
{
    match (a, b) {
        (ErrorKind::NoQueryType, ErrorKind::NoQueryType) => true,
        (
            ErrorKind::SpecialCaseScalarWithDescription,
            ErrorKind::SpecialCaseScalarWithDescription,
        ) => true,
        (ErrorKind::CannotDeclareBuiltinAsScalar, ErrorKind::CannotDeclareBuiltinAsScalar) => true,
        (
            ErrorKind::SubscriptionsCannotImplementInterfaces,
            ErrorKind::SubscriptionsCannotImplementInterfaces,
        ) => true,
        (ErrorKind::TypeExtensionNotSupported, ErrorKind::TypeExtensionNotSupported) => true,
        (
            ErrorKind::InputTypeFieldWithDefaultValue,
            ErrorKind::InputTypeFieldWithDefaultValue,
        ) => true,
        (
            ErrorKind::NonnullableFieldWithDefaultValue,
            ErrorKind::NonnullableFieldWithDefaultValue,
        ) => true,
        (ErrorKind::AsRefOwnershipForNamedType, ErrorKind::AsRefOwnershipForNamedType) => true,
        (ErrorKind::DateScalarNotDefined, ErrorKind::DateScalarNotDefined) => true,
        (ErrorKind::DateTimeScalarNotDefined, ErrorKind::DateTimeScalarNotDefined) => true,
        (ErrorKind::UuidScalarNotDefined, ErrorKind::UuidScalarNotDefined) => true,
        (ErrorKind::UrlScalarNotDefined, ErrorKind::UrlScalarNotDefined) => true,
        (ErrorKind::VariableDefaultValue, ErrorKind::VariableDefaultValue) => true,
        (ErrorKind::StreamTypeNotSupportedHere, ErrorKind::StreamTypeNotSupportedHere) => true,
        (
            ErrorKind::StreamItemInfallibleNotSupportedHere,
            ErrorKind::StreamItemInfallibleNotSupportedHere,
        ) => true,
        (ErrorKind::SubscriptionFieldMustBeOwned, ErrorKind::SubscriptionFieldMustBeOwned) => true,
        (ErrorKind::InvalidStreamReturnType, ErrorKind::InvalidStreamReturnType) => true,
        (ErrorKind::FieldNameInSnakeCase, ErrorKind::FieldNameInSnakeCase) => true,
        (ErrorKind::UppercaseUuidScalar, ErrorKind::UppercaseUuidScalar) => true,
        (ErrorKind::InvalidJuniperDirective(x), ErrorKind::InvalidJuniperDirective(y)) => {
            issue_eq_exec(x, y)
        },
        (ErrorKind::UnknownDirectiveArgument(x), ErrorKind::UnknownDirectiveArgument(y)) => {
            *x == *y
        },
        (ErrorKind::InvalidArgumentValue(x), ErrorKind::InvalidArgumentValue(y)) => *x == *y,
        (ErrorKind::UnknownOwnership(x), ErrorKind::UnknownOwnership(y)) => *x == *y,
        _ => false,
    }
}

/// Decides `err_eq`.
pub fn error_eq(a: &Error, b: &Error) -> (r: bool)
    ensures
        r == err_eq(*a, *b),
{
    a.pos == b.pos && kind_eq_exec(&a.kind, &b.kind)
}

/// Decides `kind_rank`.
fn kind_rank_exec(k: &ErrorKind) -> (r: u64)
    ensures
        r as int == kind_rank(*k),
{
    match k {
        ErrorKind::NoQueryType => 0,
        ErrorKind::SpecialCaseScalarWithDescription => 1,
        ErrorKind::CannotDeclareBuiltinAsScalar => 2,
        ErrorKind::SubscriptionsCannotImplementInterfaces => 3,
        ErrorKind::TypeExtensionNotSupported => 4,
        ErrorKind::InputTypeFieldWithDefaultValue => 5,
        ErrorKind::NonnullableFieldWithDefaultValue => 6,
        ErrorKind::AsRefOwnershipForNamedType => 7,
        ErrorKind::DateScalarNotDefined => 8,
        ErrorKind::DateTimeScalarNotDefined => 9,
        ErrorKind::UuidScalarNotDefined => 10,
        ErrorKind::UrlScalarNotDefined => 11,
        ErrorKind::VariableDefaultValue => 12,
        ErrorKind::StreamTypeNotSupportedHere => 13,
        ErrorKind::StreamItemInfallibleNotSupportedHere => 14,
        ErrorKind::SubscriptionFieldMustBeOwned => 15,
        ErrorKind::InvalidStreamReturnType => 16,
        ErrorKind::FieldNameInSnakeCase => 17,
        ErrorKind::UppercaseUuidScalar => 18,
        ErrorKind::InvalidJuniperDirective(_) => 19,
        ErrorKind::UnknownDirectiveArgument(_) => 20,
        ErrorKind::InvalidArgumentValue(_) => 21,
        ErrorKind::UnknownOwnership(_) => 22,
    }
}

/// Decides `key_le`.
pub fn error_key_le(a: &Error, b: &Error) -> (r: bool)
    ensures
        r == key_le(*a, *b),
{
    if a.pos.line != b.pos.line {
        a.pos.line < b.pos.line
    } else if a.pos.column != b.pos.column {
        a.pos.column < b.pos.column
    } else {
        kind_rank_exec(&a.kind) <= kind_rank_exec(&b.kind)
    }
}

/// Stable sorted insertion with deduplication into an already frozen
/// collection.
pub fn push_sorted(out: &mut Vec<Error>, e: Error)
    ensures
        final(out)@ == s_add(old(out)@, e),
{
    let mut i: usize = 0;
    while i < out.len()
        invariant
            i <= out.len(),
            out@ == old(out)@,
            forall|j: int| 0 <= j < i ==> !err_eq(out@[j], e),
        decreases out.len() - i,
    {
        if error_eq(&out[i], &e) {
            proof {
                assert(s_has(old(out)@, e));
            }
            return ;
        }
        i += 1;
    }
    assert(!s_has(out@, e));
    let mut k: usize = 0;
    while k < out.len() && error_key_le(&out[k], &e)
        invariant
            k <= out.len(),
            out@ == old(out)@,
            forall|j: int| 0 <= j < k ==> key_le(out@[j], e),
        decreases out.len() - k,
    {
        k += 1;
    }
    proof {
        lemma_s_ins_at(out@, e, k as int);
    }
    out.insert(k, e);
    proof {
        assert(final(out)@ =~= old(out)@.subrange(0, k as int) + seq![e] + old(out)@.subrange(
            k as int,
            old(out)@.len() as int,
        ));
    }
}

/// Where the stable insertion lands: before the first entry whose key is
/// strictly greater.
proof fn lemma_s_ins_at(s: Seq<Error>, e: Error, i: int)
    requires
        0 <= i <= s.len(),
        forall|j: int| 0 <= j < i ==> key_le(s[j], e),
        i < s.len() ==> !key_le(s[i], e),
    ensures
        s_ins(s, e) == s.subrange(0, i) + seq![e] + s.subrange(i, s.len() as int),
    decreases i,
{
    if i == 0 {
        if s.len() == 0 {
            assert(s_ins(s, e) =~= s.subrange(0, 0) + seq![e] + s.subrange(0, 0));
        } else {
            assert(s_ins(s, e) =~= s.subrange(0, 0) + seq![e] + s.subrange(0, s.len() as int));
        }
    } else {
        let t = s.drop_first();
        assert(forall|j: int| 0 <= j < i - 1 ==> key_le(t[j], e));
        lemma_s_ins_at(t, e, i - 1);
        assert(t.subrange(0, i - 1) =~= s.subrange(1, i));
        assert(t.subrange(i - 1, t.len() as int) =~= s.subrange(i, s.len() as int));
        assert(s_ins(s, e) =~= s.subrange(0, i) + seq![e] + s.subrange(i, s.len() as int));
    }
}

/// Freezes an accumulation sequence into the sorted, deduplicated report.
pub fn sorted_errors(input: &Vec<Error>) -> (r: Vec<Error>)
    ensures
        r@ == s_checkpoint(input@),
{
    let mut out: Vec<Error> = Vec::new();
    let mut i: usize = 0;
    while i < input.len()
        invariant
            i <= input.len(),
            out@ == s_checkpoint(input@.take(i as int)),
        decreases input.len() - i,
    {
        push_sorted(&mut out, input[i].clone());
        proof {
            assert(input@.take(i as int + 1).drop_last() =~= input@.take(i as int));
            assert(input@.take(i as int + 1).last() == input@[i as int]);
        }
        i += 1;
    }
    proof {
        assert(input@.take(input@.len() as int) =~= input@);
    }
    out
}


/// A frozen report is sorted: positions ascend, and kinds ascend within
/// one position.
pub open spec fn errors_sorted(s: Seq<Error>) -> bool {
    forall|i: int, j: int| 0 <= i < j < s.len() ==> key_le(#[trigger] s[i], #[trigger] s[j])
}

/// A frozen report holds no diagnostic twice.
pub open spec fn errors_distinct(s: Seq<Error>) -> bool {
    forall|i: int, j: int| 0 <= i < j < s.len() ==> !err_eq(#[trigger] s[i], #[trigger] s[j])
}

/// Equality of diagnostics is symmetric.
proof fn lemma_err_eq_sym(a: Error, b: Error)
    ensures
        err_eq(a, b) == err_eq(b, a),
{
}

/// Insertion grows the collection by one.
proof fn lemma_ins_len(s: Seq<Error>, e: Error)
    ensures
        s_ins(s, e).len() == s.len() + 1,
    decreases s.len(),
{
    if s.len() > 0 && key_le(s[0], e) {
        lemma_ins_len(s.drop_first(), e);
    }
}

/// Everything in an insertion's result was there before or is the
/// inserted diagnostic.
proof fn lemma_ins_elements(s: Seq<Error>, e: Error)
    ensures
        forall|k: int|
            0 <= k < s_ins(s, e).len() ==> (#[trigger] s_ins(s, e)[k] == e || s.contains(
                s_ins(s, e)[k],
            )),
    decreases s.len(),
{
    if s.len() > 0 && key_le(s[0], e) {
        lemma_ins_elements(s.drop_first(), e);
        assert forall|k: int| 0 <= k < s_ins(s, e).len() implies (#[trigger] s_ins(s, e)[k] == e
            || s.contains(s_ins(s, e)[k])) by {
            if k == 0 {
                assert(s.contains(s[0]));
            } else {
                let rest = s_ins(s.drop_first(), e);
                assert(s_ins(s, e)[k] == rest[k - 1]);
                if rest[k - 1] == e {
                } else {
                    let m = choose|m: int|
                        0 <= m < s.drop_first().len() && s.drop_first()[m] == rest[k - 1];
                    assert(s[m + 1] == rest[k - 1]);
                }
            }
        }
    } else {
        assert forall|k: int| 0 <= k < s_ins(s, e).len() implies (#[trigger] s_ins(s, e)[k] == e
            || s.contains(s_ins(s, e)[k])) by {
            if s.len() > 0 && k > 0 {
                assert(s_ins(s, e)[k] == s[k - 1]);
            }
        }
    }
}

/// Insertion keeps a sorted collection sorted.
#[verifier::rlimit(100)]
#[verifier::spinoff_prover]
proof fn lemma_ins_sorted(s: Seq<Error>, e: Error)
    requires
        errors_sorted(s),
    ensures
        errors_sorted(s_ins(s, e)),
    decreases s.len(),
{
    if s.len() == 0 {
    } else if key_le(s[0], e) {
        assert(errors_sorted(s.drop_first()));
        lemma_ins_sorted(s.drop_first(), e);
        lemma_ins_elements(s.drop_first(), e);
        lemma_ins_len(s.drop_first(), e);
        let r = s_ins(s, e);
        let rest = s_ins(s.drop_first(), e);
        assert forall|i: int, j: int| 0 <= i < j < r.len() implies key_le(
            #[trigger] r[i],
            #[trigger] r[j],
        ) by {
            if i == 0 {
                assert(r[j] == rest[j - 1]);
                if rest[j - 1] == e {
                } else {
                    let m = choose|m: int|
                        0 <= m < s.drop_first().len() && s.drop_first()[m] == rest[j - 1];
                    assert(s[m + 1] == rest[j - 1]);
                    assert(key_le(s[0], s[m + 1]));
                }
            } else {
                assert(r[i] == rest[i - 1]);
                assert(r[j] == rest[j - 1]);
            }
        }
    } else {
        let r = s_ins(s, e);
        assert forall|i: int, j: int| 0 <= i < j < r.len() implies key_le(
            #[trigger] r[i],
            #[trigger] r[j],
        ) by {
            if i == 0 {
                if j == 1 {
                    assert(r[j] == s[0]);
                } else {
                    assert(r[j] == s[j - 1]);
                    assert(key_le(s[0], s[j - 1]));
                }
            } else {
                assert(r[i] == s[i - 1]);
                assert(r[j] == s[j - 1]);
            }
        }
    }
}

/// Insertion of a diagnostic not yet present keeps the collection free of
/// duplicates.
#[verifier::rlimit(100)]
#[verifier::spinoff_prover]
proof fn lemma_ins_distinct(s: Seq<Error>, e: Error)
    requires
        errors_distinct(s),
        !s_has(s, e),
    ensures
        errors_distinct(s_ins(s, e)),
    decreases s.len(),
{
    if s.len() == 0 {
    } else if key_le(s[0], e) {
        assert(errors_distinct(s.drop_first()));
        assert forall|m: int| 0 <= m < s.drop_first().len() implies !err_eq(
            #[trigger] s.drop_first()[m],
            e,
        ) by {
            assert(s.drop_first()[m] == s[m + 1]);
        }
        assert(!s_has(s.drop_first(), e));
        lemma_ins_distinct(s.drop_first(), e);
        lemma_ins_elements(s.drop_first(), e);
        lemma_ins_len(s.drop_first(), e);
        let r = s_ins(s, e);
        let rest = s_ins(s.drop_first(), e);
        assert forall|i: int, j: int| 0 <= i < j < r.len() implies !err_eq(
            #[trigger] r[i],
            #[trigger] r[j],
        ) by {
            if i == 0 {
                assert(r[j] == rest[j - 1]);
                if rest[j - 1] == e {
                    assert(!err_eq(s[0], e));
                } else {
                    let m = choose|m: int|
                        0 <= m < s.drop_first().len() && s.drop_first()[m] == rest[j - 1];
                    assert(s[m + 1] == rest[j - 1]);
                }
            } else {
                assert(r[i] == rest[i - 1]);
                assert(r[j] == rest[j - 1]);
            }
        }
    } else {
        let r = s_ins(s, e);
        assert forall|i: int, j: int| 0 <= i < j < r.len() implies !err_eq(
            #[trigger] r[i],
            #[trigger] r[j],
        ) by {
            if i == 0 {
                assert(r[j] == s[j - 1]);
                lemma_err_eq_sym(e, s[j - 1]);
            } else {
                assert(r[i] == s[i - 1]);
                assert(r[j] == s[j - 1]);
            }
        }
    }
}

/// The frozen report of any accumulation is sorted by position, then
/// kind: repeated runs over one input report their diagnostics in one
/// order.
pub proof fn lemma_checkpoint_sorted(input: Seq<Error>)
    ensures
        errors_sorted(s_checkpoint(input)),
    decreases input.len(),
{
    if input.len() > 0 {
        lemma_checkpoint_sorted(input.drop_last());
        if !s_has(s_checkpoint(input.drop_last()), input.last()) {
            lemma_ins_sorted(s_checkpoint(input.drop_last()), input.last());
        }
    }
}

/// The frozen report of any accumulation holds no diagnostic twice.
pub proof fn lemma_checkpoint_distinct(input: Seq<Error>)
    ensures
        errors_distinct(s_checkpoint(input)),
    decreases input.len(),
{
    if input.len() > 0 {
        lemma_checkpoint_distinct(input.drop_last());
        if !s_has(s_checkpoint(input.drop_last()), input.last()) {
            lemma_ins_distinct(s_checkpoint(input.drop_last()), input.last());
        }
    }
}

/// Everything in the frozen report was accumulated, and everything
/// accumulated is in the frozen report: freezing loses nothing but exact
/// duplicates.
#[verifier::rlimit(100)]
#[verifier::spinoff_prover]
pub proof fn lemma_checkpoint_complete(input: Seq<Error>)
    ensures
        forall|k: int|
            0 <= k < s_checkpoint(input).len() ==> s_has(input, #[trigger] s_checkpoint(input)[k]),
        forall|k: int| 0 <= k < input.len() ==> s_has(s_checkpoint(input), #[trigger] input[k]),
    decreases input.len(),
{
    if input.len() > 0 {
        let prev = s_checkpoint(input.drop_last());
        let e = input.last();
        lemma_checkpoint_complete(input.drop_last());
        let cp = s_checkpoint(input);
        assert forall|m: int| 0 <= m < prev.len() implies s_has(input, #[trigger] prev[m]) by {
            let w = choose|w: int|
                0 <= w < input.drop_last().len() && err_eq(input.drop_last()[w], prev[m]);
            assert(input[w] == input.drop_last()[w]);
        }
        if s_has(prev, e) {
            assert(cp == prev);
            assert forall|k: int| 0 <= k < input.len() implies s_has(cp, #[trigger] input[k]) by {
                if k < input.len() - 1 {
                    assert(input.drop_last()[k] == input[k]);
                } else {
                    assert(input[k] == e);
                    let w = choose|w: int| 0 <= w < prev.len() && err_eq(prev[w], e);
                    lemma_err_eq_sym(prev[w], e);
                    lemma_err_eq_sym(cp[w], input[k]);
                }
            }
        } else {
            lemma_ins_elements(prev, e);
            lemma_ins_len(prev, e);
            assert forall|k: int| 0 <= k < cp.len() implies s_has(input, #[trigger] cp[k]) by {
                if cp[k] == e {
                    assert(err_eq(input[input.len() - 1], cp[k]));
                } else {
                    let m = choose|m: int| 0 <= m < prev.len() && prev[m] == cp[k];
                    assert(s_has(input, prev[m]));
                }
            }
            assert forall|k: int| 0 <= k < input.len() implies s_has(cp, #[trigger] input[k]) by {
                if k < input.len() - 1 {
                    assert(input.drop_last()[k] == input[k]);
                    let w = choose|w: int| 0 <= w < prev.len() && err_eq(prev[w], input[k]);
                    lemma_ins_keeps(prev, e, w);
                } else {
                    lemma_ins_keeps_new(prev, e);
                    let w = choose|w: int| 0 <= w < cp.len() && cp[w] == e;
                    assert(err_eq(cp[w], input[k]));
                }
            }
        }
    }
}

/// Every diagnostic of the collection survives an insertion, up to
/// equality.
proof fn lemma_ins_keeps(s: Seq<Error>, e: Error, w: int)
    requires
        0 <= w < s.len(),
    ensures
        exists|k: int| 0 <= k < s_ins(s, e).len() && #[trigger] s_ins(s, e)[k] == s[w],
    decreases s.len(),
{
    if key_le(s[0], e) {
        if w == 0 {
            assert(s_ins(s, e)[0] == s[0]);
        } else {
            lemma_ins_keeps(s.drop_first(), e, w - 1);
            let k = choose|k: int|
                0 <= k < s_ins(s.drop_first(), e).len() && #[trigger] s_ins(s.drop_first(), e)[k]
                    == s.drop_first()[w - 1];
            assert(s_ins(s, e)[k + 1] == s_ins(s.drop_first(), e)[k]);
            assert(s.drop_first()[w - 1] == s[w]);
        }
    } else {
        assert(s_ins(s, e)[w + 1] == s[w]);
    }
}

/// The inserted diagnostic is in the result.
proof fn lemma_ins_keeps_new(s: Seq<Error>, e: Error)
    ensures
        exists|k: int| 0 <= k < s_ins(s, e).len() && #[trigger] s_ins(s, e)[k] == e,
    decreases s.len(),
{
    if s.len() > 0 && key_le(s[0], e) {
        lemma_ins_keeps_new(s.drop_first(), e);
        let k = choose|k: int|
            0 <= k < s_ins(s.drop_first(), e).len() && #[trigger] s_ins(s.drop_first(), e)[k] == e;
        assert(s_ins(s, e)[k + 1] == e);
    } else {
        assert(s_ins(s, e)[0] == e);
    }
}

} // verus!
