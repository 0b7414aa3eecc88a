//! The emitter's decisions: for each compiled field, the names of the
//! generated resolver-contract methods and the exact return-type shape —
//! borrow and result wrapping, stream pinning, and whether the method
//! receives a traversal-helper argument. The textual rendering of these
//! decisions is the host's concern; everything decided here is pinned.

use vstd::prelude::*;
use crate::directive_parsing::Ownership;
use crate::field_compiler::Field;
use crate::rust_type::Type;
use crate::rust_type::TypeKind;
use crate::text::concat_str;
use crate::text::parses_as_type;
use crate::text::type_text_parses;

verus! {

/// The shape of a resolver method's return type.
pub enum ResolverType {
    /// The mapped type, owned.
    Plain(Type),
    /// A borrow of the mapped type.
    Borrowed(Type),
    /// A fallible result carrying the named error type.
    ResultOf(Box<ResolverType>, String),
    /// A pinned, boxed stream of the inner shape.
    StreamOf(Box<ResolverType>),
    /// A user-given return type, carried as its source text.
    RawText(String),
}

/// The resolver-contract trait generated for a type is named after it.
pub fn fields_trait_name(name: &str) -> (r: String)
    ensures
        r@ == name@ + "Fields"@,
{
    concat_str(name, "Fields")
}

impl Field {
    /// The generated trait method for a field is named after it.
    pub fn trait_field_name(&self) -> (r: String)
        ensures
            r@ == "field_"@ + self.name@,
    {
        concat_str("field_", self.name.as_str())
    }

    /// Whether the resolver method is declared async.
    pub fn asyncness(&self) -> (r: bool)
        ensures
            r == self.directives.asyncness,
    {
        self.directives.asyncness
    }

    /// The return shape before any result wrapping: owned or borrowed by
    /// the ownership directive; an as-ref request was already folded into
    /// the mapped type itself.
    pub open spec fn spec_unwrapped_return_type(self) -> ResolverType {
        match self.directives.ownership {
            Ownership::Owned => ResolverType::Plain(self.return_type),
            Ownership::Borrowed => ResolverType::Borrowed(self.return_type),
            Ownership::AsRef => ResolverType::Plain(self.return_type),
        }
    }

    /// The return shape before any result wrapping.
    pub fn return_type_not_wrapped_in_result(&self) -> (r: ResolverType)
        ensures
            r == self.spec_unwrapped_return_type(),
    {
        match self.directives.ownership {
            Ownership::Owned => ResolverType::Plain(self.return_type.clone()),
            Ownership::Borrowed => ResolverType::Borrowed(self.return_type.clone()),
            Ownership::AsRef => ResolverType::Plain(self.return_type.clone()),
        }
    }

    /// The full return type of an object or interface resolver method:
    /// wrapped in a result carrying the schema's error type unless the
    /// field is infallible.
    pub open spec fn spec_full_return_type(self, error_type: String) -> ResolverType {
        if self.directives.infallible {
            self.spec_unwrapped_return_type()
        } else {
            ResolverType::ResultOf(Box::new(self.spec_unwrapped_return_type()), error_type)
        }
    }

    /// The full return type of an object or interface resolver method.
    pub fn full_return_type(&self, error_type: &String) -> (r: ResolverType)
        ensures
            r == self.spec_full_return_type(*error_type),
    {
        let unwrapped = self.return_type_not_wrapped_in_result();
        if self.directives.infallible {
            unwrapped
        } else {
            ResolverType::ResultOf(Box::new(unwrapped), error_type.clone())
        }
    }

    /// What a subscription stream yields per item: the plain shape, or a
    /// result per item when the stream's items are declared fallible.
    pub open spec fn spec_stream_item_type(self, error_type: String) -> ResolverType {
        match self.directives.stream_item_infallible {
            Some(false) => ResolverType::ResultOf(
                Box::new(self.spec_unwrapped_return_type()),
                error_type,
            ),
            _ => self.spec_unwrapped_return_type(),
        }
    }

    /// What a subscription stream yields per item.
    pub fn stream_item_type(&self, error_type: &String) -> (r: ResolverType)
        ensures
            r == self.spec_stream_item_type(*error_type),
    {
        match &self.directives.stream_item_infallible {
            Some(false) => ResolverType::ResultOf(
                Box::new(self.return_type_not_wrapped_in_result()),
                error_type.clone(),
            ),
            _ => self.return_type_not_wrapped_in_result(),
        }
    }

    /// The full return type of a subscription resolver method: the
    /// user-given stream type when its text parses, else a pinned, boxed
    /// stream of the item shape; wrapped in a result unless infallible.
    pub open spec fn spec_full_stream_return_type(self, error_type: String) -> ResolverType {
        let base = match self.directives.stream_type {
            Some(ty) => {
                if parses_as_type(ty@) {
                    ResolverType::RawText(ty)
                } else {
                    ResolverType::StreamOf(Box::new(self.spec_stream_item_type(error_type)))
                }
            },
            None => ResolverType::StreamOf(Box::new(self.spec_stream_item_type(error_type))),
        };
        if self.directives.infallible {
            base
        } else {
            ResolverType::ResultOf(Box::new(base), error_type)
        }
    }

    /// The full return type of a subscription resolver method.
    pub fn full_stream_return_type(&self, error_type: &String) -> (r: ResolverType)
        ensures
            r == self.spec_full_stream_return_type(*error_type),
    {
        let base = match &self.directives.stream_type {
            Some(ty) => {
                if type_text_parses(ty.as_str()) {
                    ResolverType::RawText(ty.clone())
                } else {
                    ResolverType::StreamOf(Box::new(self.stream_item_type(error_type)))
                }
            },
            None => ResolverType::StreamOf(Box::new(self.stream_item_type(error_type))),
        };
        if self.directives.infallible {
            base
        } else {
            ResolverType::ResultOf(Box::new(base), error_type.clone())
        }
    }

    /// The traversal-helper argument of a resolver method: fields whose
    /// return type ultimately resolves to a composite receive a trail
    /// scoped to that leaf type; scalar and enum fields receive none.
    pub fn query_trail_param(&self) -> (r: Option<&Type>)
        ensures
            (match r {
                Some(t) => self.return_type.spec_kind() == TypeKind::Type && *t
                    == self.return_type.spec_innermost_type(),
                None => self.return_type.spec_kind() == TypeKind::Scalar,
            }),
    {
        match self.return_type.kind() {
            TypeKind::Type => Some(self.return_type.innermost_type()),
            TypeKind::Scalar => None,
        }
    }
}

} // verus!
