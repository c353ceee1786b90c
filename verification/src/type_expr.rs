//! Declared types and their resolution into a leaf type and an optionality flag.

use vstd::prelude::*;
use crate::text::{join, join_with, same_text, views_of};

verus! {

/// A declared parameter or flag type, as far as generation looks into it.
#[derive(Debug, PartialEq, Eq)]
pub enum TypeExpr {
    /// A named type: its path segments and the type arguments of its last segment.
    Path { segments: Vec<String>, args: Vec<TypeExpr> },
    /// A reference to a type.
    Reference { mutable: bool, has_lifetime: bool, elem: Box<TypeExpr> },
    /// Any other form of type: a tuple, a pointer, a function type, and so on.
    Other,
}

/// The mathematical value of a `TypeExpr`.
pub enum TypeModel {
    Path { segments: Seq<Seq<char>>, args: Seq<TypeModel> },
    Reference { mutable: bool, has_lifetime: bool, elem: Box<TypeModel> },
    Other,
}

impl View for TypeExpr {
    type V = TypeModel;

    open spec fn view(&self) -> TypeModel
        decreases self,
    {
        match self {
            TypeExpr::Path { segments, args } => TypeModel::Path {
                segments: views_of(segments@),
                args: Seq::new(
                    args@.len(),
                    |i: int|
                        if 0 <= i < args@.len() {
                            args@[i]@
                        } else {
                            TypeModel::Other
                        },
                ),
            },
            TypeExpr::Reference { mutable, has_lifetime, elem } => TypeModel::Reference {
                mutable: *mutable,
                has_lifetime: *has_lifetime,
                elem: Box::new((**elem)@),
            },
            TypeExpr::Other => TypeModel::Other,
        }
    }
}

/// The separator between the segments of a path.
pub open spec fn path_separator() -> Seq<char> {
    seq![':', ':']
}

/// The name that a type goes by: the segments of a path joined by `::`, seen
/// through any number of references. Other forms of type have no name.
pub open spec fn name_of_type(ty: TypeModel) -> Option<Seq<char>>
    decreases ty,
{
    match ty {
        TypeModel::Path { segments, args } => Some(join_with(segments, path_separator())),
        TypeModel::Reference { mutable, has_lifetime, elem } => name_of_type(*elem),
        TypeModel::Other => None,
    }
}

/// Tells whether a type has a name.
pub fn has_name(ty: &TypeExpr) -> (r: bool)
    ensures
        r == name_of_type(ty@) is Some,
    decreases ty,
{
    match ty {
        TypeExpr::Path { segments, args } => true,
        TypeExpr::Reference { mutable, has_lifetime, elem } => has_name(elem),
        TypeExpr::Other => false,
    }
}

/// Computes the name of a type that has one.
pub fn name_from_type_path(ty: &TypeExpr) -> (r: String)
    requires
        name_of_type(ty@) is Some,
    ensures
        r@ == name_of_type(ty@)->Some_0,
    decreases ty,
{
    match ty {
        TypeExpr::Path { segments, args } => {
            proof {
                reveal_strlit("::");
                assert("::"@ =~= path_separator());
            }
            join(segments, "::")
        },
        TypeExpr::Reference { mutable, has_lifetime, elem } => name_from_type_path(elem),
        TypeExpr::Other => vstd::pervasive::unreached(),
    }
}

impl Clone for TypeExpr {
    fn clone(&self) -> (r: TypeExpr)
        ensures
            r@ == self@,
        decreases self,
    {
        match self {
            TypeExpr::Path { segments, args } => {
                let mut new_segments: Vec<String> = Vec::new();
                let mut i: usize = 0;
                while i < segments.len()
                    invariant
                        i <= segments.len(),
                        new_segments@.len() == i,
                        forall|k: int| 0 <= k < i ==> new_segments@[k]@ == segments@[k]@,
                    decreases segments.len() - i,
                {
                    new_segments.push(segments[i].clone());
                    i += 1;
                }
                let mut new_args: Vec<TypeExpr> = Vec::new();
                let mut j: usize = 0;
                while j < args.len()
                    invariant
                        *self is Path,
                        self->args == *args,
                        j <= args.len(),
                        new_args@.len() == j,
                        forall|k: int| 0 <= k < j ==> new_args@[k]@ == args@[k]@,
                    decreases args.len() - j,
                {
                    new_args.push(args[j].clone());
                    j += 1;
                }
                let r = TypeExpr::Path { segments: new_segments, args: new_args };
                proof {
                    assert(r@->segments =~= self@->segments);
                    assert(r@->args =~= self@->args);
                }
                r
            },
            TypeExpr::Reference { mutable, has_lifetime, elem } => TypeExpr::Reference {
                mutable: *mutable,
                has_lifetime: *has_lifetime,
                elem: Box::new((**elem).clone()),
            },
            TypeExpr::Other => TypeExpr::Other,
        }
    }
}

/// A resolved type: the leaf that remains once the optional wrappers are
/// taken off, and whether there was one.
#[derive(Debug, PartialEq, Eq)]
pub struct TypeShape {
    pub leaf_type: TypeExpr,
    pub is_optional: bool,
}

/// The mathematical value of a `TypeShape`.
pub struct ShapeModel {
    pub leaf_type: TypeModel,
    pub is_optional: bool,
}

impl View for TypeShape {
    type V = ShapeModel;

    open spec fn view(&self) -> ShapeModel {
        ShapeModel { leaf_type: self.leaf_type@, is_optional: self.is_optional }
    }
}

impl Clone for TypeShape {
    fn clone(&self) -> (r: TypeShape)
        ensures
            r@ == self@,
    {
        TypeShape { leaf_type: self.leaf_type.clone(), is_optional: self.is_optional }
    }
}

/// Why a declared type has no shape.
#[derive(Clone, Copy, Debug, PartialEq, Eq, Structural)]
pub enum ResolveError {
    /// A reference that is mutable.
    MutableReference,
    /// A reference that carries an explicit lifetime.
    LifetimeReference,
    /// A form of type outside the accepted grammar.
    UnsupportedShape,
}

impl ResolveError {
    /// The diagnostic that goes with the error.
    pub open spec fn message_spec(self) -> Seq<char> {
        match self {
            ResolveError::MutableReference => "mutable reference parameters unsupported"@,
            ResolveError::LifetimeReference =>
                "lifetime-annotated reference parameters unsupported"@,
            ResolveError::UnsupportedShape => "type shape unsupported"@,
        }
    }

    /// The diagnostic that goes with the error.
    pub fn message(&self) -> (r: &'static str)
        ensures
            r@ == self.message_spec(),
    {
        match self {
            ResolveError::MutableReference => "mutable reference parameters unsupported",
            ResolveError::LifetimeReference =>
                "lifetime-annotated reference parameters unsupported",
            ResolveError::UnsupportedShape => "type shape unsupported",
        }
    }
}

/// The name of the optional wrapper.
pub open spec fn optional_wrapper() -> Seq<char> {
    seq!['O', 'p', 't', 'i', 'o', 'n']
}

/// What resolution yields.
///
/// A path named as the optional wrapper must have exactly one type argument;
/// its shape is that of the argument, marked optional. Any other path must
/// have a name and no type arguments, and is its own leaf. A reference must be
/// immutable and without a lifetime; its leaf is a reference to the leaf of
/// the referent, and it is optional when the referent is. Of a reference that
/// is both mutable and lifetime-annotated, the mutability is reported.
pub open spec fn resolve_spec(ty: TypeModel) -> Result<ShapeModel, ResolveError>
    decreases ty,
{
    match ty {
        TypeModel::Path { segments, args } => {
            let name = join_with(segments, path_separator());
            if name == optional_wrapper() {
                if args.len() == 1 {
                    match resolve_spec(args[0]) {
                        Ok(inner) => Ok(
                            ShapeModel { leaf_type: inner.leaf_type, is_optional: true },
                        ),
                        Err(e) => Err(e),
                    }
                } else {
                    Err(ResolveError::UnsupportedShape)
                }
            } else if name.len() > 0 && args.len() == 0 {
                Ok(ShapeModel { leaf_type: ty, is_optional: false })
            } else {
                Err(ResolveError::UnsupportedShape)
            }
        },
        TypeModel::Reference { mutable, has_lifetime, elem } => {
            if mutable {
                Err(ResolveError::MutableReference)
            } else if has_lifetime {
                Err(ResolveError::LifetimeReference)
            } else {
                match resolve_spec(*elem) {
                    Ok(inner) => Ok(
                        ShapeModel {
                            leaf_type: TypeModel::Reference {
                                mutable: false,
                                has_lifetime: false,
                                elem: Box::new(inner.leaf_type),
                            },
                            is_optional: inner.is_optional,
                        },
                    ),
                    Err(e) => Err(e),
                }
            }
        },
        TypeModel::Other => Err(ResolveError::UnsupportedShape),
    }
}

/// Whether a resolution result is the given model.
pub open spec fn resolved_as(
    r: Result<TypeShape, ResolveError>,
    m: Result<ShapeModel, ResolveError>,
) -> bool {
    match r {
        Ok(shape) => m == Ok::<ShapeModel, ResolveError>(shape@),
        Err(e) => m == Err::<ShapeModel, ResolveError>(e),
    }
}

/// Resolves a declared type into its shape, or says why it has none.
pub fn resolve(ty: &TypeExpr) -> (r: Result<TypeShape, ResolveError>)
    ensures
        resolved_as(r, resolve_spec(ty@)),
    decreases ty,
{
    match ty {
        TypeExpr::Path { segments, args } => {
            proof {
                reveal_strlit("::");
                reveal_strlit("Option");
                assert("::"@ =~= path_separator());
                assert("Option"@ =~= optional_wrapper());
            }
            let name = join(segments, "::");
            if same_text(name.as_str(), "Option") {
                if args.len() == 1 {
                    match resolve(&args[0]) {
                        Ok(inner) => Ok(
                            TypeShape { leaf_type: inner.leaf_type, is_optional: true },
                        ),
                        Err(e) => Err(e),
                    }
                } else {
                    Err(ResolveError::UnsupportedShape)
                }
            } else if name.as_str().unicode_len() > 0 && args.len() == 0 {
                Ok(TypeShape { leaf_type: ty.clone(), is_optional: false })
            } else {
                Err(ResolveError::UnsupportedShape)
            }
        },
        TypeExpr::Reference { mutable, has_lifetime, elem } => {
            if *mutable {
                Err(ResolveError::MutableReference)
            } else if *has_lifetime {
                Err(ResolveError::LifetimeReference)
            } else {
                match resolve(elem) {
                    Ok(inner) => Ok(
                        TypeShape {
                            leaf_type: TypeExpr::Reference {
                                mutable: false,
                                has_lifetime: false,
                                elem: Box::new(inner.leaf_type),
                            },
                            is_optional: inner.is_optional,
                        },
                    ),
                    Err(e) => Err(e),
                }
            }
        },
        TypeExpr::Other => Err(ResolveError::UnsupportedShape),
    }
}


/// The accepted grammar: a named leaf without type arguments, under any
/// number of optional wrappers and of immutable references without lifetime.
pub open spec fn accepted(ty: TypeModel) -> bool
    decreases ty,
{
    match ty {
        TypeModel::Path { segments, args } => {
            let name = join_with(segments, path_separator());
            if name == optional_wrapper() {
                args.len() == 1 && accepted(args[0])
            } else {
                name.len() > 0 && args.len() == 0
            }
        },
        TypeModel::Reference { mutable, has_lifetime, elem } => {
            !mutable && !has_lifetime && accepted(*elem)
        },
        TypeModel::Other => false,
    }
}

/// Whether an optional wrapper stands anywhere in an accepted type.
pub open spec fn has_optional(ty: TypeModel) -> bool
    decreases ty,
{
    match ty {
        TypeModel::Path { segments, args } => {
            join_with(segments, path_separator()) == optional_wrapper()
        },
        TypeModel::Reference { mutable, has_lifetime, elem } => has_optional(*elem),
        TypeModel::Other => false,
    }
}

/// Whether an optional wrapper stands in front of every reference of the
/// type: the outermost layer is an optional wrapper.
pub open spec fn optional_outside_references(ty: TypeModel) -> bool {
    ty matches TypeModel::Path { segments, args } && join_with(segments, path_separator())
        == optional_wrapper()
}

/// Resolution is total on the accepted grammar and fails everywhere else.
pub proof fn lemma_resolve_accepts(ty: TypeModel)
    ensures
        resolve_spec(ty) is Ok <==> accepted(ty),
    decreases ty,
{
    match ty {
        TypeModel::Path { segments, args } => {
            if args.len() == 1 {
                lemma_resolve_accepts(args[0]);
            }
        },
        TypeModel::Reference { mutable, has_lifetime, elem } => {
            lemma_resolve_accepts(*elem);
        },
        TypeModel::Other => {},
    }
}

/// The leaf of a shape resolves to itself and is not optional: resolving
/// twice changes nothing of the leaf.
pub proof fn lemma_resolve_leaf_idempotent(ty: TypeModel)
    requires
        accepted(ty),
    ensures
        resolve_spec(ty) is Ok,
        resolve_spec(resolve_spec(ty).unwrap().leaf_type) == Ok::<ShapeModel, ResolveError>(
            ShapeModel { leaf_type: resolve_spec(ty).unwrap().leaf_type, is_optional: false },
        ),
    decreases ty,
{
    lemma_resolve_accepts(ty);
    match ty {
        TypeModel::Path { segments, args } => {
            if args.len() == 1 {
                lemma_resolve_leaf_idempotent(args[0]);
            }
        },
        TypeModel::Reference { mutable, has_lifetime, elem } => {
            lemma_resolve_leaf_idempotent(*elem);
        },
        TypeModel::Other => {},
    }
}

/// A shape is optional exactly when an optional wrapper stands somewhere in
/// the type, through references too.
pub proof fn lemma_resolve_optional_iff_wrapped(ty: TypeModel)
    requires
        accepted(ty),
    ensures
        resolve_spec(ty) is Ok,
        resolve_spec(ty).unwrap().is_optional == has_optional(ty),
    decreases ty,
{
    lemma_resolve_accepts(ty);
    match ty {
        TypeModel::Path { segments, args } => {
            if args.len() == 1 {
                lemma_resolve_optional_iff_wrapped(args[0]);
            }
        },
        TypeModel::Reference { mutable, has_lifetime, elem } => {
            lemma_resolve_optional_iff_wrapped(*elem);
        },
        TypeModel::Other => {},
    }
}

/// Where no optional wrapper hides behind a reference that no other wrapper
/// precedes, a shape is optional exactly when a wrapper stands outside the
/// references.
pub proof fn lemma_resolve_optional_outside_references(ty: TypeModel)
    requires
        accepted(ty),
        has_optional(ty) ==> optional_outside_references(ty),
    ensures
        resolve_spec(ty) is Ok,
        resolve_spec(ty).unwrap().is_optional == optional_outside_references(ty),
{
    lemma_resolve_optional_iff_wrapped(ty);
}

} // verus!
