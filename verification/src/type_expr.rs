//! Types as they are written in the declaration of a context or of an
//! index: what the wiring has to read of them.

use vstd::prelude::*;
use vstd::string::StringExecFns;

verus! {

/// A type as written.
#[derive(Debug, PartialEq, Eq)]
pub enum TypeExpr {
    /// A reference to a type, with its lifetime as written, if it has one.
    Reference { lifetime: Option<String>, mutable: bool, elem: Box<TypeExpr> },
    /// A path, such as `storm::Ctx` or `AsyncOnceCell<Users>`: its
    /// segments, and the whole of it as written, which may begin with `::`
    /// or with a type in angle brackets.
    Path { written: String, segments: Vec<Segment> },
    /// Any other type, as written.
    Other(String),
}

/// One segment of a path.
#[derive(Debug, PartialEq, Eq)]
pub struct Segment {
    /// The name.
    pub ident: String,
    /// What follows the name.
    pub arguments: Arguments,
}

/// The arguments of a path segment.
#[derive(Debug, PartialEq, Eq)]
pub enum Arguments {
    /// No arguments, as in `Ctx`.
    Bare,
    /// Generic arguments, as in `AsyncOnceCell<Users>`.
    AngleBracketed(Vec<Argument>),
    /// The arguments of a function type, as in `Fn(usize)`, as written.
    Parenthesized(String),
}

/// One generic argument.
#[derive(Debug, PartialEq, Eq)]
pub enum Argument {
    /// A type.
    Type(TypeExpr),
    /// A lifetime, a constant or a constraint, as written.
    Other(String),
}

/// The type with all references around it taken off.
pub open spec fn stripped(t: TypeExpr) -> TypeExpr
    decreases t,
{
    match t {
        TypeExpr::Reference { elem, .. } => stripped(*elem),
        _ => t,
    }
}

/// The first generic argument of the last segment, where that is a type.
pub open spec fn first_type_argument(segments: Seq<Segment>) -> Option<TypeExpr> {
    if segments.len() == 0 {
        None
    } else {
        match segments.last().arguments {
            Arguments::AngleBracketed(args) => if args@.len() == 0 {
                None
            } else {
                match args@[0] {
                    Argument::Type(inner) => Some(inner),
                    Argument::Other(_) => None,
                }
            },
            _ => None,
        }
    }
}

/// The type that a cell holds: for a path with generic arguments the
/// first of them, where it is a type; for a reference what holds of the
/// type referred to; for any other type the type itself.
pub open spec fn cell_payload(t: TypeExpr) -> TypeExpr
    decreases t,
{
    match t {
        TypeExpr::Reference { elem, .. } => cell_payload(*elem),
        TypeExpr::Path { segments, .. } => match first_type_argument(segments@) {
            Some(inner) => inner,
            None => t,
        },
        TypeExpr::Other(_) => t,
    }
}

/// Whether the path ends in the names `idents`, each without arguments.
/// Where the path is shorter than `idents`, only as many names as the path
/// has segments are compared, counted from the end.
pub open spec fn ends_with(segments: Seq<Segment>, idents: Seq<Seq<char>>) -> bool {
    forall|i: int|
        0 <= i < segments.len() && i < idents.len() ==> {
            &&& (#[trigger] segments[segments.len() - 1 - i]).ident@ == idents[idents.len() - 1 - i]
            &&& segments[segments.len() - 1 - i].arguments is Bare
        }
}

/// The two names that the type of a context ends in.
pub open spec fn ctx_idents() -> Seq<Seq<char>> {
    seq!["storm"@, "Ctx"@]
}

/// Whether the type is a path to the context type.
pub open spec fn names_ctx(t: TypeExpr) -> bool {
    match t {
        TypeExpr::Path { segments, .. } => ends_with(segments@, ctx_idents()),
        _ => false,
    }
}

/// Takes all references off a type.
pub fn unref(t: &TypeExpr) -> (r: &TypeExpr)
    ensures
        *r == stripped(*t),
        !(*r is Reference),
    decreases t,
{
    match t {
        TypeExpr::Reference { elem, .. } => unref(&**elem),
        _ => t,
    }
}

/// The type that a cell holds: see [`cell_payload`].
pub fn get_async_once_cell_ty(t: &TypeExpr) -> (r: &TypeExpr)
    ensures
        *r == cell_payload(*t),
    decreases t,
{
    match t {
        TypeExpr::Reference { elem, .. } => get_async_once_cell_ty(&**elem),
        TypeExpr::Path { segments, .. } => {
            if segments.len() == 0 {
                return t;
            }
            match &segments[segments.len() - 1].arguments {
                Arguments::AngleBracketed(args) => {
                    if args.len() == 0 {
                        return t;
                    }
                    match &args[0] {
                        Argument::Type(inner) => inner,
                        Argument::Other(_) => t,
                    }
                },
                _ => t,
            }
        },
        TypeExpr::Other(_) => t,
    }
}

/// Whether the path ends in the names `idents`, each without arguments:
/// see [`ends_with`].
pub fn check_path_segment(segments: &Vec<Segment>, idents: &Vec<String>) -> (r: bool)
    ensures
        r == ends_with(segments@, idents@.map_values(|s: String| s@)),
{
    let ghost names = idents@.map_values(|s: String| s@);
    let mut i: usize = 0;
    while i < segments.len() && i < idents.len()
        invariant
            names == idents@.map_values(|s: String| s@),
            forall|j: int|
                0 <= j < i ==> {
                    &&& (#[trigger] segments@[segments@.len() - 1 - j]).ident@ == names[names.len() - 1 - j]
                    &&& segments@[segments@.len() - 1 - j].arguments is Bare
                },
        decreases segments@.len() - i,
    {
        let segment = &segments[segments.len() - 1 - i];
        let ident = &idents[idents.len() - 1 - i];
        let bare = match &segment.arguments {
            Arguments::Bare => true,
            _ => false,
        };
        if !bare || segment.ident != *ident {
            assert(!ends_with(segments@, names)) by {
                assert(names[names.len() - 1 - i] == ident@);
                if ends_with(segments@, names) {
                    assert(segments@[segments@.len() - 1 - i].arguments is Bare);
                }
            }
            return false;
        }
        i = i + 1;
    }
    true
}

/// Whether the type is a path to the context type: a path that ends in
/// `storm::Ctx`, or in `Ctx` alone.
pub fn is_storm_ctx(t: &TypeExpr) -> (r: bool)
    ensures
        r == names_ctx(*t),
{
    match t {
        TypeExpr::Path { segments, .. } => {
            let mut idents: Vec<String> = Vec::new();
            idents.push(String::from_str("storm"));
            idents.push(String::from_str("Ctx"));
            assert(idents@.map_values(|s: String| s@) =~= ctx_idents());
            check_path_segment(segments, &idents)
        },
        _ => false,
    }
}

} // verus!
