//! The wiring of an index: what has to exist beside a function that
//! computes a derived value.
//!
//! An index is declared as a function. Each parameter is either the
//! context itself or a value that the index is computed from: a
//! dependency, whose tag goes into the tag of the index and whose changes
//! clear the cache slot of the index. [`indexing_fn`] reads the signature
//! and says what the index gets; it writes no code.

use vstd::prelude::*;
use vstd::string::StringExecFns;

use crate::ascending::{lemma_picks_next, picks};
use crate::cases::{pascal_case, screaming_snake_case, to_pascal_case, to_screaming_snake_case};
use crate::decimal::{decimal, digits};
use crate::error::Error;
use crate::type_expr::{is_storm_ctx, names_ctx, stripped, unref, TypeExpr};

verus! {

/// One parameter in the signature of a function.
#[derive(Debug, PartialEq, Eq)]
pub enum ArgDecl {
    /// A parameter with its type.
    Typed(TypeExpr),
    /// `self`, in whatever form.
    Receiver,
}

/// The signature of a function that computes a derived value.
#[derive(Debug, PartialEq, Eq)]
pub struct FnDecl {
    /// The name of the function.
    pub name: String,
    /// The parameters, in order.
    pub inputs: Vec<ArgDecl>,
    /// The return type; none where the function returns nothing.
    pub output: Option<TypeExpr>,
}

/// What one parameter of an index stands for.
#[derive(Debug, PartialEq, Eq)]
pub struct IndexArg<'a> {
    /// The name of the variable that holds the argument: `var` and the
    /// position of the parameter.
    pub ident: String,
    /// The type of the parameter, references taken off.
    pub ty: &'a TypeExpr,
    /// Whether the parameter is the context itself. Any other parameter
    /// is a dependency of the index.
    pub from_ctx: bool,
}

/// What an index gets.
#[derive(Debug, PartialEq, Eq)]
pub struct IndexPlan<'a> {
    /// The name of the type of the index: the function's name in Pascal
    /// case.
    pub index_name: String,
    /// The name of the cache slot: the function's name in screaming snake
    /// case, and `_VAR`.
    pub static_var: String,
    /// The type of the derived value.
    pub value: &'a TypeExpr,
    /// One entry per parameter, in order.
    pub args: Vec<IndexArg<'a>>,
}

impl<'a> IndexArg<'a> {
    /// Whether the entry is what the parameter at `position` stands for.
    pub open spec fn is_for(self, input: ArgDecl, position: nat) -> bool {
        &&& input matches ArgDecl::Typed(ty)
        &&& *self.ty == stripped(ty)
        &&& self.from_ctx == names_ctx(stripped(ty))
        &&& self.ident@ == "var"@ + digits(position)
    }
}

/// Whether none of the parameters up to `upto` is `self`.
pub open spec fn all_typed(inputs: Seq<ArgDecl>, upto: int) -> bool {
    forall|i: int| 0 <= i < upto ==> (#[trigger] inputs[i]) is Typed
}

/// Whether `plan` is the plan of the index declared by `f`, given the two
/// spellings of the function's name.
pub open spec fn is_plan_of(plan: IndexPlan, f: FnDecl, pascal: Seq<char>, screaming: Seq<char>) -> bool {
    &&& plan.index_name@ == pascal
    &&& plan.static_var@ == screaming + "_VAR"@
    &&& f.output == Some(*plan.value)
    &&& plan.args@.len() == f.inputs@.len()
    &&& forall|i: int| 0 <= i < f.inputs@.len() ==> (#[trigger] plan.args@[i]).is_for(f.inputs@[i], i as nat)
}

/// What `plan_index` returns for the declaration `f`: a plan, or the
/// reason why `f` declares no index. A function without a return value is
/// refused first, then one that takes `self`.
pub open spec fn plan_matches(r: Result<IndexPlan, Error>, f: FnDecl, pascal: Seq<char>, screaming: Seq<char>) -> bool {
    if f.output.is_none() {
        r matches Err(e) && e == Error::IndexWithoutValue
    } else if !all_typed(f.inputs@, f.inputs@.len() as int) {
        r matches Err(e) && e == Error::ReceiverNotExpected
    } else {
        r matches Ok(plan) && is_plan_of(plan, f, pascal, screaming)
    }
}

/// Works out what the index declared by `f` gets, given the function's
/// name in Pascal case and in screaming snake case.
pub fn plan_index<'a>(f: &'a FnDecl, pascal: String, screaming: String) -> (r: Result<IndexPlan<'a>, Error>)
    ensures
        plan_matches(r, *f, pascal@, screaming@),
{
    let value = match &f.output {
        Some(value) => value,
        None => {
            return Err(Error::IndexWithoutValue);
        },
    };
    let mut args: Vec<IndexArg<'a>> = Vec::new();
    let mut i: usize = 0;
    while i < f.inputs.len()
        invariant
            i <= f.inputs@.len(),
            f.output == Some(*value),
            all_typed(f.inputs@, i as int),
            args@.len() == i,
            forall|j: int| 0 <= j < i ==> (#[trigger] args@[j]).is_for(f.inputs@[j], j as nat),
        decreases f.inputs@.len() - i,
    {
        match &f.inputs[i] {
            ArgDecl::Typed(declared) => {
                let ty = unref(declared);
                let ident = String::from_str("var").concat(decimal(i).as_str());
                args.push(IndexArg { ident, ty, from_ctx: is_storm_ctx(ty) });
            },
            ArgDecl::Receiver => {
                assert(!(f.inputs@[i as int] is Typed));
                return Err(Error::ReceiverNotExpected);
            },
        }
        i = i + 1;
    }
    Ok(IndexPlan { index_name: pascal, static_var: screaming.concat("_VAR"), value, args })
}

/// Works out what the index declared by `f` gets. The name of its type is
/// the function's name in Pascal case, the name of its cache slot the
/// function's name in screaming snake case and `_VAR`.
pub fn indexing_fn<'a>(f: &'a FnDecl) -> (r: Result<IndexPlan<'a>, Error>)
    ensures
        plan_matches(r, *f, pascal_case(f.name@), screaming_snake_case(f.name@)),
{
    let pascal = to_pascal_case(f.name.as_str());
    let screaming = to_screaming_snake_case(f.name.as_str());
    plan_index(f, pascal, screaming)
}

/// The dependencies of an index: the positions of the parameters that are
/// not the context itself, in ascending order.
pub fn dependencies(plan: &IndexPlan) -> (r: Vec<usize>)
    ensures
        forall|i: int, j: int| 0 <= i < j < r@.len() ==> r@[i] < r@[j],
        forall|p: usize| r@.contains(p) <==> (p < plan.args@.len() && !plan.args@[p as int].from_ctx),
{
    let mut out: Vec<usize> = Vec::new();
    let mut i: usize = 0;
    let ghost keep = |p: usize| p < plan.args@.len() && !plan.args@[p as int].from_ctx;
    while i < plan.args.len()
        invariant
            i <= plan.args@.len(),
            forall|p: usize| #[trigger] keep(p) == (p < plan.args@.len() && !plan.args@[p as int].from_ctx),
            picks(out@, i as int, keep),
        decreases plan.args@.len() - i,
    {
        proof {
            lemma_picks_next(out@, i, keep);
        }
        if !plan.args[i].from_ctx {
            out.push(i);
        }
        i = i + 1;
    }
    proof {
        assert forall|p: usize| out@.contains(p) <==> (p < plan.args@.len() && !plan.args@[p as int].from_ctx) by {
            assert(keep(p) == (p < plan.args@.len() && !plan.args@[p as int].from_ctx));
        }
    }
    out
}

} // verus!
