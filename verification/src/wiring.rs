//! The wiring of a context: what has to exist beside a context that is
//! declared as a set of named fields.
//!
//! For a context there is a log with one member per table, a transaction
//! with one member per table, and two sets of accessors, one on the
//! context and one on the transaction. A field that is flagged as an index
//! is a derived value: it gets an accessor and nothing else. [`implement`]
//! reads the declaration and says what each field gets; it writes no code.

use vstd::prelude::*;
use vstd::string::StringExecFns;

use crate::ascending::{lemma_picks_next, picks};
use crate::cases::{pascal_case, to_pascal_case};
use crate::error::Error;
use crate::type_expr::{cell_payload, get_async_once_cell_ty, stripped, unref, TypeExpr};

verus! {

/// One field in the declaration of a context.
#[derive(Debug, PartialEq, Eq)]
pub struct FieldDecl {
    /// The name; none for a field of a tuple struct.
    pub name: Option<String>,
    /// The type as written.
    pub ty: TypeExpr,
    /// Whether the field is flagged as an index.
    pub index: bool,
}

/// The declaration of a context.
#[derive(Debug, PartialEq, Eq)]
pub struct ContextDecl {
    /// The name of the context type.
    pub name: String,
    /// The fields; none where the context is not a struct with named
    /// fields.
    pub fields: Option<Vec<FieldDecl>>,
}

/// What a field of a context is.
#[derive(Debug, Clone, Copy, PartialEq, Eq, Structural)]
pub enum FieldKind {
    /// A derived value, loaded when first read and never written.
    Index,
    /// A table in a cell, loaded when first asked for.
    Lazy,
    /// A table that is there from the start.
    Plain,
}

/// What one field of a context gets.
#[derive(Debug, PartialEq, Eq)]
pub struct Member<'a> {
    /// The name of the field, and of its read accessor.
    pub name: &'a String,
    /// The name of the write accessor on the transaction.
    pub name_mut: String,
    /// The name of the alias for the type of the table; none for an
    /// index.
    pub alias: Option<String>,
    /// What the field is.
    pub kind: FieldKind,
    /// The type of the table or of the derived value: for a field in a
    /// cell what the cell holds.
    pub ty: &'a TypeExpr,
}

/// What a context gets.
#[derive(Debug, PartialEq, Eq)]
pub struct Wiring<'a> {
    /// The name of the log: the context's name and `Log`.
    pub log_name: String,
    /// The name of the accessors on the context: the context's name and
    /// `Tables`.
    pub tables_name: String,
    /// The name of the transaction: the context's name and `Transaction`.
    pub transaction_name: String,
    /// The name of the accessors on the transaction: the context's name
    /// and `TransactionTables`.
    pub transaction_tables_name: String,
    /// One member per field, in the order of the declaration.
    pub members: Vec<Member<'a>>,
}

/// Whether `ident` is the name of a cell type: `AsyncOnceCell` or
/// `OnceCell`.
pub open spec fn is_cell_ident(ident: Seq<char>) -> bool {
    ident == "AsyncOnceCell"@ || ident == "OnceCell"@
}

/// Whether the type, references taken off, is a path whose last segment is
/// named as a cell type is.
pub open spec fn names_cell(t: TypeExpr) -> bool {
    match stripped(t) {
        TypeExpr::Path { segments, .. } => segments@.len() > 0 && is_cell_ident(segments@.last().ident@),
        _ => false,
    }
}

/// What a field is: an index where it is flagged as one, else a table, in
/// a cell or not.
pub open spec fn kind_of(field: FieldDecl) -> FieldKind {
    if field.index {
        FieldKind::Index
    } else if names_cell(field.ty) {
        FieldKind::Lazy
    } else {
        FieldKind::Plain
    }
}

/// The type of the table or derived value of a field: what the cell holds
/// for an index and for a table in a cell, the declared type for a plain
/// table.
pub open spec fn payload_of(field: FieldDecl) -> TypeExpr {
    match kind_of(field) {
        FieldKind::Plain => field.ty,
        _ => cell_payload(field.ty),
    }
}

impl<'a> Member<'a> {
    /// Whether the member is what the named field `field` gets.
    pub open spec fn is_for(self, field: FieldDecl) -> bool {
        &&& field.name == Some(*self.name)
        &&& self.name_mut@ == self.name@ + "_mut"@
        &&& self.kind == kind_of(field)
        &&& *self.ty == payload_of(field)
        &&& match self.alias {
            Some(alias) => self.kind != FieldKind::Index && alias@ == pascal_case(self.name@),
            None => self.kind == FieldKind::Index,
        }
    }
}

/// Whether the type, references taken off, is a path whose last segment is
/// named `AsyncOnceCell` or `OnceCell`.
pub fn is_async_once_cell(t: &TypeExpr) -> (r: bool)
    ensures
        r == names_cell(*t),
{
    match unref(t) {
        TypeExpr::Path { segments, .. } => {
            if segments.len() == 0 {
                false
            } else {
                let ident = &segments[segments.len() - 1].ident;
                *ident == String::from_str("AsyncOnceCell") || *ident == String::from_str("OnceCell")
            }
        },
        _ => false,
    }
}

/// What a field is.
pub fn field_kind(field: &FieldDecl) -> (r: FieldKind)
    ensures
        r == kind_of(*field),
{
    if field.index {
        FieldKind::Index
    } else if is_async_once_cell(&field.ty) {
        FieldKind::Lazy
    } else {
        FieldKind::Plain
    }
}

/// What the field `field`, named `name`, gets, given the spelling `alias`
/// of its name in Pascal case. An index gets no alias, whatever is given.
pub fn member<'a>(field: &'a FieldDecl, name: &'a String, alias: String) -> (r: Member<'a>)
    requires
        field.name == Some(*name),
    ensures
        r.name == name,
        r.name_mut@ == name@ + "_mut"@,
        r.kind == kind_of(*field),
        *r.ty == payload_of(*field),
        r.alias == (if kind_of(*field) == FieldKind::Index { None } else { Some(alias) }),
{
    let kind = field_kind(field);
    let ty = match kind {
        FieldKind::Plain => &field.ty,
        _ => get_async_once_cell_ty(&field.ty),
    };
    let name_mut = name.clone().concat("_mut");
    let alias = match kind {
        FieldKind::Index => None,
        _ => Some(alias),
    };
    Member { name, name_mut, alias, kind, ty }
}

/// Whether the member at `position` is a table: a field that
/// transactions write to. Every table, and nothing else, has a member in
/// the log and one in the transaction, is begun on when a transaction
/// begins, commits when the transaction commits, and takes its part of the
/// log when the log is replayed. An index has none of these: it is read
/// through its accessor alone.
pub open spec fn is_table(wiring: Wiring, position: int) -> bool {
    0 <= position < wiring.members@.len() && wiring.members@[position].kind != FieldKind::Index
}

/// The tables of a context: the positions of the members that are not
/// indexes, in the order of the declaration. The log and the transaction
/// have one member for each of them, in this order, and for no other
/// field.
pub fn tables(wiring: &Wiring) -> (r: Vec<usize>)
    ensures
        forall|i: int, j: int| 0 <= i < j < r@.len() ==> r@[i] < r@[j],
        forall|p: usize|
            r@.contains(p) <==> (p < wiring.members@.len() && wiring.members@[p as int].kind
                != FieldKind::Index),
{
    let mut out: Vec<usize> = Vec::new();
    let mut i: usize = 0;
    let ghost keep = |p: usize| is_table(*wiring, p as int);
    while i < wiring.members.len()
        invariant
            i <= wiring.members@.len(),
            forall|p: usize| #[trigger] keep(p) == is_table(*wiring, p as int),
            picks(out@, i as int, keep),
        decreases wiring.members@.len() - i,
    {
        proof {
            lemma_picks_next(out@, i, keep);
        }
        let table = match wiring.members[i].kind {
            FieldKind::Index => false,
            _ => true,
        };
        if table {
            out.push(i);
        }
        i = i + 1;
    }
    proof {
        assert forall|p: usize|
            out@.contains(p) <==> (p < wiring.members@.len() && wiring.members@[p as int].kind
                != FieldKind::Index) by {
            assert(keep(p) == is_table(*wiring, p as int));
        }
    }
    out
}

/// Whether every field up to `upto` has a name.
pub open spec fn all_named(fields: Seq<FieldDecl>, upto: int) -> bool {
    forall|i: int| 0 <= i < upto ==> (#[trigger] fields[i]).name.is_some()
}

/// Whether `wiring` is the wiring of the context named `name` with the
/// fields `fields`.
pub open spec fn is_wiring_of(wiring: Wiring, name: Seq<char>, fields: Seq<FieldDecl>) -> bool {
    &&& wiring.log_name@ == name + "Log"@
    &&& wiring.tables_name@ == name + "Tables"@
    &&& wiring.transaction_name@ == name + "Transaction"@
    &&& wiring.transaction_tables_name@ == name + "TransactionTables"@
    &&& wiring.members@.len() == fields.len()
    &&& forall|i: int| 0 <= i < fields.len() ==> (#[trigger] wiring.members@[i]).is_for(fields[i])
}

/// Works out the wiring of a context from its declaration. A context that
/// is not a struct with named fields is refused, and so is one with a
/// field without a name.
pub fn implement<'a>(decl: &'a ContextDecl) -> (r: Result<Wiring<'a>, Error>)
    ensures
        match decl.fields {
            None => r matches Err(e) && e == Error::NamedFieldsExpected,
            Some(fields) => if all_named(fields@, fields@.len() as int) {
                r matches Ok(wiring) && is_wiring_of(wiring, decl.name@, fields@)
            } else {
                r matches Err(e) && e == Error::UnnamedField
            },
        },
{
    let fields = match &decl.fields {
        Some(fields) => fields,
        None => {
            return Err(Error::NamedFieldsExpected);
        },
    };
    let mut members: Vec<Member<'a>> = Vec::new();
    let mut i: usize = 0;
    while i < fields.len()
        invariant
            i <= fields@.len(),
            decl.fields == Some(*fields),
            all_named(fields@, i as int),
            members@.len() == i,
            forall|j: int| 0 <= j < i ==> (#[trigger] members@[j]).is_for(fields@[j]),
        decreases fields@.len() - i,
    {
        let field = &fields[i];
        let name = match &field.name {
            Some(name) => name,
            None => {
                assert(fields@[i as int].name.is_none());
                return Err(Error::UnnamedField);
            },
        };
        let alias = to_pascal_case(name.as_str());
        members.push(member(field, name, alias));
        i = i + 1;
    }
    Ok(
        Wiring {
            log_name: decl.name.clone().concat("Log"),
            tables_name: decl.name.clone().concat("Tables"),
            transaction_name: decl.name.clone().concat("Transaction"),
            transaction_tables_name: decl.name.clone().concat("TransactionTables"),
            members,
        },
    )
}

} // verus!
