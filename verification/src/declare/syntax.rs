//! Declarations as plain values.

use vstd::prelude::*;

verus! {

/// A type, as far as the rules look at it.
#[derive(Debug)]
pub enum TypeDesc {
    Path(PathDesc),
    Tuple {
        empty: bool,
    },
    Other,
}

/// A type that is named by a path.
#[derive(Debug)]
pub struct PathDesc {
    /// Whether it is a path through a trait, like `<T as Trait>::Name`.
    pub qself: bool,
    pub leading_colon: bool,
    pub segments: Vec<SegmentDesc>,
}

/// One part of a path.
#[derive(Debug)]
pub struct SegmentDesc {
    pub ident: String,
    /// The arguments in angle brackets, if there are any.
    pub args: Option<Vec<ArgDesc>>,
}

/// An argument in angle brackets.
#[derive(Debug)]
pub struct ArgDesc {
    /// The type, where the argument is one.
    pub ty: Option<TypeDesc>,
    /// The argument as it is written.
    pub text: String,
}

/// An action as it is written in an attribute.
#[derive(Debug)]
pub enum ActionDesc {
    Str(String),
    /// An integer, with its value where it is an `i32`.
    Int(String, Option<i32>),
    OtherLit,
    Path(String),
    OtherMeta,
}

/// One item in the brackets of an attribute.
#[derive(Debug)]
pub enum MetaDesc {
    Str(String),
    /// An integer as it is written, with its value where it is an `i32`.
    Int(String, Option<i32>),
    OtherLit,
    /// A path as it is written, and the identifier where it is just that.
    Path(String, Option<String>),
    Other,
}

/// Whether `a` is the action that an item stands for.
pub open spec fn action_read(m: MetaDesc, a: ActionDesc) -> bool {
    match m {
        MetaDesc::Str(s) => a == ActionDesc::Str(s),
        MetaDesc::Int(s, n) => a == ActionDesc::Int(s, n),
        MetaDesc::OtherLit => a == ActionDesc::OtherLit,
        MetaDesc::Path(p, _) => a == ActionDesc::Path(p),
        MetaDesc::Other => a == ActionDesc::OtherMeta,
    }
}

/// The action that an item stands for.
pub fn read_action(m: MetaDesc) -> (r: ActionDesc)
    ensures
        action_read(m, r),
{
    match m {
        MetaDesc::Str(s) => ActionDesc::Str(s),
        MetaDesc::Int(s, n) => ActionDesc::Int(s, n),
        MetaDesc::OtherLit => ActionDesc::OtherLit,
        MetaDesc::Path(p, _) => ActionDesc::Path(p),
        MetaDesc::Other => ActionDesc::OtherMeta,
    }
}

/// Whether `s` is this literal.
pub fn str_is(s: &String, lit: &str) -> (r: bool)
    ensures
        r == (s@ == lit@),
{
    let l: String = lit.to_owned();
    *s == l
}

/// The last part of a path.
pub open spec fn last_segment(ty: TypeDesc) -> Option<SegmentDesc> {
    match ty {
        TypeDesc::Path(p) => if p.segments@.len() > 0 {
            Some(p.segments@.last())
        } else {
            None
        },
        _ => None,
    }
}

/// The last part of a path.
pub fn get_last_segment(ty: &TypeDesc) -> (r: Option<&SegmentDesc>)
    ensures
        match last_segment(*ty) {
            Some(s) => r == Some(&s),
            None => r is None,
        },
{
    match ty {
        TypeDesc::Path(p) => {
            if p.segments.len() > 0 {
                Some(&p.segments[p.segments.len() - 1])
            } else {
                None
            }
        },
        _ => None,
    }
}

/// The first argument in angle brackets, where it is a type.
pub open spec fn first_type(args: Seq<ArgDesc>) -> Option<ArgDesc> {
    if args.len() > 0 && args[0].ty is Some {
        Some(args[0])
    } else {
        None
    }
}

/// The first argument in angle brackets, where it is a type.
pub fn get_first_type(args: &Vec<ArgDesc>) -> (r: Option<&ArgDesc>)
    ensures
        match first_type(args@) {
            Some(a) => r == Some(&a),
            None => r is None,
        },
{
    if args.len() > 0 && args[0].ty.is_some() {
        Some(&args[0])
    } else {
        None
    }
}

} // verus!
