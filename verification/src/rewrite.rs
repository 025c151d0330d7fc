//! Turning a method into a free function: the `self` receiver becomes an argument
//! named `slf`, `Self` in its type becomes the impl's self type, and `self` in the
//! body becomes `slf`.

use vstd::prelude::*;

use crate::env_attr::{copy_segments, Segment, SegmentView};
use crate::syntax::{
    block_eq, copy_opt_string, copy_ty, expr_eq, exprs_eq, generic_arg_eq, generic_args_eq, opt_text, path_args_eq, pat_eq, pats_eq, stmt_eq,
    stmts_eq, ty_eq, ty_list_eq, ty_segment_eq, ty_segments_eq, Block, Expr, FnArg, GenericArg, Pat, PathArgs, Receiver, Stmt,
    Ty, TySegment,
};

verus! {

/// A path that is exactly `Self`.
pub open spec fn is_self_type_path(segments: Seq<TySegment>) -> bool {
    segments.len() == 1 && segments[0].ident@ == "Self"@
}

/// `r` is `t` with every visited `Self` path replaced by `new_ty`. Visited are the
/// element types of references, arrays, groups, parentheses, pointers, slices and
/// tuples, and the type arguments between angle brackets of the segments of other
/// paths; other types, and the other parts of paths, are kept.
pub open spec fn substituted(t: Ty, new_ty: Ty, r: Ty) -> bool
    decreases t,
{
    match t {
        Ty::Path { leading_colon, segments } => if is_self_type_path(segments@) {
            ty_eq(new_ty, r)
        } else {
            r matches Ty::Path { leading_colon: c2, segments: s2 } && c2 == leading_colon
                && substituted_segments(segments@, new_ty, s2@)
        },
        Ty::Reference { lifetime, mutable, elem } => r matches Ty::Reference { lifetime: l2, mutable: m2, elem: e2 }
            && opt_text(l2) == opt_text(lifetime) && m2 == mutable && substituted(*elem, new_ty, *e2),
        Ty::Array { elem, len } => r matches Ty::Array { elem: e2, len: n2 } && n2 == len && substituted(*elem, new_ty, *e2),
        Ty::Group(elem) => r matches Ty::Group(e2) && substituted(*elem, new_ty, *e2),
        Ty::Paren(elem) => r matches Ty::Paren(e2) && substituted(*elem, new_ty, *e2),
        Ty::Ptr { mutable, elem } => r matches Ty::Ptr { mutable: m2, elem: e2 } && m2 == mutable && substituted(*elem, new_ty, *e2),
        Ty::Slice(elem) => r matches Ty::Slice(e2) && substituted(*elem, new_ty, *e2),
        Ty::Tuple(v) => r matches Ty::Tuple(w) && substituted_list(v@, new_ty, w@),
        Ty::Other(h) => r == Ty::Other(h),
    }
}

/// `substituted`, element by element.
pub open spec fn substituted_list(a: Seq<Ty>, new_ty: Ty, b: Seq<Ty>) -> bool
    decreases a,
{
    if a.len() == 0 {
        b.len() == 0
    } else {
        b.len() > 0 && substituted(a[0], new_ty, b[0]) && substituted_list(a.drop_first(), new_ty, b.drop_first())
    }
}

/// `b` is the path segment `a` with `Self` replaced in its type arguments.
pub open spec fn substituted_segment(a: TySegment, new_ty: Ty, b: TySegment) -> bool
    decreases a,
{
    b.ident@ == a.ident@ && substituted_args(a.arguments, new_ty, b.arguments)
}

/// `substituted_segment`, element by element.
pub open spec fn substituted_segments(a: Seq<TySegment>, new_ty: Ty, b: Seq<TySegment>) -> bool
    decreases a,
{
    if a.len() == 0 {
        b.len() == 0
    } else {
        b.len() > 0 && substituted_segment(a[0], new_ty, b[0]) && substituted_segments(a.drop_first(), new_ty, b.drop_first())
    }
}

/// `b` is the generic arguments `a` with `Self` replaced in the type arguments between
/// angle brackets; parenthesized arguments are kept.
pub open spec fn substituted_args(a: PathArgs, new_ty: Ty, b: PathArgs) -> bool
    decreases a,
{
    match a {
        PathArgs::Bare => b is Bare,
        PathArgs::Angle { turbofish, args } => b matches PathArgs::Angle { turbofish: t2, args: a2 }
            && t2 == turbofish && substituted_generic_args(args@, new_ty, a2@),
        PathArgs::Parenthesized(h) => b == PathArgs::Parenthesized(h),
    }
}

/// `b` is the generic argument `a` with `Self` replaced when it is a type.
pub open spec fn substituted_generic_arg(a: GenericArg, new_ty: Ty, b: GenericArg) -> bool
    decreases a,
{
    match a {
        GenericArg::Type(t) => b matches GenericArg::Type(t2) && substituted(t, new_ty, t2),
        GenericArg::Other(h) => b == GenericArg::Other(h),
    }
}

/// `substituted_generic_arg`, element by element.
pub open spec fn substituted_generic_args(a: Seq<GenericArg>, new_ty: Ty, b: Seq<GenericArg>) -> bool
    decreases a,
{
    if a.len() == 0 {
        b.len() == 0
    } else {
        b.len() > 0 && substituted_generic_arg(a[0], new_ty, b[0])
            && substituted_generic_args(a.drop_first(), new_ty, b.drop_first())
    }
}

/// No visited position of `t` is the path `Self`.
pub open spec fn no_self_ty(t: Ty) -> bool
    decreases t,
{
    match t {
        Ty::Path { segments, .. } => !is_self_type_path(segments@) && no_self_segments(segments@),
        Ty::Reference { elem, .. } => no_self_ty(*elem),
        Ty::Array { elem, .. } => no_self_ty(*elem),
        Ty::Group(elem) => no_self_ty(*elem),
        Ty::Paren(elem) => no_self_ty(*elem),
        Ty::Ptr { elem, .. } => no_self_ty(*elem),
        Ty::Slice(elem) => no_self_ty(*elem),
        Ty::Tuple(v) => no_self_ty_list(v@),
        Ty::Other(_) => true,
    }
}

/// `no_self_ty` of every element.
pub open spec fn no_self_ty_list(a: Seq<Ty>) -> bool
    decreases a,
{
    a.len() == 0 || (no_self_ty(a[0]) && no_self_ty_list(a.drop_first()))
}

/// No type argument of the segments holds `Self` at a visited position.
pub open spec fn no_self_segments(a: Seq<TySegment>) -> bool
    decreases a,
{
    a.len() == 0 || (no_self_args(a[0].arguments) && no_self_segments(a.drop_first()))
}

/// No type argument between angle brackets holds `Self` at a visited position.
pub open spec fn no_self_args(a: PathArgs) -> bool
    decreases a,
{
    match a {
        PathArgs::Angle { args, .. } => no_self_generic_args(args@),
        _ => true,
    }
}

/// No type among the generic arguments holds `Self` at a visited position.
pub open spec fn no_self_generic_args(a: Seq<GenericArg>) -> bool
    decreases a,
{
    a.len() == 0 || ((match a[0] {
        GenericArg::Type(t) => no_self_ty(t),
        GenericArg::Other(_) => true,
    }) && no_self_generic_args(a.drop_first()))
}

proof fn lemma_substituted_list(a: Seq<Ty>, new_ty: Ty, b: Seq<Ty>)
    ensures
        substituted_list(a, new_ty, b) <==> (a.len() == b.len() && forall|i: int|
            0 <= i < a.len() ==> #[trigger] substituted(a[i], new_ty, b[i])),
    decreases a.len(),
{
    if a.len() > 0 && b.len() > 0 {
        lemma_substituted_list(a.drop_first(), new_ty, b.drop_first());
        if a.len() == b.len() && forall|i: int| 0 <= i < a.len() ==> #[trigger] substituted(a[i], new_ty, b[i]) {
            assert forall|i: int| 0 <= i < a.drop_first().len() implies #[trigger] substituted(
                a.drop_first()[i],
                new_ty,
                b.drop_first()[i],
            ) by {
                assert(substituted(a[i + 1], new_ty, b[i + 1]));
            }
            assert(substituted(a[0], new_ty, b[0]));
        }
        if substituted_list(a, new_ty, b) {
            assert forall|i: int| 0 <= i < a.len() implies #[trigger] substituted(a[i], new_ty, b[i]) by {
                if i > 0 {
                    assert(substituted(a.drop_first()[i - 1], new_ty, b.drop_first()[i - 1]));
                }
            }
        }
    }
}

proof fn lemma_substituted_segments(a: Seq<TySegment>, new_ty: Ty, b: Seq<TySegment>)
    ensures
        substituted_segments(a, new_ty, b) <==> (a.len() == b.len() && forall|i: int|
            0 <= i < a.len() ==> #[trigger] substituted_segment(a[i], new_ty, b[i])),
    decreases a.len(),
{
    if a.len() > 0 && b.len() > 0 {
        lemma_substituted_segments(a.drop_first(), new_ty, b.drop_first());
        if a.len() == b.len() && forall|i: int| 0 <= i < a.len() ==> #[trigger] substituted_segment(a[i], new_ty, b[i]) {
            assert forall|i: int| 0 <= i < a.drop_first().len() implies #[trigger] substituted_segment(
                a.drop_first()[i],
                new_ty,
                b.drop_first()[i],
            ) by {
                assert(substituted_segment(a[i + 1], new_ty, b[i + 1]));
            }
            assert(substituted_segment(a[0], new_ty, b[0]));
        }
        if substituted_segments(a, new_ty, b) {
            assert forall|i: int| 0 <= i < a.len() implies #[trigger] substituted_segment(a[i], new_ty, b[i]) by {
                if i > 0 {
                    assert(substituted_segment(a.drop_first()[i - 1], new_ty, b.drop_first()[i - 1]));
                }
            }
        }
    }
}

proof fn lemma_substituted_generic_args(a: Seq<GenericArg>, new_ty: Ty, b: Seq<GenericArg>)
    ensures
        substituted_generic_args(a, new_ty, b) <==> (a.len() == b.len() && forall|i: int|
            0 <= i < a.len() ==> #[trigger] substituted_generic_arg(a[i], new_ty, b[i])),
    decreases a.len(),
{
    if a.len() > 0 && b.len() > 0 {
        lemma_substituted_generic_args(a.drop_first(), new_ty, b.drop_first());
        if a.len() == b.len() && forall|i: int| 0 <= i < a.len() ==> #[trigger] substituted_generic_arg(a[i], new_ty, b[i]) {
            assert forall|i: int| 0 <= i < a.drop_first().len() implies #[trigger] substituted_generic_arg(
                a.drop_first()[i],
                new_ty,
                b.drop_first()[i],
            ) by {
                assert(substituted_generic_arg(a[i + 1], new_ty, b[i + 1]));
            }
            assert(substituted_generic_arg(a[0], new_ty, b[0]));
        }
        if substituted_generic_args(a, new_ty, b) {
            assert forall|i: int| 0 <= i < a.len() implies #[trigger] substituted_generic_arg(a[i], new_ty, b[i]) by {
                if i > 0 {
                    assert(substituted_generic_arg(a.drop_first()[i - 1], new_ty, b.drop_first()[i - 1]));
                }
            }
        }
    }
}

/// `t` with every visited `Self` path replaced by a copy of `new_ty`.
pub fn substitute_self(t: &Ty, new_ty: &Ty) -> (res: Ty)
    ensures
        substituted(*t, *new_ty, res),
    decreases t,
{
    match t {
        Ty::Path { leading_colon, segments } => {
            if segments.len() == 1 && segments[0].ident == "Self".to_owned() {
                copy_ty(new_ty)
            } else {
                Ty::Path { leading_colon: *leading_colon, segments: substitute_self_segments(segments, new_ty) }
            }
        },
        Ty::Reference { lifetime, mutable, elem } => Ty::Reference {
            lifetime: copy_opt_string(lifetime),
            mutable: *mutable,
            elem: Box::new(substitute_self(elem, new_ty)),
        },
        Ty::Array { elem, len } => Ty::Array { elem: Box::new(substitute_self(elem, new_ty)), len: *len },
        Ty::Group(elem) => Ty::Group(Box::new(substitute_self(elem, new_ty))),
        Ty::Paren(elem) => Ty::Paren(Box::new(substitute_self(elem, new_ty))),
        Ty::Ptr { mutable, elem } => Ty::Ptr { mutable: *mutable, elem: Box::new(substitute_self(elem, new_ty)) },
        Ty::Slice(elem) => Ty::Slice(Box::new(substitute_self(elem, new_ty))),
        Ty::Tuple(v) => Ty::Tuple(substitute_self_list(v, new_ty)),
        Ty::Other(h) => Ty::Other(*h),
    }
}

/// `substitute_self` of every element.
pub fn substitute_self_list(v: &Vec<Ty>, new_ty: &Ty) -> (res: Vec<Ty>)
    ensures
        substituted_list(v@, *new_ty, res@),
    decreases v,
{
    let mut out: Vec<Ty> = Vec::new();
    let mut i: usize = 0;
    while i < v.len()
        invariant
            0 <= i <= v.len(),
            out@.len() == i,
            forall|k: int| 0 <= k < i ==> #[trigger] substituted(v@[k], *new_ty, out@[k]),
        decreases v.len() - i,
    {
        proof {
            assert(decreases_to!(v => v@));
            assert(decreases_to!(v@ => v@[i as int]));
        }
        out.push(substitute_self(&v[i], new_ty));
        i += 1;
    }
    proof {
        lemma_substituted_list(v@, *new_ty, out@);
    }
    out
}

/// The segments of a path with `Self` replaced in their type arguments.
fn substitute_self_segments(v: &Vec<TySegment>, new_ty: &Ty) -> (res: Vec<TySegment>)
    ensures
        substituted_segments(v@, *new_ty, res@),
    decreases v,
{
    let mut out: Vec<TySegment> = Vec::new();
    let mut i: usize = 0;
    while i < v.len()
        invariant
            0 <= i <= v.len(),
            out@.len() == i,
            forall|k: int| 0 <= k < i ==> #[trigger] substituted_segment(v@[k], *new_ty, out@[k]),
        decreases v.len() - i,
    {
        proof {
            assert(decreases_to!(v => v@));
            assert(decreases_to!(v@ => v@[i as int]));
            assert(decreases_to!(v@[i as int] => v@[i as int].arguments));
        }
        let arguments = substitute_self_args(&v[i].arguments, new_ty);
        out.push(TySegment { ident: v[i].ident.clone(), arguments });
        i += 1;
    }
    proof {
        lemma_substituted_segments(v@, *new_ty, out@);
    }
    out
}

/// The generic arguments of a segment with `Self` replaced in their types.
fn substitute_self_args(a: &PathArgs, new_ty: &Ty) -> (res: PathArgs)
    ensures
        substituted_args(*a, *new_ty, res),
    decreases a,
{
    match a {
        PathArgs::Bare => PathArgs::Bare,
        PathArgs::Angle { turbofish, args } => PathArgs::Angle {
            turbofish: *turbofish,
            args: substitute_self_generic_args(args, new_ty),
        },
        PathArgs::Parenthesized(h) => PathArgs::Parenthesized(*h),
    }
}

/// Generic arguments with `Self` replaced in those that are types.
fn substitute_self_generic_args(v: &Vec<GenericArg>, new_ty: &Ty) -> (res: Vec<GenericArg>)
    ensures
        substituted_generic_args(v@, *new_ty, res@),
    decreases v,
{
    let mut out: Vec<GenericArg> = Vec::new();
    let mut i: usize = 0;
    while i < v.len()
        invariant
            0 <= i <= v.len(),
            out@.len() == i,
            forall|k: int| 0 <= k < i ==> #[trigger] substituted_generic_arg(v@[k], *new_ty, out@[k]),
        decreases v.len() - i,
    {
        proof {
            assert(decreases_to!(v => v@));
            assert(decreases_to!(v@ => v@[i as int]));
        }
        let arg = match &v[i] {
            GenericArg::Type(t) => GenericArg::Type(substitute_self(t, new_ty)),
            GenericArg::Other(h) => GenericArg::Other(*h),
        };
        out.push(arg);
        i += 1;
    }
    proof {
        lemma_substituted_generic_args(v@, *new_ty, out@);
    }
    out
}

proof fn lemma_ty_eq_no_self(a: Ty, b: Ty)
    requires
        ty_eq(a, b),
    ensures
        no_self_ty(a) == no_self_ty(b),
    decreases a,
{
    match (a, b) {
        (Ty::Path { segments: s1, .. }, Ty::Path { segments: s2, .. }) => {
            assert(ty_segments_eq(s1@, s2@));
            lemma_segments_eq_no_self(s1@, s2@);
            if s1@.len() == 1 {
                assert(ty_segment_eq(s1@[0], s2@[0]));
            }
        },
        (Ty::Reference { elem: e1, .. }, Ty::Reference { elem: e2, .. }) => lemma_ty_eq_no_self(*e1, *e2),
        (Ty::Array { elem: e1, .. }, Ty::Array { elem: e2, .. }) => lemma_ty_eq_no_self(*e1, *e2),
        (Ty::Group(e1), Ty::Group(e2)) => lemma_ty_eq_no_self(*e1, *e2),
        (Ty::Paren(e1), Ty::Paren(e2)) => lemma_ty_eq_no_self(*e1, *e2),
        (Ty::Ptr { elem: e1, .. }, Ty::Ptr { elem: e2, .. }) => lemma_ty_eq_no_self(*e1, *e2),
        (Ty::Slice(e1), Ty::Slice(e2)) => lemma_ty_eq_no_self(*e1, *e2),
        (Ty::Tuple(v1), Ty::Tuple(v2)) => lemma_ty_list_eq_no_self(v1@, v2@),
        _ => {},
    }
}

proof fn lemma_ty_list_eq_no_self(a: Seq<Ty>, b: Seq<Ty>)
    requires
        ty_list_eq(a, b),
    ensures
        no_self_ty_list(a) == no_self_ty_list(b),
    decreases a,
{
    if a.len() > 0 {
        lemma_ty_eq_no_self(a[0], b[0]);
        lemma_ty_list_eq_no_self(a.drop_first(), b.drop_first());
    }
}

proof fn lemma_segments_eq_no_self(a: Seq<TySegment>, b: Seq<TySegment>)
    requires
        ty_segments_eq(a, b),
    ensures
        a.len() == b.len(),
        no_self_segments(a) == no_self_segments(b),
    decreases a,
{
    if a.len() > 0 {
        assert(ty_segment_eq(a[0], b[0]));
        lemma_args_eq_no_self(a[0].arguments, b[0].arguments);
        lemma_segments_eq_no_self(a.drop_first(), b.drop_first());
    }
}

proof fn lemma_args_eq_no_self(a: PathArgs, b: PathArgs)
    requires
        path_args_eq(a, b),
    ensures
        no_self_args(a) == no_self_args(b),
    decreases a,
{
    match a {
        PathArgs::Angle { args, .. } => lemma_generic_args_eq_no_self(args@, b->Angle_args@),
        _ => {},
    }
}

proof fn lemma_generic_args_eq_no_self(a: Seq<GenericArg>, b: Seq<GenericArg>)
    requires
        generic_args_eq(a, b),
    ensures
        no_self_generic_args(a) == no_self_generic_args(b),
    decreases a,
{
    if a.len() > 0 {
        assert(generic_arg_eq(a[0], b[0]));
        match a[0] {
            GenericArg::Type(t) => lemma_ty_eq_no_self(t, b[0]->Type_0),
            GenericArg::Other(_) => {},
        }
        lemma_generic_args_eq_no_self(a.drop_first(), b.drop_first());
    }
}

/// When the new type has no `Self`, no `Self` is left after the substitution.
pub proof fn substitute_leaves_no_self(t: Ty, new_ty: Ty, r: Ty)
    requires
        no_self_ty(new_ty),
        substituted(t, new_ty, r),
    ensures
        no_self_ty(r),
    decreases t,
{
    match t {
        Ty::Path { segments, .. } => {
            if is_self_type_path(segments@) {
                lemma_ty_eq_no_self(new_ty, r);
            } else {
                let s2 = r->Path_segments@;
                assert(substituted_segments(segments@, new_ty, s2));
                substitute_segments_leave_no_self(segments@, new_ty, s2);
                if segments@.len() == 1 {
                    assert(substituted_segment(segments@[0], new_ty, s2[0]));
                }
            }
        },
        Ty::Reference { elem, .. } => substitute_leaves_no_self(*elem, new_ty, *r->Reference_elem),
        Ty::Array { elem, .. } => substitute_leaves_no_self(*elem, new_ty, *r->Array_elem),
        Ty::Group(elem) => substitute_leaves_no_self(*elem, new_ty, *r->Group_0),
        Ty::Paren(elem) => substitute_leaves_no_self(*elem, new_ty, *r->Paren_0),
        Ty::Ptr { elem, .. } => substitute_leaves_no_self(*elem, new_ty, *r->Ptr_elem),
        Ty::Slice(elem) => substitute_leaves_no_self(*elem, new_ty, *r->Slice_0),
        Ty::Tuple(v) => substitute_list_leaves_no_self(v@, new_ty, r->Tuple_0@),
        Ty::Other(_) => {},
    }
}

proof fn substitute_list_leaves_no_self(a: Seq<Ty>, new_ty: Ty, b: Seq<Ty>)
    requires
        no_self_ty(new_ty),
        substituted_list(a, new_ty, b),
    ensures
        no_self_ty_list(b),
    decreases a,
{
    if a.len() > 0 {
        substitute_leaves_no_self(a[0], new_ty, b[0]);
        substitute_list_leaves_no_self(a.drop_first(), new_ty, b.drop_first());
    }
}

proof fn substitute_segments_leave_no_self(a: Seq<TySegment>, new_ty: Ty, b: Seq<TySegment>)
    requires
        no_self_ty(new_ty),
        substituted_segments(a, new_ty, b),
    ensures
        a.len() == b.len(),
        no_self_segments(b),
    decreases a,
{
    if a.len() > 0 {
        assert(substituted_segment(a[0], new_ty, b[0]));
        substitute_args_leave_no_self(a[0].arguments, new_ty, b[0].arguments);
        substitute_segments_leave_no_self(a.drop_first(), new_ty, b.drop_first());
    }
}

proof fn substitute_args_leave_no_self(a: PathArgs, new_ty: Ty, b: PathArgs)
    requires
        no_self_ty(new_ty),
        substituted_args(a, new_ty, b),
    ensures
        no_self_args(b),
    decreases a,
{
    match a {
        PathArgs::Angle { args, .. } => substitute_generic_args_leave_no_self(args@, new_ty, b->Angle_args@),
        _ => {},
    }
}

proof fn substitute_generic_args_leave_no_self(a: Seq<GenericArg>, new_ty: Ty, b: Seq<GenericArg>)
    requires
        no_self_ty(new_ty),
        substituted_generic_args(a, new_ty, b),
    ensures
        no_self_generic_args(b),
    decreases a,
{
    if a.len() > 0 {
        assert(substituted_generic_arg(a[0], new_ty, b[0]));
        match a[0] {
            GenericArg::Type(t) => substitute_leaves_no_self(t, new_ty, b[0]->Type_0),
            GenericArg::Other(_) => {},
        }
        substitute_generic_args_leave_no_self(a.drop_first(), new_ty, b.drop_first());
    }
}

/// A type without `Self` comes out of the substitution unchanged.
pub proof fn substitute_without_self_is_copy(t: Ty, new_ty: Ty, r: Ty)
    requires
        no_self_ty(t),
        substituted(t, new_ty, r),
    ensures
        ty_eq(t, r),
    decreases t,
{
    match t {
        Ty::Path { segments, .. } => substitute_segments_without_self_copy(segments@, new_ty, r->Path_segments@),
        Ty::Reference { elem, .. } => substitute_without_self_is_copy(*elem, new_ty, *r->Reference_elem),
        Ty::Array { elem, .. } => substitute_without_self_is_copy(*elem, new_ty, *r->Array_elem),
        Ty::Group(elem) => substitute_without_self_is_copy(*elem, new_ty, *r->Group_0),
        Ty::Paren(elem) => substitute_without_self_is_copy(*elem, new_ty, *r->Paren_0),
        Ty::Ptr { elem, .. } => substitute_without_self_is_copy(*elem, new_ty, *r->Ptr_elem),
        Ty::Slice(elem) => substitute_without_self_is_copy(*elem, new_ty, *r->Slice_0),
        Ty::Tuple(v) => substitute_list_without_self_is_copy(v@, new_ty, r->Tuple_0@),
        _ => {},
    }
}

proof fn substitute_list_without_self_is_copy(a: Seq<Ty>, new_ty: Ty, b: Seq<Ty>)
    requires
        no_self_ty_list(a),
        substituted_list(a, new_ty, b),
    ensures
        ty_list_eq(a, b),
    decreases a,
{
    if a.len() > 0 {
        substitute_without_self_is_copy(a[0], new_ty, b[0]);
        substitute_list_without_self_is_copy(a.drop_first(), new_ty, b.drop_first());
    }
}

proof fn substitute_segments_without_self_copy(a: Seq<TySegment>, new_ty: Ty, b: Seq<TySegment>)
    requires
        no_self_segments(a),
        substituted_segments(a, new_ty, b),
    ensures
        ty_segments_eq(a, b),
    decreases a,
{
    if a.len() > 0 {
        assert(substituted_segment(a[0], new_ty, b[0]));
        substitute_args_without_self_copy(a[0].arguments, new_ty, b[0].arguments);
        substitute_segments_without_self_copy(a.drop_first(), new_ty, b.drop_first());
        assert(ty_segment_eq(a[0], b[0]));
    }
}

proof fn substitute_args_without_self_copy(a: PathArgs, new_ty: Ty, b: PathArgs)
    requires
        no_self_args(a),
        substituted_args(a, new_ty, b),
    ensures
        path_args_eq(a, b),
    decreases a,
{
    match a {
        PathArgs::Angle { args, .. } => substitute_generic_args_without_self_copy(args@, new_ty, b->Angle_args@),
        _ => {},
    }
}

proof fn substitute_generic_args_without_self_copy(a: Seq<GenericArg>, new_ty: Ty, b: Seq<GenericArg>)
    requires
        no_self_generic_args(a),
        substituted_generic_args(a, new_ty, b),
    ensures
        generic_args_eq(a, b),
    decreases a,
{
    if a.len() > 0 {
        assert(substituted_generic_arg(a[0], new_ty, b[0]));
        match a[0] {
            GenericArg::Type(t) => substitute_without_self_is_copy(t, new_ty, b[0]->Type_0),
            GenericArg::Other(_) => {},
        }
        substitute_generic_args_without_self_copy(a.drop_first(), new_ty, b.drop_first());
        assert(generic_arg_eq(a[0], b[0]));
    }
}

/// Substituting a second time changes nothing, when the new type has no `Self`.
pub proof fn substitute_is_idempotent(t: Ty, new_ty: Ty, r: Ty, r2: Ty)
    requires
        no_self_ty(new_ty),
        substituted(t, new_ty, r),
        substituted(r, new_ty, r2),
    ensures
        ty_eq(r, r2),
{
    substitute_leaves_no_self(t, new_ty, r);
    substitute_without_self_is_copy(r, new_ty, r2);
}

/// `r` is the type that the argument replacing the receiver `recv` gets: the written
/// type with `Self` replaced, else a reference to the self type for `&self`-like
/// receivers, else the self type.
pub open spec fn receiver_type(recv: Receiver, self_ty: Ty, r: Ty) -> bool {
    match recv.explicit_ty {
        Some(t) => substituted(t, self_ty, r),
        None => match recv.reference {
            Some(lifetime) => r matches Ty::Reference { lifetime: l2, mutable: m2, elem }
                && opt_text(l2) == opt_text(lifetime) && m2 == recv.mutable && ty_eq(self_ty, *elem),
            None => ty_eq(self_ty, r),
        },
    }
}

/// `arg` is the argument `slf: <type>` that replaces the receiver `recv`; it is
/// `mut slf` when the receiver was `mut self`.
pub open spec fn replaces_receiver(arg: FnArg, recv: Receiver, self_ty: Ty) -> bool {
    match arg {
        FnArg::Typed { attrs, pat, ty } => {
            &&& attrs@.len() == 0
            &&& receiver_type(recv, self_ty, ty)
            &&& match pat {
                Pat::Ident { by_ref, mutable, ident, subpat } => {
                    &&& !by_ref
                    &&& mutable == (recv.mutable && recv.reference is None)
                    &&& ident@ == "slf"@
                    &&& subpat is None
                },
                _ => false,
            }
        },
        _ => false,
    }
}

/// Replaces a leading `self` receiver of `args` by an argument `slf` of the self type,
/// and gives back the new argument's name; leaves `args` alone and gives back `None`
/// when they do not start with a receiver. With `T` the self type:
/// `self` becomes `slf: T`, `mut self` becomes `mut slf: T`, `&'a mut self` becomes
/// `slf: &'a mut T`, and `self: Arc<Self>` becomes `slf: Arc<T>`.
pub fn swap_self_receiver(self_ty: &Ty, args: &mut Vec<FnArg>) -> (res: Option<String>)
    ensures
        !(old(args)@.len() > 0 && old(args)@[0] is Receiver) ==> res is None && final(args)@ == old(args)@,
        old(args)@.len() > 0 && old(args)@[0] is Receiver ==> {
            &&& res matches Some(name) && name@ == "slf"@
            &&& final(args)@.len() == old(args)@.len()
            &&& final(args)@.drop_first() == old(args)@.drop_first()
            &&& replaces_receiver(final(args)@[0], old(args)@[0]->Receiver_0, *self_ty)
        },
{
    if args.len() == 0 {
        return None;
    }
    let new_arg = match &args[0] {
        FnArg::Receiver(recv) => {
            let ty = match &recv.explicit_ty {
                Some(t) => substitute_self(t, self_ty),
                None => match &recv.reference {
                    Some(lifetime) => Ty::Reference {
                        lifetime: copy_opt_string(lifetime),
                        mutable: recv.mutable,
                        elem: Box::new(copy_ty(self_ty)),
                    },
                    None => copy_ty(self_ty),
                },
            };
            let pat = Pat::Ident {
                by_ref: false,
                mutable: recv.mutable && recv.reference.is_none(),
                ident: "slf".to_owned(),
                subpat: None,
            };
            FnArg::Typed { attrs: Vec::new(), pat, ty }
        },
        FnArg::Typed { .. } => {
            return None;
        },
    };
    let ghost before = args@;
    args.set(0, new_arg);
    assert(args@.drop_first() =~= before.drop_first());
    Some("slf".to_owned())
}

/// The identifier that `self` becomes.
pub open spec fn renamed_ident(ident: Seq<char>) -> Seq<char> {
    if ident == "self"@ {
        "slf"@
    } else {
        ident
    }
}

/// Whether a path expression is exactly `self`.
pub open spec fn is_self_value_path(qualified: bool, segments: Seq<SegmentView>) -> bool {
    !qualified && segments.len() == 1 && segments[0].0 == "self"@
}

/// The segments of a path expression after renaming: `self` becomes `slf`.
pub open spec fn renamed_path(qualified: bool, segments: Seq<SegmentView>) -> Seq<SegmentView> {
    if is_self_value_path(qualified, segments) {
        seq![("slf"@, segments[0].1)]
    } else {
        segments
    }
}

/// `b` is the pattern `a` with the identifier `self` renamed to `slf` wherever the
/// renaming looks: identifier patterns, and the parts of tuple, slice, reference and
/// or-patterns.
pub open spec fn renamed_pat(a: Pat, b: Pat) -> bool
    decreases a,
{
    match a {
        Pat::Ident { by_ref, mutable, ident, subpat } => match b {
            Pat::Ident { by_ref: r2, mutable: m2, ident: i2, subpat: s2 } =>
                r2 == by_ref && m2 == mutable && s2 == subpat && i2@ == renamed_ident(ident@),
            _ => false,
        },
        Pat::Tuple(v) => b matches Pat::Tuple(w) && renamed_pats(v@, w@),
        Pat::Slice(v) => b matches Pat::Slice(w) && renamed_pats(v@, w@),
        Pat::Reference { mutable, pat } => b matches Pat::Reference { mutable: m2, pat: p2 } && m2 == mutable
            && renamed_pat(*pat, *p2),
        Pat::Or(v) => b matches Pat::Or(w) && renamed_pats(v@, w@),
        Pat::Other(h) => b == Pat::Other(h),
    }
}

/// `renamed_pat`, element by element.
pub open spec fn renamed_pats(a: Seq<Pat>, b: Seq<Pat>) -> bool
    decreases a,
{
    if a.len() == 0 {
        b.len() == 0
    } else {
        b.len() > 0 && renamed_pat(a[0], b[0]) && renamed_pats(a.drop_first(), b.drop_first())
    }
}

/// `b` is the expression `a` with `self` renamed to `slf` wherever the renaming looks.
pub open spec fn renamed_expr(a: Expr, b: Expr) -> bool
    decreases a,
{
    match a {
        Expr::Path { qualified, segments } => match b {
            Expr::Path { qualified: q2, segments: s2 } =>
                q2 == qualified && s2.deep_view() == renamed_path(qualified, segments.deep_view()),
            _ => false,
        },
        Expr::MethodCall { receiver, args } => match b {
            Expr::MethodCall { receiver: r2, args: a2 } => renamed_expr(*receiver, *r2) && renamed_exprs(args@, a2@),
            _ => false,
        },
        Expr::Field { base } => b matches Expr::Field { base: b2 } && renamed_expr(*base, *b2),
        Expr::Call { func, args } => match b {
            Expr::Call { func: f2, args: a2 } => renamed_expr(*func, *f2) && renamed_exprs(args@, a2@),
            _ => false,
        },
        Expr::Block(block) => b matches Expr::Block(b2) && renamed_block(block, b2),
        Expr::If { cond, then_branch, else_branch } => match b {
            Expr::If { cond: c2, then_branch: t2, else_branch: e2 } => {
                &&& renamed_expr(*cond, *c2)
                &&& renamed_block(then_branch, t2)
                &&& match else_branch {
                    Some(x) => e2 matches Some(y) && renamed_expr(*x, *y),
                    None => e2 is None,
                }
            },
            _ => false,
        },
        Expr::Match { scrutinee, arms } => match b {
            Expr::Match { scrutinee: s2, arms: a2 } => renamed_expr(*scrutinee, *s2) && renamed_exprs(arms@, a2@),
            _ => false,
        },
        Expr::While { cond, body } => match b {
            Expr::While { cond: c2, body: b2 } => renamed_expr(*cond, *c2) && renamed_block(body, b2),
            _ => false,
        },
        Expr::Loop(body) => b matches Expr::Loop(b2) && renamed_block(body, b2),
        Expr::ForLoop { iterable, body } => match b {
            Expr::ForLoop { iterable: i2, body: b2 } => renamed_expr(*iterable, *i2) && renamed_block(body, b2),
            _ => false,
        },
        Expr::Unary(e) => b matches Expr::Unary(e2) && renamed_expr(*e, *e2),
        Expr::Paren(e) => b matches Expr::Paren(e2) && renamed_expr(*e, *e2),
        Expr::Reference(e) => b matches Expr::Reference(e2) && renamed_expr(*e, *e2),
        Expr::Return(o) => match o {
            Some(e) => b matches Expr::Return(Some(e2)) && renamed_expr(*e, *e2),
            None => b matches Expr::Return(None),
        },
        Expr::Await(e) => b matches Expr::Await(e2) && renamed_expr(*e, *e2),
        Expr::Try(e) => b matches Expr::Try(e2) && renamed_expr(*e, *e2),
        Expr::Closure(e) => b matches Expr::Closure(e2) && renamed_expr(*e, *e2),
        Expr::Other => b is Other,
    }
}

/// `renamed_expr`, element by element.
pub open spec fn renamed_exprs(a: Seq<Expr>, b: Seq<Expr>) -> bool
    decreases a,
{
    if a.len() == 0 {
        b.len() == 0
    } else {
        b.len() > 0 && renamed_expr(a[0], b[0]) && renamed_exprs(a.drop_first(), b.drop_first())
    }
}

/// `b` is the statement `a` with `self` renamed to `slf` in the pattern and initializer
/// of a `let` and in an expression statement.
pub open spec fn renamed_stmt(a: Stmt, b: Stmt) -> bool
    decreases a,
{
    match a {
        Stmt::Local { pat, init } => match b {
            Stmt::Local { pat: p2, init: i2 } => {
                &&& renamed_pat(pat, p2)
                &&& match init {
                    Some(x) => i2 matches Some(y) && renamed_expr(x, y),
                    None => i2 is None,
                }
            },
            _ => false,
        },
        Stmt::Item => b is Item,
        Stmt::Expr { expr, semi } => match b {
            Stmt::Expr { expr: e2, semi: s2 } => s2 == semi && renamed_expr(expr, e2),
            _ => false,
        },
        Stmt::Macro => b is Macro,
    }
}

/// `renamed_stmt`, element by element.
pub open spec fn renamed_stmts(a: Seq<Stmt>, b: Seq<Stmt>) -> bool
    decreases a,
{
    if a.len() == 0 {
        b.len() == 0
    } else {
        b.len() > 0 && renamed_stmt(a[0], b[0]) && renamed_stmts(a.drop_first(), b.drop_first())
    }
}

/// `b` is the block `a` with `self` renamed to `slf` in its statements.
pub open spec fn renamed_block(a: Block, b: Block) -> bool
    decreases a,
{
    b.origin == a.origin && renamed_stmts(a.stmts@, b.stmts@)
}

proof fn lemma_renamed_pats(a: Seq<Pat>, b: Seq<Pat>)
    ensures
        renamed_pats(a, b) <==> (a.len() == b.len() && forall|i: int| 0 <= i < a.len() ==> #[trigger] renamed_pat(a[i], b[i])),
    decreases a.len(),
{
    if a.len() > 0 && b.len() > 0 {
        lemma_renamed_pats(a.drop_first(), b.drop_first());
        if a.len() == b.len() && forall|i: int| 0 <= i < a.len() ==> #[trigger] renamed_pat(a[i], b[i]) {
            assert forall|i: int| 0 <= i < a.drop_first().len() implies #[trigger] renamed_pat(a.drop_first()[i], b.drop_first()[i]) by {
                assert(renamed_pat(a[i + 1], b[i + 1]));
            }
            assert(renamed_pat(a[0], b[0]));
        }
        if renamed_pats(a, b) {
            assert forall|i: int| 0 <= i < a.len() implies #[trigger] renamed_pat(a[i], b[i]) by {
                if i > 0 {
                    assert(renamed_pat(a.drop_first()[i - 1], b.drop_first()[i - 1]));
                }
            }
        }
    }
}

proof fn lemma_renamed_exprs(a: Seq<Expr>, b: Seq<Expr>)
    ensures
        renamed_exprs(a, b) <==> (a.len() == b.len() && forall|i: int| 0 <= i < a.len() ==> #[trigger] renamed_expr(a[i], b[i])),
    decreases a.len(),
{
    if a.len() > 0 && b.len() > 0 {
        lemma_renamed_exprs(a.drop_first(), b.drop_first());
        if a.len() == b.len() && forall|i: int| 0 <= i < a.len() ==> #[trigger] renamed_expr(a[i], b[i]) {
            assert forall|i: int| 0 <= i < a.drop_first().len() implies #[trigger] renamed_expr(a.drop_first()[i], b.drop_first()[i]) by {
                assert(renamed_expr(a[i + 1], b[i + 1]));
            }
            assert(renamed_expr(a[0], b[0]));
        }
        if renamed_exprs(a, b) {
            assert forall|i: int| 0 <= i < a.len() implies #[trigger] renamed_expr(a[i], b[i]) by {
                if i > 0 {
                    assert(renamed_expr(a.drop_first()[i - 1], b.drop_first()[i - 1]));
                }
            }
        }
    }
}

proof fn lemma_renamed_stmts(a: Seq<Stmt>, b: Seq<Stmt>)
    ensures
        renamed_stmts(a, b) <==> (a.len() == b.len() && forall|i: int| 0 <= i < a.len() ==> #[trigger] renamed_stmt(a[i], b[i])),
    decreases a.len(),
{
    if a.len() > 0 && b.len() > 0 {
        lemma_renamed_stmts(a.drop_first(), b.drop_first());
        if a.len() == b.len() && forall|i: int| 0 <= i < a.len() ==> #[trigger] renamed_stmt(a[i], b[i]) {
            assert forall|i: int| 0 <= i < a.drop_first().len() implies #[trigger] renamed_stmt(a.drop_first()[i], b.drop_first()[i]) by {
                assert(renamed_stmt(a[i + 1], b[i + 1]));
            }
            assert(renamed_stmt(a[0], b[0]));
        }
        if renamed_stmts(a, b) {
            assert forall|i: int| 0 <= i < a.len() implies #[trigger] renamed_stmt(a[i], b[i]) by {
                if i > 0 {
                    assert(renamed_stmt(a.drop_first()[i - 1], b.drop_first()[i - 1]));
                }
            }
        }
    }
}

/// The segments of a path expression after renaming `self` to `slf`.
fn rename_path(qualified: bool, segments: &Vec<Segment>) -> (res: Vec<Segment>)
    ensures
        res.deep_view() == renamed_path(qualified, segments.deep_view()),
{
    if !qualified && segments.len() == 1 && segments[0].ident == "self".to_owned() {
        let res = vec![Segment { ident: "slf".to_owned(), arguments: segments[0].arguments.clone() }];
        assert(segments.deep_view()[0] == segments@[0].deep_view());
        assert(res.deep_view() =~= renamed_path(qualified, segments.deep_view()));
        res
    } else {
        proof {
            if !qualified && segments.len() == 1 {
                assert(segments.deep_view()[0] == segments@[0].deep_view());
            }
            assert(segments.deep_view().subrange(0, segments.len() as int) =~= segments.deep_view());
        }
        copy_segments(segments, 0, segments.len())
    }
}

/// The pattern `p` with `self` renamed to `slf`.
pub fn rename_pat(p: &Pat) -> (res: Pat)
    ensures
        renamed_pat(*p, res),
    decreases p,
{
    match p {
        Pat::Ident { by_ref, mutable, ident, subpat } => {
            let new_ident = if *ident == "self".to_owned() { "slf".to_owned() } else { ident.clone() };
            Pat::Ident { by_ref: *by_ref, mutable: *mutable, ident: new_ident, subpat: *subpat }
        },
        Pat::Tuple(v) => Pat::Tuple(rename_pats(v)),
        Pat::Slice(v) => Pat::Slice(rename_pats(v)),
        Pat::Reference { mutable, pat } => Pat::Reference { mutable: *mutable, pat: Box::new(rename_pat(pat)) },
        Pat::Or(v) => Pat::Or(rename_pats(v)),
        Pat::Other(h) => Pat::Other(*h),
    }
}

/// `rename_pat` of every element.
fn rename_pats(v: &Vec<Pat>) -> (res: Vec<Pat>)
    ensures
        renamed_pats(v@, res@),
    decreases v,
{
    let mut out: Vec<Pat> = Vec::new();
    let mut i: usize = 0;
    while i < v.len()
        invariant
            0 <= i <= v.len(),
            out@.len() == i,
            forall|k: int| 0 <= k < i ==> #[trigger] renamed_pat(v@[k], out@[k]),
        decreases v.len() - i,
    {
        proof {
            assert(decreases_to!(v => v@));
            assert(decreases_to!(v@ => v@[i as int]));
        }
        out.push(rename_pat(&v[i]));
        i += 1;
    }
    proof {
        lemma_renamed_pats(v@, out@);
    }
    out
}

/// The expression `e` with `self` renamed to `slf`.
pub fn rename_expr(e: &Expr) -> (res: Expr)
    ensures
        renamed_expr(*e, res),
    decreases e,
{
    match e {
        Expr::Path { qualified, segments } => Expr::Path { qualified: *qualified, segments: rename_path(*qualified, segments) },
        Expr::MethodCall { receiver, args } => Expr::MethodCall {
            receiver: Box::new(rename_expr(receiver)),
            args: rename_exprs(args),
        },
        Expr::Field { base } => Expr::Field { base: Box::new(rename_expr(base)) },
        Expr::Call { func, args } => Expr::Call { func: Box::new(rename_expr(func)), args: rename_exprs(args) },
        Expr::Block(block) => Expr::Block(rename_block(block)),
        Expr::If { cond, then_branch, else_branch } => {
            let else_branch = match else_branch {
                Some(x) => Some(Box::new(rename_expr(x))),
                None => None,
            };
            Expr::If { cond: Box::new(rename_expr(cond)), then_branch: rename_block(then_branch), else_branch }
        },
        Expr::Match { scrutinee, arms } => Expr::Match {
            scrutinee: Box::new(rename_expr(scrutinee)),
            arms: rename_exprs(arms),
        },
        Expr::While { cond, body } => Expr::While { cond: Box::new(rename_expr(cond)), body: rename_block(body) },
        Expr::Loop(body) => Expr::Loop(rename_block(body)),
        Expr::ForLoop { iterable, body } => Expr::ForLoop {
            iterable: Box::new(rename_expr(iterable)),
            body: rename_block(body),
        },
        Expr::Unary(x) => Expr::Unary(Box::new(rename_expr(x))),
        Expr::Paren(x) => Expr::Paren(Box::new(rename_expr(x))),
        Expr::Reference(x) => Expr::Reference(Box::new(rename_expr(x))),
        Expr::Return(o) => match o {
            Some(x) => Expr::Return(Some(Box::new(rename_expr(x)))),
            None => Expr::Return(None),
        },
        Expr::Await(x) => Expr::Await(Box::new(rename_expr(x))),
        Expr::Try(x) => Expr::Try(Box::new(rename_expr(x))),
        Expr::Closure(x) => Expr::Closure(Box::new(rename_expr(x))),
        Expr::Other => Expr::Other,
    }
}

/// `rename_expr` of every element.
fn rename_exprs(v: &Vec<Expr>) -> (res: Vec<Expr>)
    ensures
        renamed_exprs(v@, res@),
    decreases v,
{
    let mut out: Vec<Expr> = Vec::new();
    let mut i: usize = 0;
    while i < v.len()
        invariant
            0 <= i <= v.len(),
            out@.len() == i,
            forall|k: int| 0 <= k < i ==> #[trigger] renamed_expr(v@[k], out@[k]),
        decreases v.len() - i,
    {
        proof {
            assert(decreases_to!(v => v@));
            assert(decreases_to!(v@ => v@[i as int]));
        }
        out.push(rename_expr(&v[i]));
        i += 1;
    }
    proof {
        lemma_renamed_exprs(v@, out@);
    }
    out
}

/// The statement `s` with `self` renamed to `slf`.
fn rename_stmt(s: &Stmt) -> (res: Stmt)
    ensures
        renamed_stmt(*s, res),
    decreases s,
{
    match s {
        Stmt::Local { pat, init } => {
            let init = match init {
                Some(x) => Some(rename_expr(x)),
                None => None,
            };
            Stmt::Local { pat: rename_pat(pat), init }
        },
        Stmt::Item => Stmt::Item,
        Stmt::Expr { expr, semi } => Stmt::Expr { expr: rename_expr(expr), semi: *semi },
        Stmt::Macro => Stmt::Macro,
    }
}

/// The block `b` with `self` renamed to `slf`.
pub fn rename_block(b: &Block) -> (res: Block)
    ensures
        renamed_block(*b, res),
    decreases b,
{
    let mut out: Vec<Stmt> = Vec::new();
    let mut i: usize = 0;
    while i < b.stmts.len()
        invariant
            0 <= i <= b.stmts.len(),
            out@.len() == i,
            forall|k: int| 0 <= k < i ==> #[trigger] renamed_stmt(b.stmts@[k], out@[k]),
        decreases b.stmts.len() - i,
    {
        proof {
            assert(decreases_to!(b => b.stmts));
            assert(decreases_to!(b.stmts => b.stmts@));
            assert(decreases_to!(b.stmts@ => b.stmts@[i as int]));
        }
        out.push(rename_stmt(&b.stmts[i]));
        i += 1;
    }
    proof {
        lemma_renamed_stmts(b.stmts@, out@);
    }
    Block { origin: b.origin, stmts: out }
}

/// Renames `self` to `slf` throughout a function body.
pub fn swap_self_block(block: &mut Block)
    ensures
        renamed_block(*old(block), *final(block)),
{
    let renamed = rename_block(block);
    *block = renamed;
}

/// No identifier pattern that the renaming looks at is `self`.
pub open spec fn no_self_pat(a: Pat) -> bool
    decreases a,
{
    match a {
        Pat::Ident { ident, .. } => ident@ != "self"@,
        Pat::Tuple(v) => no_self_pats(v@),
        Pat::Slice(v) => no_self_pats(v@),
        Pat::Reference { pat, .. } => no_self_pat(*pat),
        Pat::Or(v) => no_self_pats(v@),
        Pat::Other(_) => true,
    }
}

pub open spec fn no_self_pats(a: Seq<Pat>) -> bool
    decreases a,
{
    a.len() == 0 || (no_self_pat(a[0]) && no_self_pats(a.drop_first()))
}

/// No path that the renaming looks at is `self`.
pub open spec fn no_self_expr(a: Expr) -> bool
    decreases a,
{
    match a {
        Expr::Path { qualified, segments } => !is_self_value_path(qualified, segments.deep_view()),
        Expr::MethodCall { receiver, args } => no_self_expr(*receiver) && no_self_exprs(args@),
        Expr::Field { base } => no_self_expr(*base),
        Expr::Call { func, args } => no_self_expr(*func) && no_self_exprs(args@),
        Expr::Block(block) => no_self_block(block),
        Expr::If { cond, then_branch, else_branch } => {
            &&& no_self_expr(*cond)
            &&& no_self_block(then_branch)
            &&& match else_branch {
                Some(x) => no_self_expr(*x),
                None => true,
            }
        },
        Expr::Match { scrutinee, arms } => no_self_expr(*scrutinee) && no_self_exprs(arms@),
        Expr::While { cond, body } => no_self_expr(*cond) && no_self_block(body),
        Expr::Loop(body) => no_self_block(body),
        Expr::ForLoop { iterable, body } => no_self_expr(*iterable) && no_self_block(body),
        Expr::Unary(e) => no_self_expr(*e),
        Expr::Paren(e) => no_self_expr(*e),
        Expr::Reference(e) => no_self_expr(*e),
        Expr::Return(o) => match o {
            Some(e) => no_self_expr(*e),
            None => true,
        },
        Expr::Await(e) => no_self_expr(*e),
        Expr::Try(e) => no_self_expr(*e),
        Expr::Closure(e) => no_self_expr(*e),
        Expr::Other => true,
    }
}

pub open spec fn no_self_exprs(a: Seq<Expr>) -> bool
    decreases a,
{
    a.len() == 0 || (no_self_expr(a[0]) && no_self_exprs(a.drop_first()))
}

pub open spec fn no_self_stmt(a: Stmt) -> bool
    decreases a,
{
    match a {
        Stmt::Local { pat, init } => no_self_pat(pat) && match init {
            Some(x) => no_self_expr(x),
            None => true,
        },
        Stmt::Expr { expr, .. } => no_self_expr(expr),
        _ => true,
    }
}

pub open spec fn no_self_stmts(a: Seq<Stmt>) -> bool
    decreases a,
{
    a.len() == 0 || (no_self_stmt(a[0]) && no_self_stmts(a.drop_first()))
}

/// No place of the block that the renaming looks at holds `self`.
pub open spec fn no_self_block(a: Block) -> bool
    decreases a,
{
    no_self_stmts(a.stmts@)
}

proof fn pat_renaming_clears(a: Pat, b: Pat)
    requires
        renamed_pat(a, b),
    ensures
        no_self_pat(b),
    decreases a,
{
    match a {
        Pat::Ident { ident, .. } => {
            if ident@ == "self"@ {
                assert("slf"@ != "self"@) by {
                    reveal_strlit("slf");
                    reveal_strlit("self");
                    assert("slf"@.len() == 3);
                }
            }
        },
        Pat::Tuple(v) => pats_renaming_clears(v@, b->Tuple_0@),
        Pat::Slice(v) => pats_renaming_clears(v@, b->Slice_0@),
        Pat::Reference { pat, .. } => pat_renaming_clears(*pat, *b->Reference_pat),
        Pat::Or(v) => pats_renaming_clears(v@, b->Or_0@),
        _ => {},
    }
}

proof fn pats_renaming_clears(a: Seq<Pat>, b: Seq<Pat>)
    requires
        renamed_pats(a, b),
    ensures
        no_self_pats(b),
    decreases a,
{
    if a.len() > 0 {
        pat_renaming_clears(a[0], b[0]);
        pats_renaming_clears(a.drop_first(), b.drop_first());
    }
}

proof fn expr_renaming_clears(a: Expr, b: Expr)
    requires
        renamed_expr(a, b),
    ensures
        no_self_expr(b),
    decreases a,
{
    match a {
        Expr::Path { qualified, segments } => {
            let s2 = b->Path_segments.deep_view();
            if is_self_value_path(qualified, segments.deep_view()) {
                assert(s2[0].0 == "slf"@);
                assert(s2[0].0 != "self"@) by {
                    reveal_strlit("slf");
                    reveal_strlit("self");
                    assert(s2[0].0.len() == 3);
                }
            }
        },
        Expr::MethodCall { receiver, args } => {
            expr_renaming_clears(*receiver, *b->receiver);
            exprs_renaming_clears(args@, b->MethodCall_args@);
        },
        Expr::Field { base } => expr_renaming_clears(*base, *b->Field_base),
        Expr::Call { func, args } => {
            expr_renaming_clears(*func, *b->Call_func);
            exprs_renaming_clears(args@, b->Call_args@);
        },
        Expr::Block(block) => block_renaming_clears(block, b->Block_0),
        Expr::If { cond, then_branch, else_branch } => {
            expr_renaming_clears(*cond, *b->If_cond);
            block_renaming_clears(then_branch, b->If_then_branch);
            match else_branch {
                Some(x) => expr_renaming_clears(*x, *b->If_else_branch->0),
                None => {},
            }
        },
        Expr::Match { scrutinee, arms } => {
            expr_renaming_clears(*scrutinee, *b->Match_scrutinee);
            exprs_renaming_clears(arms@, b->Match_arms@);
        },
        Expr::While { cond, body } => {
            expr_renaming_clears(*cond, *b->While_cond);
            block_renaming_clears(body, b->While_body);
        },
        Expr::Loop(body) => block_renaming_clears(body, b->Loop_0),
        Expr::ForLoop { iterable, body } => {
            expr_renaming_clears(*iterable, *b->ForLoop_iterable);
            block_renaming_clears(body, b->ForLoop_body);
        },
        Expr::Unary(e) => expr_renaming_clears(*e, *b->Unary_0),
        Expr::Paren(e) => expr_renaming_clears(*e, *b->Paren_0),
        Expr::Reference(e) => expr_renaming_clears(*e, *b->Reference_0),
        Expr::Return(o) => match o {
            Some(e) => expr_renaming_clears(*e, *b->Return_0->0),
            None => {},
        },
        Expr::Await(e) => expr_renaming_clears(*e, *b->Await_0),
        Expr::Try(e) => expr_renaming_clears(*e, *b->Try_0),
        Expr::Closure(e) => expr_renaming_clears(*e, *b->Closure_0),
        Expr::Other => {},
    }
}

proof fn exprs_renaming_clears(a: Seq<Expr>, b: Seq<Expr>)
    requires
        renamed_exprs(a, b),
    ensures
        no_self_exprs(b),
    decreases a,
{
    if a.len() > 0 {
        expr_renaming_clears(a[0], b[0]);
        exprs_renaming_clears(a.drop_first(), b.drop_first());
    }
}

proof fn stmt_renaming_clears(a: Stmt, b: Stmt)
    requires
        renamed_stmt(a, b),
    ensures
        no_self_stmt(b),
    decreases a,
{
    match a {
        Stmt::Local { pat, init } => {
            pat_renaming_clears(pat, b->Local_pat);
            match init {
                Some(x) => expr_renaming_clears(x, b->Local_init->0),
                None => {},
            }
        },
        Stmt::Expr { expr, .. } => expr_renaming_clears(expr, b->Expr_expr),
        _ => {},
    }
}

proof fn stmts_renaming_clears(a: Seq<Stmt>, b: Seq<Stmt>)
    requires
        renamed_stmts(a, b),
    ensures
        no_self_stmts(b),
    decreases a,
{
    if a.len() > 0 {
        stmt_renaming_clears(a[0], b[0]);
        stmts_renaming_clears(a.drop_first(), b.drop_first());
    }
}

/// After the renaming, no place that the renaming looks at holds `self`.
pub proof fn block_renaming_clears(a: Block, b: Block)
    requires
        renamed_block(a, b),
    ensures
        no_self_block(b),
    decreases a,
{
    stmts_renaming_clears(a.stmts@, b.stmts@);
}

proof fn pat_without_self_is_fixed(a: Pat)
    requires
        no_self_pat(a),
    ensures
        renamed_pat(a, a),
    decreases a,
{
    match a {
        Pat::Tuple(v) => pats_without_self_are_fixed(v@),
        Pat::Slice(v) => pats_without_self_are_fixed(v@),
        Pat::Reference { pat, .. } => pat_without_self_is_fixed(*pat),
        Pat::Or(v) => pats_without_self_are_fixed(v@),
        _ => {},
    }
}

proof fn pats_without_self_are_fixed(a: Seq<Pat>)
    requires
        no_self_pats(a),
    ensures
        renamed_pats(a, a),
    decreases a,
{
    if a.len() > 0 {
        pat_without_self_is_fixed(a[0]);
        pats_without_self_are_fixed(a.drop_first());
    }
}

proof fn expr_without_self_is_fixed(a: Expr)
    requires
        no_self_expr(a),
    ensures
        renamed_expr(a, a),
    decreases a,
{
    match a {
        Expr::MethodCall { receiver, args } => {
            expr_without_self_is_fixed(*receiver);
            exprs_without_self_are_fixed(args@);
        },
        Expr::Field { base } => expr_without_self_is_fixed(*base),
        Expr::Call { func, args } => {
            expr_without_self_is_fixed(*func);
            exprs_without_self_are_fixed(args@);
        },
        Expr::Block(block) => block_without_self_is_fixed(block),
        Expr::If { cond, then_branch, else_branch } => {
            expr_without_self_is_fixed(*cond);
            block_without_self_is_fixed(then_branch);
            match else_branch {
                Some(x) => expr_without_self_is_fixed(*x),
                None => {},
            }
        },
        Expr::Match { scrutinee, arms } => {
            expr_without_self_is_fixed(*scrutinee);
            exprs_without_self_are_fixed(arms@);
        },
        Expr::While { cond, body } => {
            expr_without_self_is_fixed(*cond);
            block_without_self_is_fixed(body);
        },
        Expr::Loop(body) => block_without_self_is_fixed(body),
        Expr::ForLoop { iterable, body } => {
            expr_without_self_is_fixed(*iterable);
            block_without_self_is_fixed(body);
        },
        Expr::Unary(e) => expr_without_self_is_fixed(*e),
        Expr::Paren(e) => expr_without_self_is_fixed(*e),
        Expr::Reference(e) => expr_without_self_is_fixed(*e),
        Expr::Return(o) => match o {
            Some(e) => expr_without_self_is_fixed(*e),
            None => {},
        },
        Expr::Await(e) => expr_without_self_is_fixed(*e),
        Expr::Try(e) => expr_without_self_is_fixed(*e),
        Expr::Closure(e) => expr_without_self_is_fixed(*e),
        _ => {},
    }
}

proof fn exprs_without_self_are_fixed(a: Seq<Expr>)
    requires
        no_self_exprs(a),
    ensures
        renamed_exprs(a, a),
    decreases a,
{
    if a.len() > 0 {
        expr_without_self_is_fixed(a[0]);
        exprs_without_self_are_fixed(a.drop_first());
    }
}

proof fn stmt_without_self_is_fixed(a: Stmt)
    requires
        no_self_stmt(a),
    ensures
        renamed_stmt(a, a),
    decreases a,
{
    match a {
        Stmt::Local { pat, init } => {
            pat_without_self_is_fixed(pat);
            match init {
                Some(x) => expr_without_self_is_fixed(x),
                None => {},
            }
        },
        Stmt::Expr { expr, .. } => expr_without_self_is_fixed(expr),
        _ => {},
    }
}

proof fn stmts_without_self_are_fixed(a: Seq<Stmt>)
    requires
        no_self_stmts(a),
    ensures
        renamed_stmts(a, a),
    decreases a,
{
    if a.len() > 0 {
        stmt_without_self_is_fixed(a[0]);
        stmts_without_self_are_fixed(a.drop_first());
    }
}

/// A block in which no place that the renaming looks at holds `self` is left as it is.
pub proof fn block_without_self_is_fixed(a: Block)
    requires
        no_self_block(a),
    ensures
        renamed_block(a, a),
    decreases a,
{
    stmts_without_self_are_fixed(a.stmts@);
}

/// Renaming a renamed block again leaves it as it is.
pub proof fn block_renaming_is_idempotent(a: Block, b: Block)
    requires
        renamed_block(a, b),
    ensures
        renamed_block(b, b),
{
    block_renaming_clears(a, b);
    block_without_self_is_fixed(b);
}

proof fn pat_renaming_without_self_is_copy(a: Pat, b: Pat)
    requires
        no_self_pat(a),
        renamed_pat(a, b),
    ensures
        pat_eq(a, b),
    decreases a,
{
    match a {
        Pat::Tuple(v) => pats_renaming_without_self_is_copy(v@, b->Tuple_0@),
        Pat::Slice(v) => pats_renaming_without_self_is_copy(v@, b->Slice_0@),
        Pat::Reference { pat, .. } => pat_renaming_without_self_is_copy(*pat, *b->Reference_pat),
        Pat::Or(v) => pats_renaming_without_self_is_copy(v@, b->Or_0@),
        _ => {},
    }
}

proof fn pats_renaming_without_self_is_copy(a: Seq<Pat>, b: Seq<Pat>)
    requires
        no_self_pats(a),
        renamed_pats(a, b),
    ensures
        pats_eq(a, b),
    decreases a,
{
    if a.len() > 0 {
        pat_renaming_without_self_is_copy(a[0], b[0]);
        pats_renaming_without_self_is_copy(a.drop_first(), b.drop_first());
    }
}

proof fn expr_renaming_without_self_is_copy(a: Expr, b: Expr)
    requires
        no_self_expr(a),
        renamed_expr(a, b),
    ensures
        expr_eq(a, b),
    decreases a,
{
    match a {
        Expr::MethodCall { receiver, args } => {
            expr_renaming_without_self_is_copy(*receiver, *b->receiver);
            exprs_renaming_without_self_is_copy(args@, b->MethodCall_args@);
        },
        Expr::Field { base } => expr_renaming_without_self_is_copy(*base, *b->base),
        Expr::Call { func, args } => {
            expr_renaming_without_self_is_copy(*func, *b->func);
            exprs_renaming_without_self_is_copy(args@, b->Call_args@);
        },
        Expr::Block(block) => block_renaming_without_self_is_copy(block, b->Block_0),
        Expr::If { cond, then_branch, else_branch } => {
            expr_renaming_without_self_is_copy(*cond, *b->If_cond);
            block_renaming_without_self_is_copy(then_branch, b->then_branch);
            match else_branch {
                Some(x) => expr_renaming_without_self_is_copy(*x, *b->else_branch.unwrap()),
                None => {},
            }
        },
        Expr::Match { scrutinee, arms } => {
            expr_renaming_without_self_is_copy(*scrutinee, *b->scrutinee);
            exprs_renaming_without_self_is_copy(arms@, b->arms@);
        },
        Expr::While { cond, body } => {
            expr_renaming_without_self_is_copy(*cond, *b->While_cond);
            block_renaming_without_self_is_copy(body, b->While_body);
        },
        Expr::Loop(body) => block_renaming_without_self_is_copy(body, b->Loop_0),
        Expr::ForLoop { iterable, body } => {
            expr_renaming_without_self_is_copy(*iterable, *b->iterable);
            block_renaming_without_self_is_copy(body, b->ForLoop_body);
        },
        Expr::Unary(e) => expr_renaming_without_self_is_copy(*e, *b->Unary_0),
        Expr::Paren(e) => expr_renaming_without_self_is_copy(*e, *b->Paren_0),
        Expr::Reference(e) => expr_renaming_without_self_is_copy(*e, *b->Reference_0),
        Expr::Return(o) => match o {
            Some(e) => expr_renaming_without_self_is_copy(*e, *b->Return_0.unwrap()),
            None => {},
        },
        Expr::Await(e) => expr_renaming_without_self_is_copy(*e, *b->Await_0),
        Expr::Try(e) => expr_renaming_without_self_is_copy(*e, *b->Try_0),
        Expr::Closure(e) => expr_renaming_without_self_is_copy(*e, *b->Closure_0),
        _ => {},
    }
}

proof fn exprs_renaming_without_self_is_copy(a: Seq<Expr>, b: Seq<Expr>)
    requires
        no_self_exprs(a),
        renamed_exprs(a, b),
    ensures
        exprs_eq(a, b),
    decreases a,
{
    if a.len() > 0 {
        expr_renaming_without_self_is_copy(a[0], b[0]);
        exprs_renaming_without_self_is_copy(a.drop_first(), b.drop_first());
    }
}

proof fn stmt_renaming_without_self_is_copy(a: Stmt, b: Stmt)
    requires
        no_self_stmt(a),
        renamed_stmt(a, b),
    ensures
        stmt_eq(a, b),
    decreases a,
{
    match a {
        Stmt::Local { pat, init } => {
            pat_renaming_without_self_is_copy(pat, b->pat);
            match init {
                Some(x) => expr_renaming_without_self_is_copy(x, b->init.unwrap()),
                None => {},
            }
        },
        Stmt::Expr { expr, .. } => expr_renaming_without_self_is_copy(expr, b->expr),
        _ => {},
    }
}

proof fn stmts_renaming_without_self_is_copy(a: Seq<Stmt>, b: Seq<Stmt>)
    requires
        no_self_stmts(a),
        renamed_stmts(a, b),
    ensures
        stmts_eq(a, b),
    decreases a,
{
    if a.len() > 0 {
        stmt_renaming_without_self_is_copy(a[0], b[0]);
        stmts_renaming_without_self_is_copy(a.drop_first(), b.drop_first());
    }
}

/// Renaming a block in which no place that the renaming looks at holds `self` gives
/// back the same block.
pub proof fn block_renaming_without_self_is_copy(a: Block, b: Block)
    requires
        no_self_block(a),
        renamed_block(a, b),
    ensures
        block_eq(a, b),
    decreases a,
{
    stmts_renaming_without_self_is_copy(a.stmts@, b.stmts@);
}

/// Renaming a second time changes nothing: the block that a second renaming gives is
/// the same as the block that the first gave.
pub proof fn block_renaming_fixes_its_result(a: Block, b: Block, c: Block)
    requires
        renamed_block(a, b),
        renamed_block(b, c),
    ensures
        block_eq(b, c),
{
    block_renaming_clears(a, b);
    block_renaming_without_self_is_copy(b, c);
}

/// The receiver becomes the argument `slf`, of a type that depends on how the receiver
/// is written, with `T` the self type: `self` and `mut self` take `T` itself (by value,
/// `mut slf` for `mut self`); `&'a self` and `&'a mut self` take a reference to `T` with
/// the same lifetime and mutability; `self: U` takes `U` with `Self` replaced by `T`
/// (`mut slf` for `mut self: U`).
pub proof fn receiver_becomes_slf_of_the_self_type(arg: FnArg, recv: Receiver, self_ty: Ty)
    requires
        replaces_receiver(arg, recv, self_ty),
    ensures
        arg matches FnArg::Typed { pat: Pat::Ident { ident, mutable, by_ref, subpat }, ty, .. } && {
            &&& ident@ == "slf"@ && !by_ref && subpat is None
            &&& recv.reference is None ==> mutable == recv.mutable
            &&& recv.reference is Some ==> !mutable
            &&& recv.explicit_ty is None && recv.reference is None ==> ty_eq(self_ty, ty)
            &&& recv.explicit_ty is None && recv.reference is Some ==> (ty matches Ty::Reference { lifetime, mutable: m, elem }
                && opt_text(lifetime) == opt_text(recv.reference->0) && m == recv.mutable && ty_eq(self_ty, *elem))
            &&& recv.explicit_ty matches Some(u) ==> substituted(u, self_ty, ty)
        },
{
}

/// Only a path expression that is exactly `self` (one segment, not qualified) is
/// renamed, to `slf` with the same generic arguments; every other path, such as
/// `self::helper`, `Self` or `<T as Tr>::self`, is kept segment for segment.
pub proof fn only_the_path_self_is_renamed(a: Expr, b: Expr)
    requires
        a is Path,
        renamed_expr(a, b),
    ensures
        b matches Expr::Path { qualified, segments } && qualified == a->Path_qualified && {
            let before = a->Path_segments.deep_view();
            let after = segments.deep_view();
            &&& after.len() == before.len()
            &&& forall|k: int| 1 <= k < before.len() ==> #[trigger] after[k] == before[k]
            &&& before.len() > 0 ==> after[0].1 == before[0].1
            &&& (!qualified && before.len() == 1 && before[0].0 == "self"@) ==> after[0].0 == "slf"@
            &&& !(!qualified && before.len() == 1 && before[0].0 == "self"@) ==> after == before
        },
{
}

} // verus!
