//! A model of the parts of Rust syntax that the attribute handlers read and rewrite.
//!
//! Nodes that the handlers never look into are kept as `Other`, with a handle by which
//! the caller finds the original node again.

use vstd::prelude::*;

use crate::env_attr::{copy_segments, Segment};

verus! {

/// A type.
pub enum Ty {
    /// An unqualified path such as `Self`, `Vec<u8>` or `::std::string::String`.
    Path { leading_colon: bool, segments: Vec<TySegment> },
    /// `&'a mut T`.
    Reference { lifetime: Option<String>, mutable: bool, elem: Box<Ty> },
    /// `[T; N]`; the length expression is kept by handle.
    Array { elem: Box<Ty>, len: u64 },
    /// A type in invisible delimiters.
    Group(Box<Ty>),
    /// `(T)`.
    Paren(Box<Ty>),
    /// `*const T` or `*mut T`.
    Ptr { mutable: bool, elem: Box<Ty> },
    /// `[T]`.
    Slice(Box<Ty>),
    /// `(A, B, ..)`.
    Tuple(Vec<Ty>),
    /// Any other type.
    Other(u64),
}

/// One segment of a type path: its identifier and its generic arguments.
pub struct TySegment {
    pub ident: String,
    pub arguments: PathArgs,
}

/// The generic arguments of a segment of a type path.
pub enum PathArgs {
    /// No arguments.
    Bare,
    /// `<A, 'a, N>`, or `::<A, 'a, N>` when `turbofish`.
    Angle { turbofish: bool, args: Vec<GenericArg> },
    /// `(A, B) -> C`; kept by handle.
    Parenthesized(u64),
}

/// One argument between angle brackets.
pub enum GenericArg {
    /// A type argument.
    Type(Ty),
    /// A lifetime, a constant, or a binding such as `Item = T`; kept by handle.
    Other(u64),
}

/// A pattern.
pub enum Pat {
    /// `ref mut name @ subpattern`; the subpattern is kept by handle.
    Ident { by_ref: bool, mutable: bool, ident: String, subpat: Option<u64> },
    /// `(a, b)`.
    Tuple(Vec<Pat>),
    /// `[a, b]`.
    Slice(Vec<Pat>),
    /// `&mut p`.
    Reference { mutable: bool, pat: Box<Pat> },
    /// `a | b`.
    Or(Vec<Pat>),
    /// Any other pattern.
    Other(u64),
}

/// An expression. Only the parts that the `self` rewriting visits are modelled.
pub enum Expr {
    /// A path; `qualified` when it has a `<T as Trait>::` prefix.
    Path { qualified: bool, segments: Vec<Segment> },
    /// `receiver.method(args)`.
    MethodCall { receiver: Box<Expr>, args: Vec<Expr> },
    /// `base.member`.
    Field { base: Box<Expr> },
    /// `func(args)`.
    Call { func: Box<Expr>, args: Vec<Expr> },
    /// `{ .. }`.
    Block(Block),
    /// `if cond { .. } else ..`.
    If { cond: Box<Expr>, then_branch: Block, else_branch: Option<Box<Expr>> },
    /// `match scrutinee { pat => body, .. }`; only the arm bodies are modelled.
    Match { scrutinee: Box<Expr>, arms: Vec<Expr> },
    /// `while cond { .. }`.
    While { cond: Box<Expr>, body: Block },
    /// `loop { .. }`.
    Loop(Block),
    /// `for pat in iterable { .. }`.
    ForLoop { iterable: Box<Expr>, body: Block },
    /// `!e`, `-e`, `*e`.
    Unary(Box<Expr>),
    /// `(e)`.
    Paren(Box<Expr>),
    /// `&e`, `&mut e`.
    Reference(Box<Expr>),
    /// `return e`.
    Return(Option<Box<Expr>>),
    /// `e.await`.
    Await(Box<Expr>),
    /// `e?`.
    Try(Box<Expr>),
    /// `|args| body`; only the body is modelled.
    Closure(Box<Expr>),
    /// Any other expression.
    Other,
}

/// A statement.
pub enum Stmt {
    /// `let pat = init;`
    Local { pat: Pat, init: Option<Expr> },
    /// An item.
    Item,
    /// An expression, with or without a semicolon.
    Expr { expr: Expr, semi: bool },
    /// A macro invocation.
    Macro,
}

/// A block, with the handle of the block it was read from.
pub struct Block {
    pub origin: u64,
    pub stmts: Vec<Stmt>,
}

/// A `self` receiver: `self`, `mut self`, `&'a mut self` or `self: T`.
pub struct Receiver {
    pub attrs: Vec<u64>,
    /// `Some(lifetime)` when the receiver is a reference.
    pub reference: Option<Option<String>>,
    pub mutable: bool,
    /// The type written after `self:`, when there is one.
    pub explicit_ty: Option<Ty>,
}

/// A function argument.
pub enum FnArg {
    Receiver(Receiver),
    Typed { attrs: Vec<u64>, pat: Pat, ty: Ty },
}

/// The text of an optional string.
pub open spec fn opt_text(o: Option<String>) -> Option<Seq<char>> {
    match o {
        Some(s) => Some(s@),
        None => None,
    }
}

/// Two types are the same, up to the identity of their strings.
pub open spec fn ty_eq(a: Ty, b: Ty) -> bool
    decreases a,
{
    match (a, b) {
        (Ty::Path { leading_colon: c1, segments: s1 }, Ty::Path { leading_colon: c2, segments: s2 }) =>
            c1 == c2 && ty_segments_eq(s1@, s2@),
        (Ty::Reference { lifetime: l1, mutable: m1, elem: e1 }, Ty::Reference { lifetime: l2, mutable: m2, elem: e2 }) =>
            opt_text(l1) == opt_text(l2) && m1 == m2 && ty_eq(*e1, *e2),
        (Ty::Array { elem: e1, len: n1 }, Ty::Array { elem: e2, len: n2 }) => n1 == n2 && ty_eq(*e1, *e2),
        (Ty::Group(e1), Ty::Group(e2)) => ty_eq(*e1, *e2),
        (Ty::Paren(e1), Ty::Paren(e2)) => ty_eq(*e1, *e2),
        (Ty::Ptr { mutable: m1, elem: e1 }, Ty::Ptr { mutable: m2, elem: e2 }) => m1 == m2 && ty_eq(*e1, *e2),
        (Ty::Slice(e1), Ty::Slice(e2)) => ty_eq(*e1, *e2),
        (Ty::Tuple(v1), Ty::Tuple(v2)) => ty_list_eq(v1@, v2@),
        (Ty::Other(h1), Ty::Other(h2)) => h1 == h2,
        _ => false,
    }
}

/// Two lists of types are the same, element by element.
pub open spec fn ty_list_eq(a: Seq<Ty>, b: Seq<Ty>) -> bool
    decreases a,
{
    if a.len() == 0 {
        b.len() == 0
    } else {
        b.len() > 0 && ty_eq(a[0], b[0]) && ty_list_eq(a.drop_first(), b.drop_first())
    }
}

/// Two segments of type paths are the same: same identifier, same arguments.
pub open spec fn ty_segment_eq(a: TySegment, b: TySegment) -> bool
    decreases a,
{
    a.ident@ == b.ident@ && path_args_eq(a.arguments, b.arguments)
}

/// `ty_segment_eq`, element by element.
pub open spec fn ty_segments_eq(a: Seq<TySegment>, b: Seq<TySegment>) -> bool
    decreases a,
{
    if a.len() == 0 {
        b.len() == 0
    } else {
        b.len() > 0 && ty_segment_eq(a[0], b[0]) && ty_segments_eq(a.drop_first(), b.drop_first())
    }
}

/// Two lists of generic arguments of a segment are the same.
pub open spec fn path_args_eq(a: PathArgs, b: PathArgs) -> bool
    decreases a,
{
    match a {
        PathArgs::Bare => b is Bare,
        PathArgs::Angle { turbofish, args } => b matches PathArgs::Angle { turbofish: t2, args: a2 }
            && t2 == turbofish && generic_args_eq(args@, a2@),
        PathArgs::Parenthesized(h) => b == PathArgs::Parenthesized(h),
    }
}

/// Two generic arguments are the same.
pub open spec fn generic_arg_eq(a: GenericArg, b: GenericArg) -> bool
    decreases a,
{
    match a {
        GenericArg::Type(t) => b matches GenericArg::Type(t2) && ty_eq(t, t2),
        GenericArg::Other(h) => b == GenericArg::Other(h),
    }
}

/// `generic_arg_eq`, element by element.
pub open spec fn generic_args_eq(a: Seq<GenericArg>, b: Seq<GenericArg>) -> bool
    decreases a,
{
    if a.len() == 0 {
        b.len() == 0
    } else {
        b.len() > 0 && generic_arg_eq(a[0], b[0]) && generic_args_eq(a.drop_first(), b.drop_first())
    }
}

proof fn lemma_ty_segments_eq(a: Seq<TySegment>, b: Seq<TySegment>)
    ensures
        ty_segments_eq(a, b) <==> (a.len() == b.len() && forall|i: int| 0 <= i < a.len() ==> #[trigger] ty_segment_eq(a[i], b[i])),
    decreases a.len(),
{
    if a.len() > 0 && b.len() > 0 {
        lemma_ty_segments_eq(a.drop_first(), b.drop_first());
        if a.len() == b.len() && forall|i: int| 0 <= i < a.len() ==> #[trigger] ty_segment_eq(a[i], b[i]) {
            assert forall|i: int| 0 <= i < a.drop_first().len() implies #[trigger] ty_segment_eq(a.drop_first()[i], b.drop_first()[i]) by {
                assert(ty_segment_eq(a[i + 1], b[i + 1]));
            }
            assert(ty_segment_eq(a[0], b[0]));
        }
        if ty_segments_eq(a, b) {
            assert forall|i: int| 0 <= i < a.len() implies #[trigger] ty_segment_eq(a[i], b[i]) by {
                if i > 0 {
                    assert(ty_segment_eq(a.drop_first()[i - 1], b.drop_first()[i - 1]));
                }
            }
        }
    }
}

proof fn lemma_generic_args_eq(a: Seq<GenericArg>, b: Seq<GenericArg>)
    ensures
        generic_args_eq(a, b) <==> (a.len() == b.len() && forall|i: int| 0 <= i < a.len() ==> #[trigger] generic_arg_eq(a[i], b[i])),
    decreases a.len(),
{
    if a.len() > 0 && b.len() > 0 {
        lemma_generic_args_eq(a.drop_first(), b.drop_first());
        if a.len() == b.len() && forall|i: int| 0 <= i < a.len() ==> #[trigger] generic_arg_eq(a[i], b[i]) {
            assert forall|i: int| 0 <= i < a.drop_first().len() implies #[trigger] generic_arg_eq(a.drop_first()[i], b.drop_first()[i]) by {
                assert(generic_arg_eq(a[i + 1], b[i + 1]));
            }
            assert(generic_arg_eq(a[0], b[0]));
        }
        if generic_args_eq(a, b) {
            assert forall|i: int| 0 <= i < a.len() implies #[trigger] generic_arg_eq(a[i], b[i]) by {
                if i > 0 {
                    assert(generic_arg_eq(a.drop_first()[i - 1], b.drop_first()[i - 1]));
                }
            }
        }
    }
}

pub proof fn lemma_ty_list_eq(a: Seq<Ty>, b: Seq<Ty>)
    ensures
        ty_list_eq(a, b) <==> (a.len() == b.len() && forall|i: int| 0 <= i < a.len() ==> #[trigger] ty_eq(a[i], b[i])),
    decreases a.len(),
{
    if a.len() > 0 && b.len() > 0 {
        lemma_ty_list_eq(a.drop_first(), b.drop_first());
        if a.len() == b.len() && forall|i: int| 0 <= i < a.len() ==> #[trigger] ty_eq(a[i], b[i]) {
            assert forall|i: int| 0 <= i < a.drop_first().len() implies #[trigger] ty_eq(a.drop_first()[i], b.drop_first()[i]) by {
                assert(ty_eq(a[i + 1], b[i + 1]));
            }
            assert(ty_eq(a[0], b[0]));
        }
        if ty_list_eq(a, b) {
            assert forall|i: int| 0 <= i < a.len() implies #[trigger] ty_eq(a[i], b[i]) by {
                if i > 0 {
                    assert(ty_eq(a.drop_first()[i - 1], b.drop_first()[i - 1]));
                }
            }
        }
    }
}

/// A copy of an optional string.
pub fn copy_opt_string(o: &Option<String>) -> (res: Option<String>)
    ensures
        opt_text(res) == opt_text(*o),
{
    match o {
        Some(s) => Some(s.clone()),
        None => None,
    }
}

/// A copy of a type.
pub fn copy_ty(t: &Ty) -> (res: Ty)
    ensures
        ty_eq(*t, res),
    decreases t,
{
    match t {
        Ty::Path { leading_colon, segments } => Ty::Path {
            leading_colon: *leading_colon,
            segments: copy_ty_segments(segments),
        },
        Ty::Reference { lifetime, mutable, elem } => Ty::Reference {
            lifetime: copy_opt_string(lifetime),
            mutable: *mutable,
            elem: Box::new(copy_ty(elem)),
        },
        Ty::Array { elem, len } => Ty::Array { elem: Box::new(copy_ty(elem)), len: *len },
        Ty::Group(elem) => Ty::Group(Box::new(copy_ty(elem))),
        Ty::Paren(elem) => Ty::Paren(Box::new(copy_ty(elem))),
        Ty::Ptr { mutable, elem } => Ty::Ptr { mutable: *mutable, elem: Box::new(copy_ty(elem)) },
        Ty::Slice(elem) => Ty::Slice(Box::new(copy_ty(elem))),
        Ty::Tuple(v) => {
            let w = copy_ty_list(v);
            Ty::Tuple(w)
        },
        Ty::Other(h) => Ty::Other(*h),
    }
}

/// A copy of the segments of a type path.
pub fn copy_ty_segments(v: &Vec<TySegment>) -> (res: Vec<TySegment>)
    ensures
        ty_segments_eq(v@, res@),
    decreases v,
{
    let mut out: Vec<TySegment> = Vec::new();
    let mut i: usize = 0;
    while i < v.len()
        invariant
            0 <= i <= v.len(),
            out@.len() == i,
            forall|k: int| 0 <= k < i ==> #[trigger] ty_segment_eq(v@[k], out@[k]),
        decreases v.len() - i,
    {
        proof {
            assert(decreases_to!(v => v@));
            assert(decreases_to!(v@ => v@[i as int]));
            assert(decreases_to!(v@[i as int] => v@[i as int].arguments));
        }
        let arguments = copy_path_args(&v[i].arguments);
        out.push(TySegment { ident: v[i].ident.clone(), arguments });
        i += 1;
    }
    proof {
        lemma_ty_segments_eq(v@, out@);
    }
    out
}

/// A copy of the generic arguments of a segment.
pub fn copy_path_args(a: &PathArgs) -> (res: PathArgs)
    ensures
        path_args_eq(*a, res),
    decreases a,
{
    match a {
        PathArgs::Bare => PathArgs::Bare,
        PathArgs::Angle { turbofish, args } => PathArgs::Angle { turbofish: *turbofish, args: copy_generic_args(args) },
        PathArgs::Parenthesized(h) => PathArgs::Parenthesized(*h),
    }
}

/// A copy of a list of generic arguments.
pub fn copy_generic_args(v: &Vec<GenericArg>) -> (res: Vec<GenericArg>)
    ensures
        generic_args_eq(v@, res@),
    decreases v,
{
    let mut out: Vec<GenericArg> = Vec::new();
    let mut i: usize = 0;
    while i < v.len()
        invariant
            0 <= i <= v.len(),
            out@.len() == i,
            forall|k: int| 0 <= k < i ==> #[trigger] generic_arg_eq(v@[k], out@[k]),
        decreases v.len() - i,
    {
        proof {
            assert(decreases_to!(v => v@));
            assert(decreases_to!(v@ => v@[i as int]));
        }
        let arg = match &v[i] {
            GenericArg::Type(t) => GenericArg::Type(copy_ty(t)),
            GenericArg::Other(h) => GenericArg::Other(*h),
        };
        out.push(arg);
        i += 1;
    }
    proof {
        lemma_generic_args_eq(v@, out@);
    }
    out
}

/// A copy of a list of types.
pub fn copy_ty_list(v: &Vec<Ty>) -> (res: Vec<Ty>)
    ensures
        ty_list_eq(v@, res@),
    decreases v,
{
    let mut out: Vec<Ty> = Vec::new();
    let mut i: usize = 0;
    while i < v.len()
        invariant
            0 <= i <= v.len(),
            out@.len() == i,
            forall|k: int| 0 <= k < i ==> #[trigger] ty_eq(v@[k], out@[k]),
        decreases v.len() - i,
    {
        proof {
            assert(decreases_to!(v => v@));
            assert(decreases_to!(v@ => v@[i as int]));
        }
        out.push(copy_ty(&v[i]));
        i += 1;
    }
    proof {
        lemma_ty_list_eq(v@, out@);
    }
    out
}

/// Two patterns are the same, up to the identity of their strings.
pub open spec fn pat_eq(a: Pat, b: Pat) -> bool
    decreases a,
{
    match a {
        Pat::Ident { by_ref, mutable, ident, subpat } => match b {
            Pat::Ident { by_ref: r2, mutable: m2, ident: i2, subpat: s2 } =>
                r2 == by_ref && m2 == mutable && i2@ == ident@ && s2 == subpat,
            _ => false,
        },
        Pat::Tuple(v) => b matches Pat::Tuple(w) && pats_eq(v@, w@),
        Pat::Slice(v) => b matches Pat::Slice(w) && pats_eq(v@, w@),
        Pat::Reference { mutable, pat } => b matches Pat::Reference { mutable: m2, pat: p2 } && m2 == mutable && pat_eq(*pat, *p2),
        Pat::Or(v) => b matches Pat::Or(w) && pats_eq(v@, w@),
        Pat::Other(h) => b == Pat::Other(h),
    }
}

/// `pat_eq`, element by element.
pub open spec fn pats_eq(a: Seq<Pat>, b: Seq<Pat>) -> bool
    decreases a,
{
    if a.len() == 0 {
        b.len() == 0
    } else {
        b.len() > 0 && pat_eq(a[0], b[0]) && pats_eq(a.drop_first(), b.drop_first())
    }
}

/// Two expressions are the same, up to the identity of their strings.
pub open spec fn expr_eq(a: Expr, b: Expr) -> bool
    decreases a,
{
    match a {
        Expr::Path { qualified, segments } => match b {
            Expr::Path { qualified: q2, segments: s2 } => q2 == qualified && s2.deep_view() == segments.deep_view(),
            _ => false,
        },
        Expr::MethodCall { receiver, args } => match b {
            Expr::MethodCall { receiver: r2, args: a2 } => expr_eq(*receiver, *r2) && exprs_eq(args@, a2@),
            _ => false,
        },
        Expr::Field { base } => b matches Expr::Field { base: b2 } && expr_eq(*base, *b2),
        Expr::Call { func, args } => match b {
            Expr::Call { func: f2, args: a2 } => expr_eq(*func, *f2) && exprs_eq(args@, a2@),
            _ => false,
        },
        Expr::Block(block) => b matches Expr::Block(b2) && block_eq(block, b2),
        Expr::If { cond, then_branch, else_branch } => match b {
            Expr::If { cond: c2, then_branch: t2, else_branch: e2 } => {
                &&& expr_eq(*cond, *c2)
                &&& block_eq(then_branch, t2)
                &&& match else_branch {
                    Some(x) => e2 matches Some(y) && expr_eq(*x, *y),
                    None => e2 is None,
                }
            },
            _ => false,
        },
        Expr::Match { scrutinee, arms } => match b {
            Expr::Match { scrutinee: s2, arms: a2 } => expr_eq(*scrutinee, *s2) && exprs_eq(arms@, a2@),
            _ => false,
        },
        Expr::While { cond, body } => match b {
            Expr::While { cond: c2, body: b2 } => expr_eq(*cond, *c2) && block_eq(body, b2),
            _ => false,
        },
        Expr::Loop(body) => b matches Expr::Loop(b2) && block_eq(body, b2),
        Expr::ForLoop { iterable, body } => match b {
            Expr::ForLoop { iterable: i2, body: b2 } => expr_eq(*iterable, *i2) && block_eq(body, b2),
            _ => false,
        },
        Expr::Unary(e) => b matches Expr::Unary(e2) && expr_eq(*e, *e2),
        Expr::Paren(e) => b matches Expr::Paren(e2) && expr_eq(*e, *e2),
        Expr::Reference(e) => b matches Expr::Reference(e2) && expr_eq(*e, *e2),
        Expr::Return(o) => match o {
            Some(e) => b matches Expr::Return(Some(e2)) && expr_eq(*e, *e2),
            None => b matches Expr::Return(None),
        },
        Expr::Await(e) => b matches Expr::Await(e2) && expr_eq(*e, *e2),
        Expr::Try(e) => b matches Expr::Try(e2) && expr_eq(*e, *e2),
        Expr::Closure(e) => b matches Expr::Closure(e2) && expr_eq(*e, *e2),
        Expr::Other => b is Other,
    }
}

/// `expr_eq`, element by element.
pub open spec fn exprs_eq(a: Seq<Expr>, b: Seq<Expr>) -> bool
    decreases a,
{
    if a.len() == 0 {
        b.len() == 0
    } else {
        b.len() > 0 && expr_eq(a[0], b[0]) && exprs_eq(a.drop_first(), b.drop_first())
    }
}

/// Two statements are the same, up to the identity of their strings.
pub open spec fn stmt_eq(a: Stmt, b: Stmt) -> bool
    decreases a,
{
    match a {
        Stmt::Local { pat, init } => match b {
            Stmt::Local { pat: p2, init: i2 } => {
                &&& pat_eq(pat, p2)
                &&& match init {
                    Some(x) => i2 matches Some(y) && expr_eq(x, y),
                    None => i2 is None,
                }
            },
            _ => false,
        },
        Stmt::Item => b is Item,
        Stmt::Expr { expr, semi } => match b {
            Stmt::Expr { expr: e2, semi: s2 } => s2 == semi && expr_eq(expr, e2),
            _ => false,
        },
        Stmt::Macro => b is Macro,
    }
}

/// `stmt_eq`, element by element.
pub open spec fn stmts_eq(a: Seq<Stmt>, b: Seq<Stmt>) -> bool
    decreases a,
{
    if a.len() == 0 {
        b.len() == 0
    } else {
        b.len() > 0 && stmt_eq(a[0], b[0]) && stmts_eq(a.drop_first(), b.drop_first())
    }
}

/// Two blocks are the same, up to the identity of their strings.
pub open spec fn block_eq(a: Block, b: Block) -> bool
    decreases a,
{
    b.origin == a.origin && stmts_eq(a.stmts@, b.stmts@)
}

/// Two function arguments are the same, up to the identity of their strings.
pub open spec fn fn_arg_eq(a: FnArg, b: FnArg) -> bool {
    match a {
        FnArg::Receiver(r) => match b {
            FnArg::Receiver(r2) => {
                &&& r2.attrs@ == r.attrs@
                &&& r2.mutable == r.mutable
                &&& match r.reference {
                    Some(l) => r2.reference matches Some(l2) && opt_text(l2) == opt_text(l),
                    None => r2.reference is None,
                }
                &&& match r.explicit_ty {
                    Some(t) => r2.explicit_ty matches Some(t2) && ty_eq(t, t2),
                    None => r2.explicit_ty is None,
                }
            },
            _ => false,
        },
        FnArg::Typed { attrs, pat, ty } => match b {
            FnArg::Typed { attrs: a2, pat: p2, ty: t2 } => a2@ == attrs@ && pat_eq(pat, p2) && ty_eq(ty, t2),
            _ => false,
        },
    }
}

/// `fn_arg_eq`, element by element.
pub open spec fn fn_args_eq(a: Seq<FnArg>, b: Seq<FnArg>) -> bool {
    a.len() == b.len() && forall|i: int| 0 <= i < a.len() ==> #[trigger] fn_arg_eq(a[i], b[i])
}

proof fn lemma_pats_eq(a: Seq<Pat>, b: Seq<Pat>)
    ensures
        pats_eq(a, b) <==> (a.len() == b.len() && forall|i: int| 0 <= i < a.len() ==> #[trigger] pat_eq(a[i], b[i])),
    decreases a.len(),
{
    if a.len() > 0 && b.len() > 0 {
        lemma_pats_eq(a.drop_first(), b.drop_first());
        if a.len() == b.len() && forall|i: int| 0 <= i < a.len() ==> #[trigger] pat_eq(a[i], b[i]) {
            assert forall|i: int| 0 <= i < a.drop_first().len() implies #[trigger] pat_eq(a.drop_first()[i], b.drop_first()[i]) by {
                assert(pat_eq(a[i + 1], b[i + 1]));
            }
            assert(pat_eq(a[0], b[0]));
        }
        if pats_eq(a, b) {
            assert forall|i: int| 0 <= i < a.len() implies #[trigger] pat_eq(a[i], b[i]) by {
                if i > 0 {
                    assert(pat_eq(a.drop_first()[i - 1], b.drop_first()[i - 1]));
                }
            }
        }
    }
}

proof fn lemma_exprs_eq(a: Seq<Expr>, b: Seq<Expr>)
    ensures
        exprs_eq(a, b) <==> (a.len() == b.len() && forall|i: int| 0 <= i < a.len() ==> #[trigger] expr_eq(a[i], b[i])),
    decreases a.len(),
{
    if a.len() > 0 && b.len() > 0 {
        lemma_exprs_eq(a.drop_first(), b.drop_first());
        if a.len() == b.len() && forall|i: int| 0 <= i < a.len() ==> #[trigger] expr_eq(a[i], b[i]) {
            assert forall|i: int| 0 <= i < a.drop_first().len() implies #[trigger] expr_eq(a.drop_first()[i], b.drop_first()[i]) by {
                assert(expr_eq(a[i + 1], b[i + 1]));
            }
            assert(expr_eq(a[0], b[0]));
        }
        if exprs_eq(a, b) {
            assert forall|i: int| 0 <= i < a.len() implies #[trigger] expr_eq(a[i], b[i]) by {
                if i > 0 {
                    assert(expr_eq(a.drop_first()[i - 1], b.drop_first()[i - 1]));
                }
            }
        }
    }
}

proof fn lemma_stmts_eq(a: Seq<Stmt>, b: Seq<Stmt>)
    ensures
        stmts_eq(a, b) <==> (a.len() == b.len() && forall|i: int| 0 <= i < a.len() ==> #[trigger] stmt_eq(a[i], b[i])),
    decreases a.len(),
{
    if a.len() > 0 && b.len() > 0 {
        lemma_stmts_eq(a.drop_first(), b.drop_first());
        if a.len() == b.len() && forall|i: int| 0 <= i < a.len() ==> #[trigger] stmt_eq(a[i], b[i]) {
            assert forall|i: int| 0 <= i < a.drop_first().len() implies #[trigger] stmt_eq(a.drop_first()[i], b.drop_first()[i]) by {
                assert(stmt_eq(a[i + 1], b[i + 1]));
            }
            assert(stmt_eq(a[0], b[0]));
        }
        if stmts_eq(a, b) {
            assert forall|i: int| 0 <= i < a.len() implies #[trigger] stmt_eq(a[i], b[i]) by {
                if i > 0 {
                    assert(stmt_eq(a.drop_first()[i - 1], b.drop_first()[i - 1]));
                }
            }
        }
    }
}

/// A copy of a pattern.
pub fn copy_pat(p: &Pat) -> (res: Pat)
    ensures
        pat_eq(*p, res),
    decreases p,
{
    match p {
        Pat::Ident { by_ref, mutable, ident, subpat } => Pat::Ident {
            by_ref: *by_ref,
            mutable: *mutable,
            ident: ident.clone(),
            subpat: *subpat,
        },
        Pat::Tuple(v) => Pat::Tuple(copy_pats(v)),
        Pat::Slice(v) => Pat::Slice(copy_pats(v)),
        Pat::Reference { mutable, pat } => Pat::Reference { mutable: *mutable, pat: Box::new(copy_pat(pat)) },
        Pat::Or(v) => Pat::Or(copy_pats(v)),
        Pat::Other(h) => Pat::Other(*h),
    }
}

fn copy_pats(v: &Vec<Pat>) -> (res: Vec<Pat>)
    ensures
        pats_eq(v@, res@),
    decreases v,
{
    let mut out: Vec<Pat> = Vec::new();
    let mut i: usize = 0;
    while i < v.len()
        invariant
            0 <= i <= v.len(),
            out@.len() == i,
            forall|k: int| 0 <= k < i ==> #[trigger] pat_eq(v@[k], out@[k]),
        decreases v.len() - i,
    {
        proof {
            assert(decreases_to!(v => v@));
            assert(decreases_to!(v@ => v@[i as int]));
        }
        out.push(copy_pat(&v[i]));
        i += 1;
    }
    proof {
        lemma_pats_eq(v@, out@);
    }
    out
}

/// A copy of an expression.
pub fn copy_expr(e: &Expr) -> (res: Expr)
    ensures
        expr_eq(*e, res),
    decreases e,
{
    match e {
        Expr::Path { qualified, segments } => {
            let copied = copy_segments(segments, 0, segments.len());
            assert(segments.deep_view().subrange(0, segments.len() as int) =~= segments.deep_view());
            Expr::Path { qualified: *qualified, segments: copied }
        },
        Expr::MethodCall { receiver, args } => Expr::MethodCall {
            receiver: Box::new(copy_expr(receiver)),
            args: copy_exprs(args),
        },
        Expr::Field { base } => Expr::Field { base: Box::new(copy_expr(base)) },
        Expr::Call { func, args } => Expr::Call { func: Box::new(copy_expr(func)), args: copy_exprs(args) },
        Expr::Block(block) => Expr::Block(copy_block(block)),
        Expr::If { cond, then_branch, else_branch } => {
            let else_branch = match else_branch {
                Some(x) => Some(Box::new(copy_expr(x))),
                None => None,
            };
            Expr::If { cond: Box::new(copy_expr(cond)), then_branch: copy_block(then_branch), else_branch }
        },
        Expr::Match { scrutinee, arms } => Expr::Match {
            scrutinee: Box::new(copy_expr(scrutinee)),
            arms: copy_exprs(arms),
        },
        Expr::While { cond, body } => Expr::While { cond: Box::new(copy_expr(cond)), body: copy_block(body) },
        Expr::Loop(body) => Expr::Loop(copy_block(body)),
        Expr::ForLoop { iterable, body } => Expr::ForLoop {
            iterable: Box::new(copy_expr(iterable)),
            body: copy_block(body),
        },
        Expr::Unary(x) => Expr::Unary(Box::new(copy_expr(x))),
        Expr::Paren(x) => Expr::Paren(Box::new(copy_expr(x))),
        Expr::Reference(x) => Expr::Reference(Box::new(copy_expr(x))),
        Expr::Return(o) => match o {
            Some(x) => Expr::Return(Some(Box::new(copy_expr(x)))),
            None => Expr::Return(None),
        },
        Expr::Await(x) => Expr::Await(Box::new(copy_expr(x))),
        Expr::Try(x) => Expr::Try(Box::new(copy_expr(x))),
        Expr::Closure(x) => Expr::Closure(Box::new(copy_expr(x))),
        Expr::Other => Expr::Other,
    }
}

fn copy_exprs(v: &Vec<Expr>) -> (res: Vec<Expr>)
    ensures
        exprs_eq(v@, res@),
    decreases v,
{
    let mut out: Vec<Expr> = Vec::new();
    let mut i: usize = 0;
    while i < v.len()
        invariant
            0 <= i <= v.len(),
            out@.len() == i,
            forall|k: int| 0 <= k < i ==> #[trigger] expr_eq(v@[k], out@[k]),
        decreases v.len() - i,
    {
        proof {
            assert(decreases_to!(v => v@));
            assert(decreases_to!(v@ => v@[i as int]));
        }
        out.push(copy_expr(&v[i]));
        i += 1;
    }
    proof {
        lemma_exprs_eq(v@, out@);
    }
    out
}

fn copy_stmt(s: &Stmt) -> (res: Stmt)
    ensures
        stmt_eq(*s, res),
    decreases s,
{
    match s {
        Stmt::Local { pat, init } => {
            let init = match init {
                Some(x) => Some(copy_expr(x)),
                None => None,
            };
            Stmt::Local { pat: copy_pat(pat), init }
        },
        Stmt::Item => Stmt::Item,
        Stmt::Expr { expr, semi } => Stmt::Expr { expr: copy_expr(expr), semi: *semi },
        Stmt::Macro => Stmt::Macro,
    }
}

/// A copy of a block.
pub fn copy_block(b: &Block) -> (res: Block)
    ensures
        block_eq(*b, res),
    decreases b,
{
    let mut out: Vec<Stmt> = Vec::new();
    let mut i: usize = 0;
    while i < b.stmts.len()
        invariant
            0 <= i <= b.stmts.len(),
            out@.len() == i,
            forall|k: int| 0 <= k < i ==> #[trigger] stmt_eq(b.stmts@[k], out@[k]),
        decreases b.stmts.len() - i,
    {
        proof {
            assert(decreases_to!(b => b.stmts));
            assert(decreases_to!(b.stmts => b.stmts@));
            assert(decreases_to!(b.stmts@ => b.stmts@[i as int]));
        }
        out.push(copy_stmt(&b.stmts[i]));
        i += 1;
    }
    proof {
        lemma_stmts_eq(b.stmts@, out@);
    }
    Block { origin: b.origin, stmts: out }
}

/// A copy of a list of handles.
pub fn copy_handles(v: &Vec<u64>) -> (res: Vec<u64>)
    ensures
        res@ == v@,
{
    let mut out: Vec<u64> = Vec::new();
    let mut i: usize = 0;
    while i < v.len()
        invariant
            0 <= i <= v.len(),
            out@ == v@.take(i as int),
        decreases v.len() - i,
    {
        out.push(v[i]);
        i += 1;
        assert(out@ =~= v@.take(i as int));
    }
    assert(v@.take(v.len() as int) =~= v@);
    out
}

/// A copy of a function argument.
pub fn copy_fn_arg(a: &FnArg) -> (res: FnArg)
    ensures
        fn_arg_eq(*a, res),
{
    match a {
        FnArg::Receiver(r) => {
            let reference = match &r.reference {
                Some(l) => Some(copy_opt_string(l)),
                None => None,
            };
            let explicit_ty = match &r.explicit_ty {
                Some(t) => Some(copy_ty(t)),
                None => None,
            };
            FnArg::Receiver(Receiver { attrs: copy_handles(&r.attrs), reference, mutable: r.mutable, explicit_ty })
        },
        FnArg::Typed { attrs, pat, ty } => FnArg::Typed { attrs: copy_handles(attrs), pat: copy_pat(pat), ty: copy_ty(ty) },
    }
}

/// A copy of a list of function arguments.
pub fn copy_fn_args(v: &Vec<FnArg>) -> (res: Vec<FnArg>)
    ensures
        fn_args_eq(v@, res@),
{
    let mut out: Vec<FnArg> = Vec::new();
    let mut i: usize = 0;
    while i < v.len()
        invariant
            0 <= i <= v.len(),
            out@.len() == i,
            forall|k: int| 0 <= k < i ==> #[trigger] fn_arg_eq(v@[k], out@[k]),
        decreases v.len() - i,
    {
        out.push(copy_fn_arg(&v[i]));
        i += 1;
    }
    out
}

} // verus!
