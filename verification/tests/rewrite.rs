use by_env::env_attr::Segment;
use by_env::rewrite::{rename_block, substitute_self, swap_self_block, swap_self_receiver};
use by_env::syntax::{Block, Expr, FnArg, GenericArg, Pat, PathArgs, Receiver, Stmt, Ty, TySegment};

fn seg(s: &str) -> Segment {
    Segment::bare(s.to_string())
}

fn ty_seg(s: &str) -> TySegment {
    TySegment { ident: s.to_string(), arguments: PathArgs::Bare }
}

fn ty_path(s: &str) -> Ty {
    Ty::Path { leading_colon: false, segments: s.split("::").map(ty_seg).collect() }
}

/// `outer<args>`, a one-segment path with angle-bracketed arguments.
fn generic(outer: &str, args: Vec<GenericArg>) -> Ty {
    Ty::Path {
        leading_colon: false,
        segments: vec![TySegment { ident: outer.to_string(), arguments: PathArgs::Angle { turbofish: false, args } }],
    }
}

/// The single type argument of a one-segment generic path `outer<T>`.
fn only_type_arg<'a>(t: &'a Ty, outer: &str) -> &'a Ty {
    match t {
        Ty::Path { segments, .. } => {
            assert_eq!(segments.len(), 1);
            assert_eq!(segments[0].ident, outer);
            match &segments[0].arguments {
                PathArgs::Angle { turbofish: false, args } => {
                    assert_eq!(args.len(), 1);
                    match &args[0] {
                        GenericArg::Type(t) => t,
                        GenericArg::Other(_) => panic!("expected a type argument"),
                    }
                }
                _ => panic!("expected angle-bracketed arguments"),
            }
        }
        _ => panic!("expected a path"),
    }
}

fn is_path(t: &Ty, s: &str) -> bool {
    match t {
        Ty::Path { segments, .. } => {
            segments.iter().map(|x| x.ident.clone()).collect::<Vec<_>>().join("::") == s
        }
        _ => false,
    }
}

fn expr_path(s: &str) -> Expr {
    Expr::Path { qualified: false, segments: s.split("::").map(seg).collect() }
}

fn path_name(e: &Expr) -> String {
    match e {
        Expr::Path { segments, .. } => segments.iter().map(|x| x.ident.clone()).collect::<Vec<_>>().join("::"),
        _ => panic!("not a path"),
    }
}

fn receiver(reference: Option<Option<String>>, mutable: bool, explicit_ty: Option<Ty>) -> FnArg {
    FnArg::Receiver(Receiver { attrs: vec![7], reference, mutable, explicit_ty })
}

fn typed(name: &str, ty: Ty) -> FnArg {
    FnArg::Typed {
        attrs: vec![],
        pat: Pat::Ident { by_ref: false, mutable: false, ident: name.to_string(), subpat: None },
        ty,
    }
}

fn slf_of(arg: &FnArg) -> (bool, &Ty) {
    match arg {
        FnArg::Typed { attrs, pat: Pat::Ident { ident, mutable, by_ref, subpat }, ty } => {
            assert!(attrs.is_empty());
            assert_eq!(ident, "slf");
            assert!(!by_ref);
            assert!(subpat.is_none());
            (*mutable, ty)
        }
        _ => panic!("receiver was not replaced"),
    }
}

#[test]
fn ref_self_becomes_reference_to_self_type() {
    let mut args = vec![receiver(Some(None), false, None), typed("a", ty_path("i32"))];
    let name = swap_self_receiver(&ty_path("Basic"), &mut args);
    assert_eq!(name.as_deref(), Some("slf"));
    assert_eq!(args.len(), 2);
    let (mutable, ty) = slf_of(&args[0]);
    assert!(!mutable);
    match ty {
        Ty::Reference { lifetime, mutable, elem } => {
            assert!(lifetime.is_none());
            assert!(!mutable);
            assert!(is_path(elem, "Basic"));
        }
        _ => panic!("expected a reference"),
    }
    assert!(matches!(&args[1], FnArg::Typed { pat: Pat::Ident { ident, .. }, .. } if ident == "a"));
}

#[test]
fn ref_mut_self_with_lifetime_keeps_both() {
    let mut args = vec![receiver(Some(Some("'a".to_string())), true, None)];
    swap_self_receiver(&ty_path("Basic"), &mut args);
    let (mutable, ty) = slf_of(&args[0]);
    assert!(!mutable, "the pattern of &mut self is not mut");
    match ty {
        Ty::Reference { lifetime, mutable, elem } => {
            assert_eq!(lifetime.as_deref(), Some("'a"));
            assert!(*mutable);
            assert!(is_path(elem, "Basic"));
        }
        _ => panic!("expected a reference"),
    }
}

#[test]
fn mut_self_by_value_becomes_mut_slf() {
    let mut args = vec![receiver(None, true, None)];
    swap_self_receiver(&ty_path("Basic"), &mut args);
    let (mutable, ty) = slf_of(&args[0]);
    assert!(mutable);
    assert!(is_path(ty, "Basic"));
}

#[test]
fn typed_self_has_self_replaced() {
    let explicit = Ty::Tuple(vec![
        ty_path("Self"),
        Ty::Slice(Box::new(ty_path("Self"))),
        ty_path("Vec"),
    ]);
    let mut args = vec![receiver(None, false, Some(explicit))];
    swap_self_receiver(&ty_path("Basic"), &mut args);
    let (_, ty) = slf_of(&args[0]);
    match ty {
        Ty::Tuple(v) => {
            assert!(is_path(&v[0], "Basic"));
            assert!(matches!(&v[1], Ty::Slice(e) if is_path(e, "Basic")));
            assert!(is_path(&v[2], "Vec"));
        }
        _ => panic!("expected a tuple"),
    }
}

#[test]
fn arc_self_receiver_becomes_arc_of_self_type() {
    let mut args = vec![receiver(None, false, Some(generic("Arc", vec![GenericArg::Type(ty_path("Self"))])))];
    let name = swap_self_receiver(&ty_path("Basic"), &mut args);
    assert_eq!(name.as_deref(), Some("slf"));
    let (mutable, ty) = slf_of(&args[0]);
    assert!(!mutable);
    assert!(is_path(only_type_arg(ty, "Arc"), "Basic"));
}

#[test]
fn mut_box_self_receiver_becomes_mut_box_of_self_type() {
    let mut args = vec![receiver(None, true, Some(generic("Box", vec![GenericArg::Type(ty_path("Self"))])))];
    let name = swap_self_receiver(&ty_path("Basic"), &mut args);
    assert_eq!(name.as_deref(), Some("slf"));
    let (mutable, ty) = slf_of(&args[0]);
    assert!(mutable);
    assert!(is_path(only_type_arg(ty, "Box"), "Basic"));
}

#[test]
fn self_is_replaced_deep_inside_type_arguments() {
    // Pin<&mut Self>, with a lifetime argument kept by handle beside it.
    let inner = Ty::Reference { lifetime: None, mutable: true, elem: Box::new(ty_path("Self")) };
    let t = generic("Pin", vec![GenericArg::Other(4), GenericArg::Type(inner)]);
    let out = substitute_self(&t, &ty_path("Basic"));
    match out {
        Ty::Path { segments, .. } => match &segments[0].arguments {
            PathArgs::Angle { args, .. } => {
                assert!(matches!(args[0], GenericArg::Other(4)));
                match &args[1] {
                    GenericArg::Type(Ty::Reference { mutable: true, elem, .. }) => assert!(is_path(elem, "Basic")),
                    _ => panic!("expected a reference"),
                }
            }
            _ => panic!("expected angle-bracketed arguments"),
        },
        _ => panic!("expected a path"),
    }
}

#[test]
fn parenthesized_arguments_are_kept() {
    let t = Ty::Path {
        leading_colon: false,
        segments: vec![TySegment { ident: "Fn".to_string(), arguments: PathArgs::Parenthesized(9) }],
    };
    let out = substitute_self(&t, &ty_path("Basic"));
    match out {
        Ty::Path { segments, .. } => {
            assert_eq!(segments[0].ident, "Fn");
            assert!(matches!(segments[0].arguments, PathArgs::Parenthesized(9)));
        }
        _ => panic!("expected a path"),
    }
}

#[test]
fn qualified_self_path_is_not_replaced() {
    let out = substitute_self(&ty_path("Self::Item"), &ty_path("Basic"));
    assert!(is_path(&out, "Self::Item"));
    let out = substitute_self(&Ty::Other(3), &ty_path("Basic"));
    assert!(matches!(out, Ty::Other(3)));
}

#[test]
fn functions_without_receiver_are_left_alone() {
    let mut args = vec![typed("a", ty_path("i32"))];
    assert!(swap_self_receiver(&ty_path("Basic"), &mut args).is_none());
    assert_eq!(args.len(), 1);
    let mut empty: Vec<FnArg> = vec![];
    assert!(swap_self_receiver(&ty_path("Basic"), &mut empty).is_none());
    assert!(empty.is_empty());
}

fn method_body() -> Block {
    // { let self_copy = self.a; if self.ok() { return self; } other::self }
    Block {
        origin: 1,
        stmts: vec![
            Stmt::Local {
                pat: Pat::Ident { by_ref: false, mutable: false, ident: "self_copy".to_string(), subpat: None },
                init: Some(Expr::Field { base: Box::new(expr_path("self")) }),
            },
            Stmt::Expr {
                expr: Expr::If {
                    cond: Box::new(Expr::MethodCall { receiver: Box::new(expr_path("self")), args: vec![] }),
                    then_branch: Block {
                        origin: 2,
                        stmts: vec![Stmt::Expr {
                            expr: Expr::Return(Some(Box::new(expr_path("self")))),
                            semi: true,
                        }],
                    },
                    else_branch: None,
                },
                semi: false,
            },
            Stmt::Expr { expr: expr_path("other::self"), semi: false },
            Stmt::Macro,
        ],
    }
}

#[test]
fn self_in_body_becomes_slf() {
    let mut body = method_body();
    swap_self_block(&mut body);
    assert_eq!(body.origin, 1);
    assert_eq!(body.stmts.len(), 4);
    match &body.stmts[0] {
        Stmt::Local { pat: Pat::Ident { ident, .. }, init: Some(Expr::Field { base }) } => {
            assert_eq!(ident, "self_copy");
            assert_eq!(path_name(base), "slf");
        }
        _ => panic!("shape changed"),
    }
    match &body.stmts[1] {
        Stmt::Expr { expr: Expr::If { cond, then_branch, else_branch: None }, semi: false } => {
            match &**cond {
                Expr::MethodCall { receiver, .. } => assert_eq!(path_name(receiver), "slf"),
                _ => panic!("shape changed"),
            }
            assert_eq!(then_branch.origin, 2);
            match &then_branch.stmts[0] {
                Stmt::Expr { expr: Expr::Return(Some(e)), semi: true } => assert_eq!(path_name(e), "slf"),
                _ => panic!("shape changed"),
            }
        }
        _ => panic!("shape changed"),
    }
    match &body.stmts[2] {
        Stmt::Expr { expr, .. } => assert_eq!(path_name(expr), "other::self"),
        _ => panic!("shape changed"),
    }
    assert!(matches!(body.stmts[3], Stmt::Macro));
}

#[test]
fn renaming_twice_is_renaming_once() {
    let once = rename_block(&method_body());
    let twice = rename_block(&once);
    match (&once.stmts[0], &twice.stmts[0]) {
        (Stmt::Local { init: Some(Expr::Field { base: a }), .. }, Stmt::Local { init: Some(Expr::Field { base: b }), .. }) => {
            assert_eq!(path_name(a), path_name(b));
        }
        _ => panic!("shape changed"),
    }
}

#[test]
fn self_pattern_in_let_is_renamed() {
    let body = Block {
        origin: 0,
        stmts: vec![Stmt::Local {
            pat: Pat::Tuple(vec![
                Pat::Ident { by_ref: false, mutable: true, ident: "self".to_string(), subpat: None },
                Pat::Other(4),
            ]),
            init: None,
        }],
    };
    let out = rename_block(&body);
    match &out.stmts[0] {
        Stmt::Local { pat: Pat::Tuple(v), init: None } => {
            assert!(matches!(&v[0], Pat::Ident { ident, mutable: true, .. } if ident == "slf"));
            assert!(matches!(&v[1], Pat::Other(4)));
        }
        _ => panic!("shape changed"),
    }
}

#[test]
fn qualified_self_expression_is_not_renamed() {
    let body = Block {
        origin: 0,
        stmts: vec![Stmt::Expr { expr: Expr::Path { qualified: true, segments: vec![seg("self")] }, semi: true }],
    };
    let out = rename_block(&body);
    match &out.stmts[0] {
        Stmt::Expr { expr, .. } => assert_eq!(path_name(expr), "self"),
        _ => panic!("shape changed"),
    }
}

#[test]
fn substituting_twice_is_substituting_once() {
    let t = Ty::Reference { lifetime: None, mutable: false, elem: Box::new(Ty::Tuple(vec![ty_path("Self"), ty_path("u8")])) };
    let once = substitute_self(&t, &ty_path("Basic"));
    let twice = substitute_self(&once, &ty_path("Basic"));
    for out in [&once, &twice] {
        match out {
            Ty::Reference { elem, .. } => match &**elem {
                Ty::Tuple(v) => {
                    assert!(is_path(&v[0], "Basic"));
                    assert!(is_path(&v[1], "u8"));
                }
                _ => panic!("expected a tuple"),
            },
            _ => panic!("expected a reference"),
        }
    }
}
