use by_env::derive_env::{no, Envs, Field};
use by_env::env_attr::{Args, Env, EnvAttr, EnvStreams, Modifiers, Segment};
use by_env::fn_stream::{Body, ForwardArg, Stream, Vis};
use by_env::function_attr::{name_of_arg, ByEnv};
use by_env::impl_attr::{is_env_attribute, ByImpl, FnAttr, ImplItems, OuterItem, StreamExt, StreamOrPassThru};
use by_env::syntax::{Block, Expr, FnArg, Pat, PathArgs, Receiver, Stmt, Ty, TySegment};

fn seg(s: &str) -> Segment {
    Segment::bare(s.to_string())
}

fn path(p: &str) -> Vec<Segment> {
    p.split("::").map(seg).collect()
}

fn path_text(p: &[Segment]) -> String {
    p.iter().map(|s| s.ident.clone()).collect::<Vec<_>>().join("::")
}

fn args(supercede: bool, envs: &[&str]) -> Args {
    let modifiers = if supercede { vec![Modifiers::Supercede] } else { vec![] };
    Args::new(modifiers, envs.iter().map(|p| Env::from_segments(path(p))).collect())
}

fn names(a: &Args) -> Vec<String> {
    a.envs.iter().map(|e| e.name.clone()).collect()
}

fn typed(name: &str) -> FnArg {
    FnArg::Typed {
        attrs: vec![],
        pat: Pat::Ident { by_ref: false, mutable: false, ident: name.to_string(), subpat: None },
        ty: Ty::Other(0),
    }
}

fn ref_self() -> FnArg {
    FnArg::Receiver(Receiver { attrs: vec![], reference: Some(None), mutable: false, explicit_ty: None })
}

fn stream(name: &str, is_async: bool, fn_args: Vec<FnArg>, body: Block) -> Stream {
    Stream {
        attrs: vec![10, 11],
        vis: None,
        is_async,
        generics: None,
        name: name.to_string(),
        args: fn_args,
        ret_arrow: true,
        ret: Some(12),
        content: Body::Block(body),
    }
}

fn self_field_body() -> Block {
    Block {
        origin: 5,
        stmts: vec![Stmt::Expr {
            expr: Expr::Field { base: Box::new(Expr::Path { qualified: false, segments: vec![seg("self")] }) },
            semi: false,
        }],
    }
}

fn impl_items(items: Vec<StreamOrPassThru>) -> ImplItems {
    ImplItems {
        items,
        attrs: vec![],
        self_ty: Ty::Path {
            leading_colon: false,
            segments: vec![TySegment { ident: "Basic".to_string(), arguments: PathArgs::Bare }],
        },
        self_ty_text: "Basic".to_string(),
        unsafety: false,
        generics: 0,
    }
}

fn method(own: Option<Args>) -> StreamOrPassThru {
    StreamOrPassThru::Stream(StreamExt {
        fn_args: own,
        inner: stream("test", false, vec![ref_self(), typed("values")], self_field_body()),
    })
}

#[test]
fn test_fn_form() {
    let attr = EnvAttr::new(args(false, &["Envs::Dev"]), EnvStreams::Function(stream("test", false, vec![typed("a")], Block { origin: 0, stmts: vec![] })));
    assert!(matches!(attr, Ok(EnvAttr::Function(..))));
}

#[test]
fn test_impl_form() {
    let attr = EnvAttr::new(args(false, &["Envs::Dev"]), EnvStreams::Impl(impl_items(vec![method(Some(args(false, &["Envs::Prod"])))])));
    assert!(matches!(attr, Ok(EnvAttr::Impl(..))));
}

#[test]
fn supercede_is_refused_on_items() {
    let on_fn = EnvAttr::new(args(true, &["Envs::Dev"]), EnvStreams::Function(stream("f", false, vec![], Block { origin: 0, stmts: vec![] })));
    match on_fn {
        Err(e) => assert_eq!(e.message(), "@supercede is not allowed in fn attributes."),
        Ok(_) => panic!("accepted"),
    }
    let on_impl = EnvAttr::new(args(true, &["Envs::Dev"]), EnvStreams::Impl(impl_items(vec![])));
    match on_impl {
        Err(e) => assert_eq!(e.message(), "@supercede is not allowed in impl attributes."),
        Ok(_) => panic!("accepted"),
    }
}

#[test]
fn arguments_are_named_for_forwarding() {
    assert_eq!(name_of_arg(&ref_self()), "self");
    assert_eq!(name_of_arg(&typed("values")), "values");
}

#[test]
fn basic_function_expansion() {
    let by_env = ByEnv::new(
        args(false, &["Envs::Local", "Envs::Dev"]),
        stream("basic_test_fn", false, vec![typed("a")], Block { origin: 3, stmts: vec![] }),
    );
    let plan = by_env.plan();
    assert!(matches!(plan.member.vis, Some(Vis::Public)));
    assert_eq!(plan.member.name, "basic_test_fn");
    assert!(matches!(plan.member.content, Body::Block(Block { origin: 3, .. })));
    match &plan.context_fn.content {
        Body::InContext { env, name, args } => {
            assert_eq!(path_text(env), "Envs");
            assert_eq!(name, "basic_test_fn");
            assert_eq!(args, &vec!["a".to_string()]);
        }
        _ => panic!("expected a call through the context"),
    }
    assert!(plan.context_fn.vis.is_none());
    assert_eq!(plan.dispatcher.args.len(), 2);
    assert!(matches!(&plan.dispatcher.args[0], FnArg::Receiver(Receiver { reference: Some(None), mutable: false, explicit_ty: None, .. })));
    match &plan.dispatcher.content {
        Body::MatchEnv { name, args } => {
            assert_eq!(name, "basic_test_fn");
            assert_eq!(args, &vec!["a".to_string()]);
        }
        _ => panic!("expected a dispatch"),
    }
    assert_eq!(plan.targets.len(), 2);
    assert_eq!(path_text(&plan.targets[0].env_as_holder), "Local");
    assert_eq!(path_text(&plan.targets[0].macro_name), "define_local_p");
    assert_eq!(path_text(&plan.targets[1].nonp_macro_name), "define_dev_nonp");
    assert_eq!(path_text(&plan.targets[1].env), "Envs");
}

#[test]
fn env_attributes_are_recognised_by_their_first_segment() {
    assert!(is_env_attribute(&Some("env".to_string())));
    assert!(!is_env_attribute(&Some("allow".to_string())));
    assert!(!is_env_attribute(&None));
}

#[test]
fn test_parse_member_basic_no_attributes() {
    let ext = StreamExt::from_fn(vec![FnAttr::Other(1)], stream("test", false, vec![], Block { origin: 0, stmts: vec![] }))
        .ok()
        .expect("one method");
    assert!(ext.envs_as_str().is_empty());
    assert_eq!(ext.inner.attrs, vec![1]);
}

#[test]
fn test_parse_member_basic_fn_attributes() {
    let ext = StreamExt::from_fn(
        vec![FnAttr::Other(1), FnAttr::Env(args(false, &["Envs::Dev", "Envs::Local"])), FnAttr::Other(2)],
        stream("test", false, vec![], Block { origin: 0, stmts: vec![] }),
    )
    .ok()
    .expect("one method");
    assert_eq!(ext.envs_as_str(), vec!["Dev", "Local"]);
    assert_eq!(ext.inner.attrs, vec![1, 2]);
}

#[test]
fn two_env_attributes_on_a_method_are_refused() {
    let res = StreamExt::from_fn(
        vec![FnAttr::Env(args(false, &["Envs::Dev"])), FnAttr::Env(args(false, &["Envs::Qa"]))],
        stream("test", false, vec![], Block { origin: 0, stmts: vec![] }),
    );
    match res {
        Err(e) => assert_eq!(e.message(), "item impls may only have one #[env(..)] specification."),
        Ok(_) => panic!("accepted"),
    }
}

fn first_method_envs(b: &ByImpl) -> Vec<String> {
    match &b.stream.items[0] {
        StreamOrPassThru::Stream(ext) => ext.envs_as_str(),
        _ => panic!("got passthru"),
    }
}

#[test]
fn test_env_resolver_supercedes_impl_envs() {
    let b = ByImpl::new(args(false, &["Envs::Prod"]), impl_items(vec![method(Some(args(true, &["Envs::Dev", "Envs::Local"])))]));
    assert_eq!(first_method_envs(&b), vec!["Dev", "Local"]);
}

#[test]
fn test_env_resolver_merges_impl_envs() {
    let b = ByImpl::new(args(false, &["Envs::Prod"]), impl_items(vec![method(Some(args(false, &["Envs::Dev", "Envs::Local"])))]));
    assert_eq!(first_method_envs(&b), vec!["Dev", "Local", "Prod"]);
}

#[test]
fn methods_without_own_envs_keep_none() {
    let b = ByImpl::new(args(false, &["Envs::Prod"]), impl_items(vec![method(None), StreamOrPassThru::Passthru(9)]));
    assert!(first_method_envs(&b).is_empty());
    assert!(matches!(b.stream.items[1], StreamOrPassThru::Passthru(9)));
    assert_eq!(names(&b.args), vec!["Prod"]);
}

#[test]
fn impl_expansion() {
    let b = ByImpl::new(args(false, &["Envs::Qa", "Envs::Prod"]), impl_items(vec![method(None), StreamOrPassThru::Passthru(9)]));
    let plan = b.plan();
    assert_eq!(plan.outer.len(), 2);
    assert!(matches!(plan.outer[1], OuterItem::Passthru(9)));
    assert!(plan.wrappers[1].is_none());
    match &plan.outer[0] {
        OuterItem::Function { internal, plan } => {
            assert_eq!(internal.stream.name, "impl_basic_test");
            assert_eq!(names(&internal.args), vec!["Qa", "Prod"]);
            match &internal.stream.args[0] {
                FnArg::Typed { pat: Pat::Ident { ident, .. }, ty: Ty::Reference { elem, .. }, .. } => {
                    assert_eq!(ident, "slf");
                    assert!(matches!(&**elem, Ty::Path { segments, .. } if segments[0].ident == "Basic"));
                }
                _ => panic!("receiver was not replaced"),
            }
            match &internal.stream.content {
                Body::Block(block) => match &block.stmts[0] {
                    Stmt::Expr { expr: Expr::Field { base }, .. } => {
                        assert!(matches!(&**base, Expr::Path { segments, .. } if segments[0].ident == "slf"));
                    }
                    _ => panic!("shape changed"),
                },
                _ => panic!("body lost"),
            }
            match &plan.dispatcher.content {
                Body::MatchEnv { name, args } => {
                    assert_eq!(name, "impl_basic_test");
                    assert_eq!(args, &vec!["slf".to_string(), "values".to_string()]);
                }
                _ => panic!("expected a dispatch"),
            }
            assert_eq!(plan.targets.len(), 2);
        }
        _ => panic!("expected a function"),
    }
    let w = plan.wrappers[0].as_ref().expect("wrapper");
    assert_eq!(w.stream.name, "test");
    assert!(matches!(&w.stream.args[0], FnArg::Receiver(..)));
    match &w.stream.content {
        Body::Forward { target, forwarded } => {
            assert_eq!(target, "impl_basic_test");
            assert_eq!(forwarded.len(), 2);
            assert!(matches!(forwarded[0], ForwardArg::SelfValue));
            assert!(matches!(&forwarded[1], ForwardArg::Pattern(Pat::Ident { ident, .. }) if ident == "values"));
        }
        _ => panic!("expected a forward"),
    }
    assert_eq!(w.macros.iter().map(|m| path_text(m)).collect::<Vec<_>>(), vec!["define_qa_p", "define_prod_p"]);
}

fn field(name: &str, prod: bool) -> Field {
    Field { ident: name.to_string(), prod }
}

#[test]
fn derive_with_one_prod() {
    let envs = Envs { ident: "Envs".to_string(), data: vec![field("Local", no()), field("Dev", false), field("Qa", false), field("Prod", true)] };
    let plan = envs.derive_env().ok().expect("plan");
    assert_eq!(plan.env, "Envs");
    assert_eq!(plan.prod_variant, "Prod");
    assert_eq!(plan.variants.len(), 4);
    assert_eq!(plan.variants[0].name, "Local");
    assert_eq!(plan.variants[0].macro_name, "define_local_p");
    assert_eq!(plan.variants[0].nonp_macro_name, "define_local_nonp");
    assert_eq!(plan.variants.iter().filter(|v| v.prod).count(), 1);
    assert!(plan.variants[3].prod);
}

#[test]
fn derive_needs_exactly_one_prod() {
    let none = Envs { ident: "Envs".to_string(), data: vec![field("Dev", false)] };
    match none.derive_env() {
        Err(e) => assert_eq!(
            e.message(),
            "exactly one prod environment must be specified. this is used as the source of origin for type signatures for compatibility."
        ),
        Ok(_) => panic!("accepted"),
    }
    let two = Envs { ident: "Envs".to_string(), data: vec![field("Dev", true), field("Prod", true)] };
    assert!(two.derive_env().is_err());
    let empty = Envs { ident: "Envs".to_string(), data: vec![] };
    assert!(empty.derive_env().is_err());
}

#[test]
fn default_is_not_prod() {
    assert!(!no());
}

#[test]
fn attribute_and_derive_agree_on_names() {
    let e = Env::from_segments(path("crate::envs::Envs::QaStage"));
    let envs = Envs { ident: "Envs".to_string(), data: vec![field("QaStage", false), field("Prod", true)] };
    let plan = envs.derive_env().ok().expect("plan");
    assert_eq!(e.macro_name.last().unwrap().ident, plan.variants[0].macro_name);
    assert_eq!(e.nonp_macro_name.last().unwrap().ident, plan.variants[0].nonp_macro_name);
    assert_eq!(e.env_as_holder.last().unwrap().ident, plan.variants[0].name);
    assert_eq!(path_text(&e.macro_name), "crate::envs::define_qa_stage_p");
}
