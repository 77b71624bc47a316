use futures_async_stream::elision::{determine_lifetime_name, unelide_lifetimes};
use futures_async_stream::signature::{FnArg, GenericParam, Ty};
use futures_async_stream::syntax::Pat;

fn typed(ty: Ty) -> FnArg {
    FnArg::Typed { pat: Pat::Ident { by_ref: false, mutability: false, name: "x".to_string() }, ty }
}

fn path(p: &str, args: Vec<Ty>) -> Ty {
    Ty::Path { path: p.to_string(), args }
}

fn lifetime_params(g: &[GenericParam]) -> Vec<String> {
    g.iter()
        .map(|p| match p {
            GenericParam::Lifetime(l) => l.clone(),
            GenericParam::Type(t) => format!("type {}", t),
            GenericParam::Const(c) => format!("const {}", c),
        })
        .collect()
}

#[test]
fn every_elided_lifetime_is_named() {
    // fn f<'a, T>(&self, x: &T, y: Ref<'_, i32>, z: &'a u8)
    let mut generics = vec![GenericParam::Lifetime("'a".to_string()), GenericParam::Type("T".to_string())];
    let mut args = vec![
        FnArg::Receiver { reference: Some(None), mutability: false, ty: Ty::Tuple(vec![]) },
        typed(Ty::Ref { lifetime: None, mutability: false, elem: Box::new(path("T", vec![])) }),
        typed(path("Ref", vec![Ty::Lifetime("'_".to_string()), path("i32", vec![])])),
        typed(Ty::Ref {
            lifetime: Some("'a".to_string()),
            mutability: false,
            elem: Box::new(path("u8", vec![])),
        }),
    ];
    unelide_lifetimes(&mut generics, &vec![], &mut args);
    assert_eq!(
        lifetime_params(&generics),
        vec!["'a", "'_async0", "'_async1", "'_async2", "type T"]
    );
    assert!(matches!(&args[0], FnArg::Receiver { reference: Some(Some(l)), .. } if l == "'_async0"));
    assert!(matches!(&args[1], FnArg::Typed { ty: Ty::Ref { lifetime: Some(l), .. }, .. } if l == "'_async1"));
    match &args[2] {
        FnArg::Typed { ty: Ty::Path { args, .. }, .. } => {
            assert!(matches!(&args[0], Ty::Lifetime(l) if l == "'_async2"))
        }
        other => panic!("{:?}", other),
    }
    assert!(matches!(&args[3], FnArg::Typed { ty: Ty::Ref { lifetime: Some(l), .. }, .. } if l == "'a"));
}

#[test]
fn nested_references_are_numbered_outside_in() {
    // x: &&'_ u8, self: Pin<&mut Self>
    let mut generics = vec![];
    let mut args = vec![
        FnArg::Receiver {
            reference: None,
            mutability: false,
            ty: path("Pin", vec![Ty::Ref { lifetime: None, mutability: true, elem: Box::new(path("Self", vec![])) }]),
        },
        typed(Ty::Ref {
            lifetime: None,
            mutability: false,
            elem: Box::new(Ty::Ref {
                lifetime: Some("'_".to_string()),
                mutability: false,
                elem: Box::new(path("u8", vec![])),
            }),
        }),
    ];
    unelide_lifetimes(&mut generics, &vec![], &mut args);
    assert_eq!(lifetime_params(&generics), vec!["'_async0", "'_async1", "'_async2"]);
    match &args[1] {
        FnArg::Typed { ty: Ty::Ref { lifetime: Some(outer), elem, .. }, .. } => {
            assert_eq!(outer, "'_async1");
            assert!(matches!(&**elem, Ty::Ref { lifetime: Some(l), .. } if l == "'_async2"));
        }
        other => panic!("{:?}", other),
    }
}

#[test]
fn prefix_avoids_existing_names() {
    let g = vec![GenericParam::Lifetime("'_async0".to_string())];
    assert_eq!(determine_lifetime_name(&g, &vec![]), "'_async_");
    let g = vec![
        GenericParam::Lifetime("'_async".to_string()),
        GenericParam::Lifetime("'_async_x".to_string()),
    ];
    assert_eq!(determine_lifetime_name(&g, &vec![]), "'_async__");
    let g = vec![GenericParam::Lifetime("'a".to_string()), GenericParam::Type("'_async".to_string())];
    assert_eq!(determine_lifetime_name(&g, &vec![]), "'_async");
}

#[test]
fn no_elided_lifetime_means_no_new_parameter() {
    let mut generics = vec![GenericParam::Type("T".to_string())];
    let mut args = vec![typed(path("Vec", vec![path("T", vec![])]))];
    unelide_lifetimes(&mut generics, &vec![], &mut args);
    assert_eq!(lifetime_params(&generics), vec!["type T"]);
}

#[test]
fn many_lifetimes_are_numbered_in_decimal() {
    let mut generics = vec![];
    let mut args: Vec<FnArg> = (0..12)
        .map(|_| typed(Ty::Ref { lifetime: None, mutability: false, elem: Box::new(Ty::Tuple(vec![])) }))
        .collect();
    unelide_lifetimes(&mut generics, &vec![], &mut args);
    assert_eq!(generics.len(), 12);
    assert!(matches!(&generics[11], GenericParam::Lifetime(l) if l == "'_async11"));
    assert!(matches!(&generics[10], GenericParam::Lifetime(l) if l == "'_async10"));
}

#[test]
fn fresh_names_avoid_an_existing_prefix() {
    let mut generics = vec![GenericParam::Lifetime("'_async0".to_string())];
    let mut args = vec![typed(Ty::Ref { lifetime: None, mutability: false, elem: Box::new(path("u8", vec![])) })];
    unelide_lifetimes(&mut generics, &vec![], &mut args);
    assert_eq!(lifetime_params(&generics), vec!["'_async0", "'_async_0"]);
    assert!(matches!(&args[0], FnArg::Typed { ty: Ty::Ref { lifetime: Some(l), .. }, .. } if l == "'_async_0"));
}

#[test]
fn prefix_avoids_higher_ranked_lifetimes() {
    let g = vec![GenericParam::Type("T".to_string())];
    let bound = vec!["'_async0".to_string()];
    assert_eq!(determine_lifetime_name(&g, &bound), "'_async_");
    let bound = vec!["'_async_0".to_string(), "'_async".to_string()];
    assert_eq!(determine_lifetime_name(&g, &bound), "'_async__");
    let mut generics = vec![GenericParam::Type("T".to_string())];
    let mut args = vec![typed(Ty::Ref { lifetime: None, mutability: false, elem: Box::new(path("T", vec![])) })];
    unelide_lifetimes(&mut generics, &vec!["'_async0".to_string()], &mut args);
    assert_eq!(lifetime_params(&generics), vec!["'_async_0", "type T"]);
}
