use chitin::derive::{
    derive_router, remove_spaces, to_fields, AttrInfo, DeriveError, FieldInfo, FieldType, MetaInfo,
    VariantInfo,
};

fn s(x: &str) -> String {
    x.to_string()
}

fn named(name: &str, ty: &str) -> FieldInfo {
    FieldInfo { ident: Some(s(name)), ty: FieldType::Ident(s(ty)) }
}

fn chitin(items: Vec<MetaInfo>) -> AttrInfo {
    AttrInfo::List(items)
}

fn path(x: &str) -> MetaInfo {
    MetaInfo::Path(Some(s(x)))
}

fn response(ty: &str) -> MetaInfo {
    MetaInfo::NameValue { key: Some(s("response")), value: Some(s(ty)) }
}

fn leaf_variant() -> VariantInfo {
    VariantInfo {
        name: s("AskArticles"),
        fields: vec![named("board_id", "i32"), named("count", "usize")],
        attrs: vec![AttrInfo::NotList, chitin(vec![path("leaf"), response("Vec<String>")])],
    }
}

fn router_variant() -> VariantInfo {
    VariantInfo {
        name: s("User"),
        fields: vec![FieldInfo { ident: None, ty: FieldType::Ident(s("UserQuery")) }],
        attrs: vec![chitin(vec![path("router")])],
    }
}

fn refusal(attr: AttrInfo) -> DeriveError {
    let v = VariantInfo { name: s("V"), fields: vec![], attrs: vec![attr] };
    match derive_router(true, &vec![v]) {
        Err(e) => e,
        Ok(_) => panic!("accepted"),
    }
}

#[test]
fn spaces_are_removed() {
    assert_eq!(remove_spaces("crate :: model :: User"), "crate::model::User");
    assert_eq!(remove_spaces(""), "");
    assert_eq!(remove_spaces("   "), "");
}

#[test]
fn fields_are_sorted() {
    let fields = vec![
        named("a", "i32"),
        FieldInfo { ident: None, ty: FieldType::Path(s("crate :: model :: User")) },
        FieldInfo { ident: Some(s("b")), ty: FieldType::Other },
        FieldInfo { ident: Some(s("c")), ty: FieldType::Path(s("Vec < String >")) },
    ];
    let f = to_fields(&fields);
    assert_eq!(f.named, vec![(s("a"), s("i32")), (s("c"), s("Vec<String>"))]);
    assert_eq!(f.unnamed, vec![s("crate::model::User")]);
}

#[test]
fn leaves_and_routers_are_found_in_order() {
    let plain = VariantInfo { name: s("Plain"), fields: vec![], attrs: vec![] };
    let (leaves, routers) = derive_router(true, &vec![leaf_variant(), plain, router_variant()]).unwrap();
    assert_eq!(leaves.len(), 1);
    assert_eq!(leaves[0].name, "AskArticles");
    assert_eq!(leaves[0].response_ty, "Vec<String>");
    assert_eq!(leaves[0].args.len(), 2);
    assert_eq!(leaves[0].args[0].name, "board_id");
    assert_eq!(leaves[0].args[0].ty, "i32");
    assert_eq!(leaves[0].args[1].name, "count");
    assert_eq!(leaves[0].args[1].ty, "usize");
    assert_eq!(routers.len(), 1);
    assert_eq!(routers[0].name, "User");
    assert_eq!(routers[0].next_enum, "UserQuery");
}

#[test]
fn leaf_without_response_is_skipped() {
    let v = VariantInfo { name: s("X"), fields: vec![], attrs: vec![chitin(vec![path("leaf")])] };
    let (leaves, routers) = derive_router(true, &vec![v]).unwrap();
    assert!(leaves.is_empty());
    assert!(routers.is_empty());
}

#[test]
fn only_enums_derive() {
    assert!(matches!(derive_router(false, &vec![]), Err(DeriveError::NotAnEnum)));
}

#[test]
fn refusals() {
    assert!(matches!(refusal(AttrInfo::Unparsable), DeriveError::UnparsableAttribute));
    assert!(matches!(refusal(chitin(vec![])), DeriveError::MissingNodeType));
    assert!(matches!(refusal(chitin(vec![MetaInfo::Other])), DeriveError::NodeTypeNotPath));
    assert!(matches!(refusal(chitin(vec![response("X")])), DeriveError::NodeTypeNotPath));
    assert!(matches!(refusal(chitin(vec![MetaInfo::Path(None)])), DeriveError::NodeTypeNotIdent));
    assert!(matches!(
        refusal(chitin(vec![path("router"), path("extra")])),
        DeriveError::RouterWithMeta
    ));
    assert!(matches!(refusal(chitin(vec![path("router")])), DeriveError::RouterFields));
    assert!(matches!(
        refusal(chitin(vec![path("leaf"), path("response")])),
        DeriveError::LeafMetaNotNameValue
    ));
    assert!(matches!(
        refusal(chitin(vec![path("leaf"), MetaInfo::NameValue { key: Some(s("response")), value: None }])),
        DeriveError::LeafValueNotString
    ));
    assert!(matches!(
        refusal(chitin(vec![path("leaf"), MetaInfo::NameValue { key: None, value: Some(s("T")) }])),
        DeriveError::LeafKeyNotIdent
    ));
    assert!(matches!(
        refusal(chitin(vec![path("leaf"), MetaInfo::NameValue { key: Some(s("resp")), value: Some(s("T")) }])),
        DeriveError::LeafKeyNotResponse
    ));
    assert!(matches!(
        refusal(chitin(vec![path("leaf"), response("T"), response("U")])),
        DeriveError::LeafWithExtraMeta
    ));
    match refusal(chitin(vec![path("request")])) {
        DeriveError::UnknownNodeType(t) => assert_eq!(t, "request"),
        _ => panic!("wrong refusal"),
    }
}

#[test]
fn router_with_named_field_is_refused() {
    let v = VariantInfo {
        name: s("User"),
        fields: vec![named("q", "UserQuery")],
        attrs: vec![chitin(vec![path("router")])],
    };
    assert!(matches!(derive_router(true, &vec![v]), Err(DeriveError::RouterFields)));
}

#[test]
fn first_refusal_wins() {
    let bad = VariantInfo { name: s("B"), fields: vec![], attrs: vec![chitin(vec![path("odd")])] };
    let worse = VariantInfo { name: s("C"), fields: vec![], attrs: vec![AttrInfo::Unparsable] };
    match derive_router(true, &vec![leaf_variant(), bad, worse]) {
        Err(DeriveError::UnknownNodeType(t)) => assert_eq!(t, "odd"),
        _ => panic!("wrong result"),
    }
}
