use chitin::model::{chitin_model, extract_use_ident, ModItemInfo, ModelError, UseTreeInfo};

fn s(x: &str) -> String {
    x.to_string()
}

#[test]
fn use_tree_names() {
    let tree = UseTreeInfo::Path(Box::new(UseTreeInfo::Group(vec![
        UseTreeInfo::Path(Box::new(UseTreeInfo::Name(s("Test")))),
        UseTreeInfo::Rename(s("Other")),
        UseTreeInfo::Name(s("Test2")),
    ])));
    let mut idents = vec![s("First")];
    assert_eq!(extract_use_ident(&mut idents, &tree), Ok(()));
    assert_eq!(idents, vec![s("First"), s("Test"), s("Other"), s("Test2")]);
}

#[test]
fn use_tree_glob_fails_after_earlier_names() {
    let tree = UseTreeInfo::Group(vec![
        UseTreeInfo::Name(s("A")),
        UseTreeInfo::Glob,
        UseTreeInfo::Name(s("B")),
    ]);
    let mut idents = vec![];
    assert_eq!(extract_use_ident(&mut idents, &tree), Err(()));
    assert_eq!(idents, vec![s("A")]);
}

#[test]
fn models_of_a_module() {
    let items = vec![
        ModItemInfo::Other,
        ModItemInfo::Struct(s("Article")),
        ModItemInfo::Enum(s("UserType")),
        ModItemInfo::Use { marked: false, tree: UseTreeInfo::Name(s("Hidden")) },
        ModItemInfo::Use {
            marked: true,
            tree: UseTreeInfo::Path(Box::new(UseTreeInfo::Group(vec![
                UseTreeInfo::Path(Box::new(UseTreeInfo::Name(s("Test")))),
                UseTreeInfo::Name(s("Test2")),
            ]))),
        },
        ModItemInfo::Struct(s("User")),
    ];
    let models = chitin_model(&Some(items)).unwrap();
    assert_eq!(models, vec![s("Article"), s("UserType"), s("Test"), s("Test2"), s("User")]);
}

#[test]
fn module_without_body_is_refused() {
    assert!(matches!(chitin_model(&None), Err(ModelError::NoContent)));
}

#[test]
fn marked_glob_use_is_refused() {
    let items = vec![
        ModItemInfo::Struct(s("A")),
        ModItemInfo::Use { marked: true, tree: UseTreeInfo::Glob },
    ];
    assert!(matches!(chitin_model(&Some(items)), Err(ModelError::UnsupportedUse)));
}

#[test]
fn unmarked_glob_use_is_ignored() {
    let items = vec![ModItemInfo::Use { marked: false, tree: UseTreeInfo::Glob }];
    assert_eq!(chitin_model(&Some(items)).unwrap(), Vec::<String>::new());
}
