use chitin::chitin_util::{
    gen_enum_json, to_typescript_type, try_to_typescript_type, try_type_convert, type_convert,
    typescript_patterns_compile,
};
use chitin::util;
use chitin::{Argument, ChitinEntry, CodegenOption, Language, Leaf, Side};

fn arg(name: &str, ty: &str) -> Argument {
    Argument { name: name.to_string(), ty: ty.to_string() }
}

fn client() -> CodegenOption {
    CodegenOption { side: Side::Client, language: Language::TypeScript, error: "String" }
}

fn server() -> CodegenOption {
    CodegenOption {
        side: Side::Server { context: "crate::Ctx" },
        language: Language::Rust,
        error: "String",
    }
}

fn user_leaf() -> Leaf {
    Leaf {
        name: "AskUserArticles".to_string(),
        response_ty: "Vec<crate::model_root::Article>".to_string(),
        args: vec![arg("user_id", "i32"), arg("count", "usize")],
    }
}

fn tree() -> ChitinEntry {
    let user = ChitinEntry {
        name: "UserQuery".to_string(),
        variant_name: Some("User".to_string()),
        leaves: vec![Leaf {
            name: "Login".to_string(),
            response_ty: "()".to_string(),
            args: vec![arg("user_id", "i32")],
        }],
        routers: vec![],
    };
    ChitinEntry {
        name: "RootQuery".to_string(),
        variant_name: None,
        leaves: vec![Leaf {
            name: "AskArticles".to_string(),
            response_ty: "Vec<String>".to_string(),
            args: vec![arg("count", "usize")],
        }],
        routers: vec![user],
    }
}

#[test]
fn enum_json_nests_path_outermost_first() {
    let path = vec!["User".to_string(), "AskUser".to_string()];
    let params = vec![arg("id", "i32"), arg("name", "String")];
    assert_eq!(gen_enum_json(&path, &params), "{ \"User\": { \"AskUser\": { id, name } } }");
}

#[test]
fn enum_json_of_empty_path_and_no_arguments() {
    assert_eq!(gen_enum_json(&[], &[]), "{  }");
}

#[test]
fn enum_json_nests_path_innermost_first() {
    let params = vec![arg("id", "i32"), arg("name", "String")];
    let rev = util::gen_enum_json(&["AskUser", "User"], &params);
    assert_eq!(rev, "{ \"User\": { \"AskUser\": { id, name } } }");
    let fwd = gen_enum_json(&["User".to_string(), "AskUser".to_string()], &params);
    assert_eq!(rev, fwd);
}

#[test]
fn typescript_patterns_all_compile() {
    assert!(typescript_patterns_compile());
}

#[test]
fn typescript_type_drops_namespace_up_to_model_root() {
    assert_eq!(to_typescript_type("a::b::c::xxxmodel_root::d::e::f"), "d.e.f");
    assert_eq!(to_typescript_type("crate::model_root::embeded_1::Embeded1Test"), "embeded_1.Embeded1Test");
}

#[test]
fn typescript_type_drops_every_namespace_without_model_root() {
    assert_eq!(to_typescript_type("a::b::c::d::e::f"), "f");
    assert_eq!(to_typescript_type("crate::model::User"), "User");
}

#[test]
fn typescript_type_rewrites_primitives() {
    assert_eq!(to_typescript_type("Vec<crate::model_root::Article>"), "Array<Article>");
    assert_eq!(to_typescript_type("Result<(), String>"), "Result<null, string>");
    assert_eq!(to_typescript_type("(i32, bool)"), "[number, boolean]");
    assert_eq!(to_typescript_type("Option<u64>"), "Option<number>");
    assert_eq!(to_typescript_type("DateTime<Utc>"), "string");
    assert_eq!(to_typescript_type("Option<crate::model_root::User>"), "Option<User>");
}

#[test]
fn typescript_type_checked_agrees() {
    assert_eq!(try_to_typescript_type("Vec<f64>"), Some("Array<number>".to_string()));
}

#[test]
fn type_convert_rewrites_timestamps() {
    assert_eq!(type_convert("created: Option<DateTime<Utc>>"), "created: Option<string>");
    assert_eq!(type_convert("DateTime< Utc >"), "string");
    assert_eq!(type_convert("number"), "number");
    assert_eq!(try_type_convert("DateTime<Utc>[]"), Some("string[]".to_string()));
}

#[test]
fn prelude_of_client() {
    assert_eq!(
        client().prelude(),
        "export type Option<T> = T | null;\nexport type Result<T, E> = {\n    'Ok': T\n} | {\n    'Err': E\n};\nexport type Fetcher = (query: Object) => Promise<string>;\n"
    );
}

#[test]
fn prelude_of_server() {
    assert_eq!(server().prelude(), "use async_trait::async_trait;\nuse serde_json::error::Error;\n");
}

#[test]
fn supported_pairings() {
    assert!(client().supported());
    assert!(server().supported());
    let odd = CodegenOption { side: Side::Client, language: Language::Rust, error: "E" };
    assert!(!odd.supported());
    let odd = CodegenOption { side: Side::Server { context: "C" }, language: Language::TypeScript, error: "E" };
    assert!(!odd.supported());
}

#[test]
fn response_type_of_client_and_server() {
    let rt = "Vec<crate::model_root::Article>".to_string();
    assert_eq!(client().gen_response_ty(&rt), "Result<Array<Article>, string>");
    assert_eq!(server().gen_response_ty(&rt), "Result<Vec<crate::model_root::Article>, String>");
}

#[test]
fn argument_lists() {
    let args = vec![arg("count", "usize"), arg("user", "crate::model_root::User")];
    assert_eq!(client().gen_args(&args, true), "count: number, user: User");
    assert_eq!(server().gen_args(&args, true), "count: usize, user: crate::model_root::User");
    assert_eq!(client().gen_args(&args, false), "count, user");
    assert_eq!(server().gen_args(&args, false), client().gen_args(&args, false));
    assert_eq!(client().gen_args(&vec![], true), "");
}

#[test]
fn leaf_method_of_client() {
    let mut path = vec!["User".to_string()];
    let mut out = String::from("// head\n");
    user_leaf().codegen(&client(), &mut path, &mut out);
    assert_eq!(path, vec!["User".to_string()]);
    assert_eq!(
        out,
        "// head\n    async askUserArticles(user_id: number, count: number): Promise<Result<Array<Article>, string>> {\n        return JSON.parse(await this.fetchResult({ \"User\": { \"AskUserArticles\": { user_id, count } } }));\n    }\n"
    );
}

#[test]
fn leaf_method_of_server() {
    let mut path = vec!["User".to_string()];
    let mut out = String::new();
    user_leaf().codegen(&server(), &mut path, &mut out);
    assert_eq!(path, vec!["User".to_string()]);
    assert_eq!(
        out,
        "    async fn ask_user_articles(&self, context: crate::Ctx, user_id: i32, count: usize) -> Result<Vec<crate::model_root::Article>, String>;\n"
    );
}

#[test]
fn client_classes_of_a_tree() {
    let mut out = String::new();
    tree().root_codegen(&client(), &mut out);
    let expected: String = [
        "export class RootQuery {\n",
        "    fetchResult: Fetcher;\n",
        "    userQuery: UserQuery\n",
        "    constructor(fetcher: Fetcher){\n",
        "        this.fetchResult = fetcher\n",
        "        this.userQuery = new UserQuery(fetcher)\n",
        "    }\n",
        "    async askArticles(count: number): Promise<Result<Array<string>, string>> {\n",
        "        return JSON.parse(await this.fetchResult({ \"AskArticles\": { count } }));\n",
        "    }\n",
        "}\n\n",
        "export class UserQuery {\n",
        "    fetchResult: Fetcher;\n",
        "    constructor(fetcher: Fetcher){\n",
        "        this.fetchResult = fetcher\n",
        "    }\n",
        "    async login(user_id: number): Promise<Result<null, string>> {\n",
        "        return JSON.parse(await this.fetchResult({ \"User\": { \"Login\": { user_id } } }));\n",
        "    }\n",
        "}\n\n",
    ]
    .concat();
    assert_eq!(out, expected);
}

#[test]
fn server_traits_of_a_tree() {
    let mut out = String::new();
    tree().root_codegen(&server(), &mut out);
    let expected: String = [
        "#[async_trait]\npub trait UserQueryRouter {\n",
        "    async fn login(&self, context: crate::Ctx, user_id: i32) -> Result<(), String>;\n",
        "    async fn handle(&self, context: crate::Ctx, query: UserQuery) -> Result<(String, Option<String>), Error> {\n",
        "        match query {\n",
        "             UserQuery::Login { user_id } => {\n",
        "                 let resp = self.login(context, user_id).await;\n",
        "                 let s = serde_json::to_string(&resp)?;\n",
        "                 Ok((s, resp.err()))\n",
        "            }\n",
        "        }\n",
        "    }\n",
        "}\n",
        "#[async_trait]\npub trait RootQueryRouter {\n",
        "    type UserQueryRouter: UserQueryRouter + Sync;\n",
        "    async fn ask_articles(&self, context: crate::Ctx, count: usize) -> Result<Vec<String>, String>;\n",
        "   fn user_router(&self) -> &Self::UserQueryRouter;\n",
        "    async fn handle(&self, context: crate::Ctx, query: RootQuery) -> Result<(String, Option<String>), Error> {\n",
        "        match query {\n",
        "             RootQuery::AskArticles { count } => {\n",
        "                 let resp = self.ask_articles(context, count).await;\n",
        "                 let s = serde_json::to_string(&resp)?;\n",
        "                 Ok((s, resp.err()))\n",
        "            }\n",
        "             RootQuery::User(query) => {\n",
        "                 self.user_router().handle(context, query).await\n",
        "            }\n",
        "        }\n",
        "    }\n",
        "}\n",
    ]
    .concat();
    assert_eq!(out, expected);
}

#[test]
fn nested_codegen_keeps_path() {
    let mut path = vec!["Outer".to_string()];
    let mut out = String::new();
    tree().codegen(&client(), &mut path, &mut out);
    assert_eq!(path, vec!["Outer".to_string()]);
    assert!(out.contains("{ \"Outer\": { \"User\": { \"Login\": { user_id } } } }"));
}

#[test]
fn checked_root_codegen_matches_root_codegen() {
    let mut a = String::new();
    let mut b = String::new();
    assert!(tree().try_root_codegen(&client(), &mut a));
    tree().root_codegen(&client(), &mut b);
    assert_eq!(a, b);
}

#[test]
fn well_formedness_of_trees() {
    assert!(tree().check_well_formed());
    let mut bad = tree();
    bad.routers[0].variant_name = None;
    assert!(!bad.check_well_formed());
    let leaf_only = ChitinEntry { name: "A".to_string(), variant_name: None, leaves: vec![], routers: vec![] };
    assert!(leaf_only.check_well_formed());
}
