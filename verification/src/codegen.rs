//! The code generators: from a tree of routers, a Rust trait per router for
//! the server and a TypeScript class per router for the client.
use vstd::prelude::*;

use crate::case::{camel_case, snake_case, to_camel_case, to_snake_case};
use crate::chitin_util::{
    enum_json, gen_enum_json, to_typescript_type, ts_patterns_compile, ts_type,
    typescript_patterns_compile,
};
use crate::text::{
    appears_in, concat, join, lemma_appears_after, lemma_appears_then, lemma_appears_trans,
    lemma_appears_with, lemma_appears_within,
    lemma_concat_has, lemma_concat_take, push_joined,
};
use crate::{arg_names, string_views, Argument, ChitinEntry, CodegenOption, Language, Leaf, Side};

verus! {

impl CodegenOption {
    /// TypeScript for the client.
    pub open spec fn is_ts_client(&self) -> bool {
        self.side is Client && self.language is TypeScript
    }

    /// Rust for the server.
    pub open spec fn is_rust_server(&self) -> bool {
        self.side is Server && self.language is Rust
    }

    /// The two pairings of side and language that can be generated.
    pub open spec fn is_supported(&self) -> bool {
        self.is_ts_client() || self.is_rust_server()
    }

    /// Code for this option can be generated: a Rust server, or a TypeScript
    /// client where the type conversion's patterns compile.
    pub open spec fn can_generate(&self) -> bool {
        self.is_rust_server() || (self.is_ts_client() && ts_patterns_compile())
    }

    /// The context type of a server.
    pub open spec fn context(&self) -> Seq<char> {
        match self.side {
            Side::Server { context } => context@,
            Side::Client => Seq::empty(),
        }
    }
}

/// The declarations that open a generated file.
pub open spec fn prelude_code(opt: CodegenOption) -> Seq<char> {
    if opt.is_ts_client() {
        "export type Option<T> = T | null;\n"@
            + "export type Result<T, E> = {\n    'Ok': T\n} | {\n    'Err': E\n};\n"@
            + "export type Fetcher = (query: Object) => Promise<string>;\n"@
    } else {
        "use async_trait::async_trait;\n"@ + "use serde_json::error::Error;\n"@
    }
}

/// `Result<response, error>`.
pub open spec fn result_type(response_ty: Seq<char>, error: Seq<char>) -> Seq<char> {
    "Result<"@ + response_ty + ", "@ + error + ">"@
}

/// The type that a handler answers with.
pub open spec fn response_code(opt: CodegenOption, response_ty: Seq<char>) -> Seq<char> {
    if opt.is_ts_client() {
        ts_type(result_type(response_ty, opt.error@))
    } else {
        result_type(response_ty, opt.error@)
    }
}

/// One argument: `name: type`, or only `name`.
pub open spec fn arg_code(opt: CodegenOption, arg: Argument, has_type: bool) -> Seq<char> {
    if has_type {
        arg.name@ + ": "@ + (if opt.is_ts_client() {
            ts_type(arg.ty@)
        } else {
            arg.ty@
        })
    } else {
        arg.name@
    }
}

/// The arguments, separated by `, `.
pub open spec fn args_code(opt: CodegenOption, args: Seq<Argument>, has_type: bool) -> Seq<char> {
    join(args.map_values(|a: Argument| arg_code(opt, a, has_type)), ", "@)
}

/// The method generated for a leaf reached along `path`.
pub open spec fn leaf_code(opt: CodegenOption, leaf: Leaf, path: Seq<Seq<char>>) -> Seq<char> {
    if opt.is_ts_client() {
        "    async "@ + camel_case(leaf.name@) + "("@ + args_code(opt, leaf.args@, true)
            + "): Promise<"@ + response_code(opt, leaf.response_ty@) + "> {\n"@
            + "        return JSON.parse(await this.fetchResult("@
            + enum_json(path.push(leaf.name@), arg_names(leaf.args@)) + "));\n"@
            + "    }\n"@
    } else {
        "    async fn "@ + snake_case(leaf.name@) + "(&self, context: "@ + opt.context() + ", "@
            + args_code(opt, leaf.args@, true) + ") -> "@ + response_code(opt, leaf.response_ty@)
            + ";\n"@
    }
}

impl CodegenOption {
    /// Whether this option is TypeScript for the client.
    fn targets_ts_client(&self) -> (res: bool)
        ensures
            res == self.is_ts_client(),
    {
        match (&self.side, &self.language) {
            (Side::Client, Language::TypeScript) => true,
            _ => false,
        }
    }

    /// The declarations that open a generated file: the `Option`, `Result`
    /// and `Fetcher` types for a TypeScript client, the imports for a Rust
    /// server.
    pub fn prelude(&self) -> (res: String)
        requires
            self.is_supported(),
        ensures
            res@ == prelude_code(*self),
    {
        if self.targets_ts_client() {
            let mut code = String::from_str("export type Option<T> = T | null;\n");
            code.append("export type Result<T, E> = {\n    'Ok': T\n} | {\n    'Err': E\n};\n");
            code.append("export type Fetcher = (query: Object) => Promise<string>;\n");
            code
        } else {
            let mut code = String::from_str("use async_trait::async_trait;\n");
            code.append("use serde_json::error::Error;\n");
            code
        }
    }

    /// The type that a handler answers with: `Result<response_ty, error>`,
    /// converted to TypeScript for a client.
    pub fn gen_response_ty(&self, response_ty: &String) -> (res: String)
        requires
            self.can_generate(),
        ensures
            res@ == response_code(*self, response_ty@),
    {
        let mut primitive = String::from_str("Result<");
        primitive.append(response_ty.as_str());
        primitive.append(", ");
        primitive.append(self.error);
        primitive.append(">");
        if self.targets_ts_client() {
            to_typescript_type(primitive.as_str())
        } else {
            primitive
        }
    }

    /// The arguments separated by `, `, each as `name: type` when `has_type`
    /// holds (the type converted to TypeScript for a client), else as `name`.
    pub fn gen_args(&self, args: &Vec<Argument>, has_type: bool) -> (res: String)
        requires
            self.can_generate(),
        ensures
            res@ == args_code(*self, args@, has_type),
    {
        let ts = self.targets_ts_client();
        let mut pieces: Vec<String> = Vec::new();
        let n = args.len();
        let mut i: usize = 0;
        while i < n
            invariant
                n == args@.len(),
                i <= n,
                ts == self.is_ts_client(),
                self.can_generate(),
                pieces@.len() == i,
                forall|j: int|
                    0 <= j < i ==> #[trigger] pieces@[j]@ == arg_code(*self, args@[j], has_type),
            decreases n - i,
        {
            let arg = &args[i];
            let mut piece = arg.name.clone();
            if has_type {
                piece.append(": ");
                if ts {
                    let ty = to_typescript_type(arg.ty.as_str());
                    piece.append(ty.as_str());
                } else {
                    piece.append(arg.ty.as_str());
                }
            }
            pieces.push(piece);
            i = i + 1;
        }
        let mut res = String::new();
        push_joined(&mut res, &pieces, ", ");
        proof {
            assert(string_views(pieces@) =~= args@.map_values(
                |a: Argument| arg_code(*self, a, has_type),
            ));
            assert(res@ =~= args_code(*self, args@, has_type));
        }
        res
    }
}

impl Leaf {
    /// Appends to `stream` the method generated for this leaf, reached along
    /// `path`: an async method of the client class that posts the request's
    /// JSON, or the handler's declaration in the server trait. `path` is left
    /// as it was.
    pub fn codegen(&self, option: &CodegenOption, path: &mut Vec<String>, stream: &mut String)
        requires
            option.can_generate(),
        ensures
            final(stream)@ == old(stream)@ + leaf_code(*option, *self, string_views(old(path)@)),
            final(path)@ == old(path)@,
    {
        let ghost path0 = string_views(path@);
        path.push(self.name.clone());
        proof {
            assert(string_views(path@) =~= path0.push(self.name@));
        }
        let args = option.gen_args(&self.args, true);
        let response = option.gen_response_ty(&self.response_ty);
        let mut code;
        match &option.side {
            Side::Server { context } => {
                let name = to_snake_case(self.name.as_str());
                code = String::from_str("    async fn ");
                code.append(name.as_str());
                code.append("(&self, context: ");
                code.append(context);
                code.append(", ");
                code.append(args.as_str());
                code.append(") -> ");
                code.append(response.as_str());
                code.append(";\n");
            },
            Side::Client => {
                let name = to_camel_case(self.name.as_str());
                let json = gen_enum_json(path.as_slice(), self.args.as_slice());
                code = String::from_str("    async ");
                code.append(name.as_str());
                code.append("(");
                code.append(args.as_str());
                code.append("): Promise<");
                code.append(response.as_str());
                code.append("> {\n");
                code.append("        return JSON.parse(await this.fetchResult(");
                code.append(json.as_str());
                code.append("));\n");
                code.append("    }\n");
            },
        }
        stream.append(code.as_str());
        path.pop();
        proof {
            assert(path@ =~= old(path)@);
        }
    }
}

/// The name of the variant that leads to a nested router.
pub open spec fn variant_of(router: ChitinEntry) -> Seq<char> {
    match router.variant_name {
        Some(v) => v@,
        None => Seq::empty(),
    }
}

impl ChitinEntry {
    /// Every nested router, at any depth, names the variant that leads to it.
    pub open spec fn well_formed(self) -> bool
        decreases self,
    {
        forall|i: int|
            0 <= i < self.routers@.len() ==> {
                &&& (#[trigger] self.routers@[i]).variant_name is Some
                &&& self.routers@[i].well_formed()
            }
    }
}

/// The code generated for a router reached along `path`, followed by that of
/// every router nested in it.
pub open spec fn entry_code(opt: CodegenOption, entry: ChitinEntry, path: Seq<Seq<char>>) -> Seq<char>
    decreases entry, entry.routers@.len() + 1,
{
    let n = entry.routers@.len() as int;
    if opt.is_ts_client() {
        ts_class_code(opt, entry, path) + routers_code(opt, entry, n, path)
    } else {
        routers_code(opt, entry, n, path) + rs_trait_code(opt, entry, path)
    }
}

/// The code generated for the first `n` routers nested in `entry`, each
/// reached along `path` extended by its variant.
pub open spec fn routers_code(opt: CodegenOption, entry: ChitinEntry, n: int, path: Seq<Seq<char>>) -> Seq<char>
    decreases entry, n,
{
    if n <= 0 || n > entry.routers@.len() {
        Seq::empty()
    } else {
        let r = entry.routers@[n - 1];
        routers_code(opt, entry, n - 1, path) + entry_code(opt, r, path.push(variant_of(r)))
    }
}

/// The TypeScript class of one router, without its nested routers.
pub open spec fn ts_class_code(opt: CodegenOption, entry: ChitinEntry, path: Seq<Seq<char>>) -> Seq<char> {
    "export class "@ + entry.name@ + " {\n"@ + "    fetchResult: Fetcher;\n"@
        + concat(entry.routers@.map_values(|r: ChitinEntry| ts_field_code(r)))
        + "    constructor(fetcher: Fetcher){\n"@ + "        this.fetchResult = fetcher\n"@
        + concat(entry.routers@.map_values(|r: ChitinEntry| ts_ctor_code(r)))
        + "    }\n"@
        + concat(entry.leaves@.map_values(|l: Leaf| leaf_code(opt, l, path)))
        + "}\n\n"@
}

/// The field of a client class that holds a nested router's class.
pub open spec fn ts_field_code(router: ChitinEntry) -> Seq<char> {
    "    "@ + camel_case(router.name@) + ": "@ + router.name@ + "\n"@
}

/// The constructor line that builds a nested router's class.
pub open spec fn ts_ctor_code(router: ChitinEntry) -> Seq<char> {
    "        this."@ + camel_case(router.name@) + " = new "@ + router.name@ + "(fetcher)\n"@
}

/// The Rust trait of one router, without its nested routers.
pub open spec fn rs_trait_code(opt: CodegenOption, entry: ChitinEntry, path: Seq<Seq<char>>) -> Seq<char> {
    "#[async_trait]\npub trait "@ + entry.name@ + "Router {\n"@
        + concat(entry.routers@.map_values(|r: ChitinEntry| rs_assoc_code(r)))
        + concat(entry.leaves@.map_values(|l: Leaf| leaf_code(opt, l, path)))
        + concat(entry.routers@.map_values(|r: ChitinEntry| rs_getter_code(r)))
        + "    async fn handle(&self, context: "@ + opt.context() + ", query: "@ + entry.name@
        + ") -> Result<(String, Option<"@ + opt.error@ + ">), Error> {\n"@
        + "        match query {\n"@
        + concat(entry.leaves@.map_values(|l: Leaf| rs_leaf_arm_code(opt, entry, l)))
        + concat(entry.routers@.map_values(|r: ChitinEntry| rs_router_arm_code(entry, r)))
        + "        }\n"@ + "    }\n"@ + "}\n"@
}

/// The associated type of a server trait that stands for a nested router.
pub open spec fn rs_assoc_code(router: ChitinEntry) -> Seq<char> {
    "    type "@ + router.name@ + "Router: "@ + router.name@ + "Router + Sync;\n"@
}

/// The getter of a server trait that gives a nested router.
pub open spec fn rs_getter_code(router: ChitinEntry) -> Seq<char> {
    "   fn "@ + snake_case(variant_of(router)) + "_router(&self) -> &Self::"@ + router.name@
        + "Router;\n"@
}

/// The arm of `handle` that answers a leaf's request.
pub open spec fn rs_leaf_arm_code(opt: CodegenOption, entry: ChitinEntry, leaf: Leaf) -> Seq<char> {
    "             "@ + entry.name@ + "::"@ + leaf.name@ + " { "@ + args_code(opt, leaf.args@, false)
        + " } => {\n"@
        + "                 let resp = self."@ + snake_case(leaf.name@) + "(context, "@
        + args_code(opt, leaf.args@, false) + ").await;\n"@
        + "                 let s = serde_json::to_string(&resp)?;\n"@
        + "                 Ok((s, resp.err()))\n"@
        + "            }\n"@
}

/// The arm of `handle` that hands a query on to a nested router.
pub open spec fn rs_router_arm_code(entry: ChitinEntry, router: ChitinEntry) -> Seq<char> {
    "             "@ + entry.name@ + "::"@ + variant_of(router) + "(query) => {\n"@
        + "                 self."@ + snake_case(variant_of(router))
        + "_router().handle(context, query).await\n"@
        + "            }\n"@
}

/// Appends the field of each nested router's class.
fn write_ts_fields(routers: &Vec<ChitinEntry>, stream: &mut String)
    ensures
        final(stream)@ == old(stream)@ + concat(
            routers@.map_values(|r: ChitinEntry| ts_field_code(r)),
        ),
{
    let ghost base = stream@;
    let ghost pieces = routers@.map_values(|r: ChitinEntry| ts_field_code(r));
    let n = routers.len();
    let mut i: usize = 0;
    while i < n
        invariant
            n == routers@.len(),
            i <= n,
            pieces == routers@.map_values(|r: ChitinEntry| ts_field_code(r)),
            stream@ == base + concat(pieces.take(i as int)),
        decreases n - i,
    {
        let router = &routers[i];
        let camel = to_camel_case(router.name.as_str());
        stream.append("    ");
        stream.append(camel.as_str());
        stream.append(": ");
        stream.append(router.name.as_str());
        stream.append("\n");
        proof {
            lemma_concat_take(pieces, i as int);
            assert(stream@ =~= base + concat(pieces.take(i + 1)));
        }
        i = i + 1;
    }
    assert(pieces.take(n as int) =~= pieces);
}

/// Appends the constructor line of each nested router's class.
fn write_ts_ctor_lines(routers: &Vec<ChitinEntry>, stream: &mut String)
    ensures
        final(stream)@ == old(stream)@ + concat(
            routers@.map_values(|r: ChitinEntry| ts_ctor_code(r)),
        ),
{
    let ghost base = stream@;
    let ghost pieces = routers@.map_values(|r: ChitinEntry| ts_ctor_code(r));
    let n = routers.len();
    let mut i: usize = 0;
    while i < n
        invariant
            n == routers@.len(),
            i <= n,
            pieces == routers@.map_values(|r: ChitinEntry| ts_ctor_code(r)),
            stream@ == base + concat(pieces.take(i as int)),
        decreases n - i,
    {
        let router = &routers[i];
        let camel = to_camel_case(router.name.as_str());
        stream.append("        this.");
        stream.append(camel.as_str());
        stream.append(" = new ");
        stream.append(router.name.as_str());
        stream.append("(fetcher)\n");
        proof {
            lemma_concat_take(pieces, i as int);
            assert(stream@ =~= base + concat(pieces.take(i + 1)));
        }
        i = i + 1;
    }
    assert(pieces.take(n as int) =~= pieces);
}

/// Appends the method of each leaf, all reached along `path`.
fn write_leaves(
    leaves: &Vec<Leaf>,
    option: &CodegenOption,
    path: &mut Vec<String>,
    stream: &mut String,
)
    requires
        option.can_generate(),
    ensures
        final(stream)@ == old(stream)@ + concat(
            leaves@.map_values(|l: Leaf| leaf_code(*option, l, string_views(old(path)@))),
        ),
        final(path)@ == old(path)@,
{
    let ghost base = stream@;
    let ghost p = string_views(path@);
    let ghost path0 = path@;
    let ghost pieces = leaves@.map_values(|l: Leaf| leaf_code(*option, l, p));
    let n = leaves.len();
    let mut i: usize = 0;
    while i < n
        invariant
            n == leaves@.len(),
            i <= n,
            option.can_generate(),
            path@ == path0,
            p == string_views(path0),
            pieces == leaves@.map_values(|l: Leaf| leaf_code(*option, l, p)),
            stream@ == base + concat(pieces.take(i as int)),
        decreases n - i,
    {
        leaves[i].codegen(option, path, stream);
        proof {
            lemma_concat_take(pieces, i as int);
            assert(stream@ =~= base + concat(pieces.take(i + 1)));
        }
        i = i + 1;
    }
    assert(pieces.take(n as int) =~= pieces);
}

/// The name of the variant that leads to a nested router.
fn variant_name_of(router: &ChitinEntry) -> (res: &String)
    requires
        router.variant_name is Some,
    ensures
        res@ == variant_of(*router),
{
    router.variant_name.as_ref().unwrap()
}

impl ChitinEntry {
    /// Appends the client class of this router, without its nested routers.
    fn write_ts_class(&self, option: &CodegenOption, path: &mut Vec<String>, stream: &mut String)
        requires
            option.can_generate(),
        ensures
            final(stream)@ == old(stream)@ + ts_class_code(*option, *self, string_views(old(path)@)),
            final(path)@ == old(path)@,
    {
        let ghost base = stream@;
        let ghost p = string_views(path@);
        let mut code = String::from_str("export class ");
        code.append(self.name.as_str());
        code.append(" {\n");
        code.append("    fetchResult: Fetcher;\n");
        write_ts_fields(&self.routers, &mut code);
        code.append("    constructor(fetcher: Fetcher){\n");
        code.append("        this.fetchResult = fetcher\n");
        write_ts_ctor_lines(&self.routers, &mut code);
        code.append("    }\n");
        write_leaves(&self.leaves, option, path, &mut code);
        code.append("}\n\n");
        stream.append(code.as_str());
        proof {
            assert(stream@ =~= base + ts_class_code(*option, *self, p));
        }
    }

    /// Appends the code of every router nested in this one, each reached
    /// along `path` extended by its variant.
    fn write_routers(&self, option: &CodegenOption, path: &mut Vec<String>, stream: &mut String)
        requires
            option.can_generate(),
            self.well_formed(),
        ensures
            final(stream)@ == old(stream)@ + routers_code(
                *option,
                *self,
                self.routers@.len() as int,
                string_views(old(path)@),
            ),
            final(path)@ == old(path)@,
        decreases self, 0int,
    {
        let ghost base = stream@;
        let ghost path0 = path@;
        let ghost p = string_views(path@);
        let n = self.routers.len();
        let mut i: usize = 0;
        while i < n
            invariant
                n == self.routers@.len(),
                i <= n,
                option.can_generate(),
                self.well_formed(),
                path@ == path0,
                p == string_views(path0),
                stream@ == base + routers_code(*option, *self, i as int, p),
            decreases n - i,
        {
            let router = &self.routers[i];
            assert(router.variant_name is Some && router.well_formed());
            let variant = variant_name_of(router);
            path.push(variant.clone());
            proof {
                assert(string_views(path@) =~= p.push(variant_of(*router)));
            }
            router.codegen(option, path, stream);
            path.pop();
            proof {
                assert(path@ =~= path0);
                assert(stream@ =~= base + routers_code(*option, *self, i + 1, p));
            }
            i = i + 1;
        }
    }

    /// Appends the code generated for this router reached along `path`,
    /// followed by that of every router nested in it: for a TypeScript
    /// client, this router's class first; for a Rust server, the nested
    /// routers' traits first. `path` is left as it was.
    pub fn codegen(&self, option: &CodegenOption, path: &mut Vec<String>, stream: &mut String)
        requires
            option.can_generate(),
            self.well_formed(),
        ensures
            final(stream)@ == old(stream)@ + entry_code(*option, *self, string_views(old(path)@)),
            final(path)@ == old(path)@,
        decreases self, 1int,
    {
        let ghost base = stream@;
        let ghost p = string_views(path@);
        if option.targets_ts_client() {
            self.write_ts_class(option, path, stream);
            self.write_routers(option, path, stream);
        } else {
            self.write_routers(option, path, stream);
            self.write_rs_trait(option, path, stream);
        }
        proof {
            assert(stream@ =~= base + entry_code(*option, *self, p));
        }
    }

    /// Appends the code generated for this router as the root, along the
    /// empty path.
    pub fn root_codegen(&self, option: &CodegenOption, stream: &mut String)
        requires
            option.can_generate(),
            self.well_formed(),
        ensures
            final(stream)@ == old(stream)@ + entry_code(*option, *self, Seq::empty()),
    {
        let mut path: Vec<String> = Vec::new();
        proof {
            assert(string_views(path@) =~= Seq::<Seq<char>>::empty());
        }
        self.codegen(option, &mut path, stream);
    }
}

/// Appends the associated type of each nested router.
fn write_rs_assoc_types(routers: &Vec<ChitinEntry>, stream: &mut String)
    ensures
        final(stream)@ == old(stream)@ + concat(
            routers@.map_values(|r: ChitinEntry| rs_assoc_code(r)),
        ),
{
    let ghost base = stream@;
    let ghost pieces = routers@.map_values(|r: ChitinEntry| rs_assoc_code(r));
    let n = routers.len();
    let mut i: usize = 0;
    while i < n
        invariant
            n == routers@.len(),
            i <= n,
            pieces == routers@.map_values(|r: ChitinEntry| rs_assoc_code(r)),
            stream@ == base + concat(pieces.take(i as int)),
        decreases n - i,
    {
        let router = &routers[i];
        stream.append("    type ");
        stream.append(router.name.as_str());
        stream.append("Router: ");
        stream.append(router.name.as_str());
        stream.append("Router + Sync;\n");
        proof {
            lemma_concat_take(pieces, i as int);
            assert(stream@ =~= base + concat(pieces.take(i + 1)));
        }
        i = i + 1;
    }
    assert(pieces.take(n as int) =~= pieces);
}

/// Appends the getter of each nested router.
fn write_rs_getters(routers: &Vec<ChitinEntry>, stream: &mut String)
    requires
        forall|i: int| 0 <= i < routers@.len() ==> (#[trigger] routers@[i]).variant_name is Some,
    ensures
        final(stream)@ == old(stream)@ + concat(
            routers@.map_values(|r: ChitinEntry| rs_getter_code(r)),
        ),
{
    let ghost base = stream@;
    let ghost pieces = routers@.map_values(|r: ChitinEntry| rs_getter_code(r));
    let n = routers.len();
    let mut i: usize = 0;
    while i < n
        invariant
            n == routers@.len(),
            i <= n,
            forall|i: int| 0 <= i < routers@.len() ==> (#[trigger] routers@[i]).variant_name is Some,
            pieces == routers@.map_values(|r: ChitinEntry| rs_getter_code(r)),
            stream@ == base + concat(pieces.take(i as int)),
        decreases n - i,
    {
        let router = &routers[i];
        let snake = to_snake_case(variant_name_of(router).as_str());
        stream.append("   fn ");
        stream.append(snake.as_str());
        stream.append("_router(&self) -> &Self::");
        stream.append(router.name.as_str());
        stream.append("Router;\n");
        proof {
            lemma_concat_take(pieces, i as int);
            assert(stream@ =~= base + concat(pieces.take(i + 1)));
        }
        i = i + 1;
    }
    assert(pieces.take(n as int) =~= pieces);
}

impl ChitinEntry {
    /// Appends the arm of `handle` for each leaf.
    fn write_rs_leaf_arms(&self, option: &CodegenOption, stream: &mut String)
        requires
            option.can_generate(),
        ensures
            final(stream)@ == old(stream)@ + concat(
                self.leaves@.map_values(|l: Leaf| rs_leaf_arm_code(*option, *self, l)),
            ),
    {
        let ghost base = stream@;
        let ghost pieces = self.leaves@.map_values(|l: Leaf| rs_leaf_arm_code(*option, *self, l));
        let n = self.leaves.len();
        let mut i: usize = 0;
        while i < n
            invariant
                n == self.leaves@.len(),
                i <= n,
                option.can_generate(),
                pieces == self.leaves@.map_values(|l: Leaf| rs_leaf_arm_code(*option, *self, l)),
                stream@ == base + concat(pieces.take(i as int)),
            decreases n - i,
        {
            let leaf = &self.leaves[i];
            let args = option.gen_args(&leaf.args, false);
            let snake = to_snake_case(leaf.name.as_str());
            stream.append("             ");
            stream.append(self.name.as_str());
            stream.append("::");
            stream.append(leaf.name.as_str());
            stream.append(" { ");
            stream.append(args.as_str());
            stream.append(" } => {\n");
            stream.append("                 let resp = self.");
            stream.append(snake.as_str());
            stream.append("(context, ");
            stream.append(args.as_str());
            stream.append(").await;\n");
            stream.append("                 let s = serde_json::to_string(&resp)?;\n");
            stream.append("                 Ok((s, resp.err()))\n");
            stream.append("            }\n");
            proof {
                lemma_concat_take(pieces, i as int);
                assert(stream@ =~= base + concat(pieces.take(i + 1)));
            }
            i = i + 1;
        }
        assert(pieces.take(n as int) =~= pieces);
    }

    /// Appends the arm of `handle` for each nested router.
    fn write_rs_router_arms(&self, stream: &mut String)
        requires
            self.well_formed(),
        ensures
            final(stream)@ == old(stream)@ + concat(
                self.routers@.map_values(|r: ChitinEntry| rs_router_arm_code(*self, r)),
            ),
    {
        let ghost base = stream@;
        let ghost pieces = self.routers@.map_values(|r: ChitinEntry| rs_router_arm_code(*self, r));
        let n = self.routers.len();
        let mut i: usize = 0;
        while i < n
            invariant
                n == self.routers@.len(),
                i <= n,
                self.well_formed(),
                pieces == self.routers@.map_values(|r: ChitinEntry| rs_router_arm_code(*self, r)),
                stream@ == base + concat(pieces.take(i as int)),
            decreases n - i,
        {
            let router = &self.routers[i];
            assert(router.variant_name is Some);
            let variant = variant_name_of(router);
            let snake = to_snake_case(variant.as_str());
            stream.append("             ");
            stream.append(self.name.as_str());
            stream.append("::");
            stream.append(variant.as_str());
            stream.append("(query) => {\n");
            stream.append("                 self.");
            stream.append(snake.as_str());
            stream.append("_router().handle(context, query).await\n");
            stream.append("            }\n");
            proof {
                lemma_concat_take(pieces, i as int);
                assert(stream@ =~= base + concat(pieces.take(i + 1)));
            }
            i = i + 1;
        }
        assert(pieces.take(n as int) =~= pieces);
    }

    /// Appends the server trait of this router, without its nested routers.
    fn write_rs_trait(&self, option: &CodegenOption, path: &mut Vec<String>, stream: &mut String)
        requires
            option.can_generate(),
            option.is_rust_server(),
            self.well_formed(),
        ensures
            final(stream)@ == old(stream)@ + rs_trait_code(*option, *self, string_views(old(path)@)),
            final(path)@ == old(path)@,
    {
        let ghost base = stream@;
        let ghost p = string_views(path@);
        let context = match &option.side {
            Side::Server { context } => *context,
            Side::Client => "",
        };
        let mut code = String::from_str("#[async_trait]\npub trait ");
        code.append(self.name.as_str());
        code.append("Router {\n");
        write_rs_assoc_types(&self.routers, &mut code);
        write_leaves(&self.leaves, option, path, &mut code);
        write_rs_getters(&self.routers, &mut code);
        code.append("    async fn handle(&self, context: ");
        code.append(context);
        code.append(", query: ");
        code.append(self.name.as_str());
        code.append(") -> Result<(String, Option<");
        code.append(option.error);
        code.append(">), Error> {\n");
        code.append("        match query {\n");
        self.write_rs_leaf_arms(option, &mut code);
        self.write_rs_router_arms(&mut code);
        code.append("        }\n");
        code.append("    }\n");
        code.append("}\n");
        stream.append(code.as_str());
        proof {
            assert(stream@ =~= base + rs_trait_code(*option, *self, p));
        }
    }
}

/// Without types, the argument list is the argument names separated by
/// `, `, the same on the client and on the server.
pub proof fn lemma_untyped_args_are_names(opt: CodegenOption, args: Seq<Argument>)
    ensures
        args_code(opt, args, false) == join(arg_names(args), ", "@),
{
    assert(args.map_values(|a: Argument| arg_code(opt, a, false)) =~= arg_names(args));
}

impl CodegenOption {
    /// Whether this pairing of side and language can be generated.
    pub fn supported(&self) -> (res: bool)
        ensures
            res == self.is_supported(),
    {
        match (&self.side, &self.language) {
            (Side::Client, Language::TypeScript) => true,
            (Side::Server { .. }, Language::Rust) => true,
            _ => false,
        }
    }
}

impl ChitinEntry {
    /// Whether every nested router, at any depth, names the variant that
    /// leads to it.
    pub fn check_well_formed(&self) -> (res: bool)
        ensures
            res == self.well_formed(),
        decreases self,
    {
        let n = self.routers.len();
        let mut i: usize = 0;
        while i < n
            invariant
                n == self.routers@.len(),
                i <= n,
                forall|j: int|
                    0 <= j < i ==> {
                        &&& (#[trigger] self.routers@[j]).variant_name is Some
                        &&& self.routers@[j].well_formed()
                    },
            decreases n - i,
        {
            let router = &self.routers[i];
            if router.variant_name.is_none() || !router.check_well_formed() {
                return false;
            }
            i = i + 1;
        }
        true
    }

    /// Appends the code generated for this router as the root, after
    /// checking that the TypeScript conversion's patterns compile where the
    /// option asks for TypeScript; gives `false`, and appends nothing, where
    /// they do not.
    pub fn try_root_codegen(&self, option: &CodegenOption, stream: &mut String) -> (res: bool)
        requires
            option.is_supported(),
            self.well_formed(),
        ensures
            res == option.can_generate(),
            res ==> final(stream)@ == old(stream)@ + entry_code(*option, *self, Seq::empty()),
            !res ==> final(stream)@ == old(stream)@,
    {
        if option.targets_ts_client() && !typescript_patterns_compile() {
            return false;
        }
        self.root_codegen(option, stream);
        true
    }
}

/// The code of each of the first `m` nested routers, reached along the path
/// extended by its own variant, occurs in their code.
proof fn lemma_routers_code_has(opt: CodegenOption, entry: ChitinEntry, m: int, path: Seq<Seq<char>>, k: int)
    requires
        0 <= k < m <= entry.routers@.len(),
    ensures
        appears_in(
            entry_code(opt, entry.routers@[k], path.push(variant_of(entry.routers@[k]))),
            routers_code(opt, entry, m, path),
        ),
    decreases m,
{
    let r = entry.routers@[m - 1];
    let last = entry_code(opt, r, path.push(variant_of(r)));
    if k == m - 1 {
        lemma_appears_with(last, routers_code(opt, entry, m - 1, path), Seq::empty());
        assert(routers_code(opt, entry, m - 1, path) + last + Seq::<char>::empty() =~= routers_code(
            opt,
            entry,
            m,
            path,
        ));
    } else {
        lemma_routers_code_has(opt, entry, m - 1, path, k);
        lemma_appears_within(
            entry_code(opt, entry.routers@[k], path.push(variant_of(entry.routers@[k]))),
            routers_code(opt, entry, m - 1, path),
            Seq::empty(),
            last,
        );
        assert(Seq::<char>::empty() + routers_code(opt, entry, m - 1, path) + last =~= routers_code(
            opt,
            entry,
            m,
            path,
        ));
    }
}

/// The code generated for a router holds, for each router nested in it, the
/// code of that router reached along the path extended by that router's own
/// variant.
pub proof fn lemma_nested_router_code(opt: CodegenOption, entry: ChitinEntry, path: Seq<Seq<char>>, k: int)
    requires
        0 <= k < entry.routers@.len(),
    ensures
        appears_in(
            entry_code(opt, entry.routers@[k], path.push(variant_of(entry.routers@[k]))),
            entry_code(opt, entry, path),
        ),
{
    let n = entry.routers@.len() as int;
    let part = entry_code(opt, entry.routers@[k], path.push(variant_of(entry.routers@[k])));
    lemma_routers_code_has(opt, entry, n, path, k);
    if opt.is_ts_client() {
        lemma_appears_within(part, routers_code(opt, entry, n, path), ts_class_code(opt, entry, path), Seq::empty());
        assert(ts_class_code(opt, entry, path) + routers_code(opt, entry, n, path) + Seq::<char>::empty()
            =~= entry_code(opt, entry, path));
    } else {
        lemma_appears_within(part, routers_code(opt, entry, n, path), Seq::empty(), rs_trait_code(opt, entry, path));
        assert(Seq::<char>::empty() + routers_code(opt, entry, n, path) + rs_trait_code(opt, entry, path)
            =~= entry_code(opt, entry, path));
    }
}

/// The request of a client leaf posts the routing JSON of its path followed
/// by its own name.
pub proof fn lemma_client_leaf_posts_its_path(opt: CodegenOption, leaf: Leaf, path: Seq<Seq<char>>)
    requires
        opt.is_ts_client(),
    ensures
        appears_in(enum_json(path.push(leaf.name@), arg_names(leaf.args@)), leaf_code(opt, leaf, path)),
{
    let json = enum_json(path.push(leaf.name@), arg_names(leaf.args@));
    let a = "    async "@ + camel_case(leaf.name@) + "("@ + args_code(opt, leaf.args@, true)
        + "): Promise<"@ + response_code(opt, leaf.response_ty@) + "> {\n"@
        + "        return JSON.parse(await this.fetchResult("@;
    let b = "));\n"@ + "    }\n"@;
    lemma_appears_with(json, a, b);
    assert(a + json + b =~= leaf_code(opt, leaf, path));
}

/// Each leaf of a client class is part of the class.
proof fn lemma_client_class_has_leaf(opt: CodegenOption, entry: ChitinEntry, path: Seq<Seq<char>>, j: int)
    requires
        opt.is_ts_client(),
        0 <= j < entry.leaves@.len(),
    ensures
        appears_in(leaf_code(opt, entry.leaves@[j], path), entry_code(opt, entry, path)),
{
    let leaves = entry.leaves@.map_values(|l: Leaf| leaf_code(opt, l, path));
    let head = "export class "@ + entry.name@ + " {\n"@ + "    fetchResult: Fetcher;\n"@
        + concat(entry.routers@.map_values(|r: ChitinEntry| ts_field_code(r)))
        + "    constructor(fetcher: Fetcher){\n"@ + "        this.fetchResult = fetcher\n"@
        + concat(entry.routers@.map_values(|r: ChitinEntry| ts_ctor_code(r)))
        + "    }\n"@;
    let tail = "}\n\n"@ + routers_code(opt, entry, entry.routers@.len() as int, path);
    lemma_concat_has(leaves, j);
    lemma_appears_within(leaf_code(opt, entry.leaves@[j], path), concat(leaves), head, tail);
    assert(head + concat(leaves) + tail =~= entry_code(opt, entry, path));
}

/// In the client code, the request of each leaf of a nested router posts
/// the routing JSON that names the variants on the way to it: the path,
/// that router's own variant, then the leaf's name.
pub proof fn lemma_nested_leaf_request(
    opt: CodegenOption,
    entry: ChitinEntry,
    path: Seq<Seq<char>>,
    k: int,
    j: int,
)
    requires
        opt.is_ts_client(),
        0 <= k < entry.routers@.len(),
        0 <= j < entry.routers@[k].leaves@.len(),
    ensures
        ({
            let r = entry.routers@[k];
            let leaf = r.leaves@[j];
            appears_in(
                enum_json(path.push(variant_of(r)).push(leaf.name@), arg_names(leaf.args@)),
                entry_code(opt, entry, path),
            )
        }),
{
    let r = entry.routers@[k];
    let leaf = r.leaves@[j];
    let inner = path.push(variant_of(r));
    lemma_client_leaf_posts_its_path(opt, leaf, inner);
    lemma_client_class_has_leaf(opt, r, inner, j);
    lemma_nested_router_code(opt, entry, path, k);
    lemma_appears_trans(
        enum_json(inner.push(leaf.name@), arg_names(leaf.args@)),
        leaf_code(opt, leaf, inner),
        entry_code(opt, r, inner),
    );
    lemma_appears_trans(
        enum_json(inner.push(leaf.name@), arg_names(leaf.args@)),
        entry_code(opt, r, inner),
        entry_code(opt, entry, path),
    );
}

/// The trait of a server router holds each nested router's getter and each
/// nested router's arm of `handle`.
proof fn lemma_server_trait_has_router(opt: CodegenOption, entry: ChitinEntry, path: Seq<Seq<char>>, k: int)
    requires
        0 <= k < entry.routers@.len(),
    ensures
        appears_in(rs_getter_code(entry.routers@[k]), rs_trait_code(opt, entry, path)),
        appears_in(rs_router_arm_code(entry, entry.routers@[k]), rs_trait_code(opt, entry, path)),
{
    let r = entry.routers@[k];
    let h = "#[async_trait]\npub trait "@ + entry.name@ + "Router {\n"@
        + concat(entry.routers@.map_values(|r: ChitinEntry| rs_assoc_code(r)))
        + concat(entry.leaves@.map_values(|l: Leaf| leaf_code(opt, l, path)));
    let getters = entry.routers@.map_values(|r: ChitinEntry| rs_getter_code(r));
    let s1 = h + concat(getters);
    let s2 = s1 + "    async fn handle(&self, context: "@;
    let s3 = s2 + opt.context();
    let s4 = s3 + ", query: "@;
    let s5 = s4 + entry.name@;
    let s6 = s5 + ") -> Result<(String, Option<"@;
    let s7 = s6 + opt.error@;
    let s8 = s7 + ">), Error> {\n"@;
    let s9 = s8 + "        match query {\n"@;
    let s10 = s9 + concat(entry.leaves@.map_values(|l: Leaf| rs_leaf_arm_code(opt, entry, l)));
    let arms = entry.routers@.map_values(|r: ChitinEntry| rs_router_arm_code(entry, r));
    let s11 = s10 + concat(arms);
    let s12 = s11 + "        }\n"@;
    let s13 = s12 + "    }\n"@;
    let s14 = s13 + "}\n"@;
    assert(s14 == rs_trait_code(opt, entry, path));

    let g = rs_getter_code(r);
    lemma_concat_has(getters, k);
    lemma_appears_after(g, h, concat(getters));
    lemma_appears_then(g, s1, "    async fn handle(&self, context: "@);
    lemma_appears_then(g, s2, opt.context());
    lemma_appears_then(g, s3, ", query: "@);
    lemma_appears_then(g, s4, entry.name@);
    lemma_appears_then(g, s5, ") -> Result<(String, Option<"@);
    lemma_appears_then(g, s6, opt.error@);
    lemma_appears_then(g, s7, ">), Error> {\n"@);
    lemma_appears_then(g, s8, "        match query {\n"@);
    lemma_appears_then(
        g,
        s9,
        concat(entry.leaves@.map_values(|l: Leaf| rs_leaf_arm_code(opt, entry, l))),
    );
    lemma_appears_then(g, s10, concat(arms));
    lemma_appears_then(g, s11, "        }\n"@);
    lemma_appears_then(g, s12, "    }\n"@);
    lemma_appears_then(g, s13, "}\n"@);

    let arm = rs_router_arm_code(entry, r);
    lemma_concat_has(arms, k);
    lemma_appears_after(arm, s10, concat(arms));
    lemma_appears_then(arm, s11, "        }\n"@);
    lemma_appears_then(arm, s12, "    }\n"@);
    lemma_appears_then(arm, s13, "}\n"@);
}

/// In the server code, each nested router's query is handed on by the arm
/// that matches that router's own variant, through the getter named after
/// that same variant, and the trait declares that getter for that router.
pub proof fn lemma_server_dispatches_to_own_router(
    opt: CodegenOption,
    entry: ChitinEntry,
    path: Seq<Seq<char>>,
    k: int,
)
    requires
        !opt.is_ts_client(),
        0 <= k < entry.routers@.len(),
    ensures
        ({
            let r = entry.routers@[k];
            let v = variant_of(r);
            &&& appears_in(
                v + "(query) => {\n"@ + "                 self."@ + snake_case(v)
                    + "_router().handle(context, query).await\n"@,
                entry_code(opt, entry, path),
            )
            &&& appears_in(
                "   fn "@ + snake_case(v) + "_router(&self) -> &Self::"@ + r.name@ + "Router;\n"@,
                entry_code(opt, entry, path),
            )
        }),
{
    let r = entry.routers@[k];
    let v = variant_of(r);
    let whole = entry_code(opt, entry, path);
    let trait_code = rs_trait_code(opt, entry, path);
    let before = routers_code(opt, entry, entry.routers@.len() as int, path);
    assert(before + trait_code + Seq::<char>::empty() =~= whole);
    lemma_server_trait_has_router(opt, entry, path, k);
    lemma_appears_within(rs_getter_code(r), trait_code, before, Seq::empty());
    let dispatch = v + "(query) => {\n"@ + "                 self."@ + snake_case(v)
        + "_router().handle(context, query).await\n"@;
    let arm_head = "             "@ + entry.name@ + "::"@;
    lemma_appears_with(dispatch, arm_head, "            }\n"@);
    assert(arm_head + dispatch + "            }\n"@ =~= rs_router_arm_code(entry, r));
    lemma_appears_trans(dispatch, rs_router_arm_code(entry, r), trait_code);
    lemma_appears_within(dispatch, trait_code, before, Seq::empty());
}

} // verus!
