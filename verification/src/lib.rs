//! Chitin: typed RPC definitions written in Rust, turned into a Rust server
//! trait and a TypeScript client class.
use vstd::prelude::*;

pub mod case;
pub mod codegen;
pub mod derive;
pub mod model;
pub mod chitin_util;
pub mod pattern;
pub mod text;
pub mod util;

verus! {

/// One named, typed argument of a leaf request.
#[derive(Debug)]
pub struct Argument {
    pub name: String,
    pub ty: String,
}

/// One request of a router: its name, the Rust type of its response and its
/// arguments.
#[derive(Debug)]
pub struct Leaf {
    pub name: String,
    pub response_ty: String,
    pub args: Vec<Argument>,
}

/// A router: an enum whose variants are leaves or nested routers. A nested
/// router carries the name of the variant that leads to it.
#[derive(Debug)]
pub struct ChitinEntry {
    pub name: String,
    pub variant_name: Option<String>,
    pub leaves: Vec<Leaf>,
    pub routers: Vec<ChitinEntry>,
}

/// The language of the generated code.
pub enum Language {
    Rust,
    TypeScript,
}

/// The side the generated code runs on; a server names the Rust type of
/// the context handed to each handler.
pub enum Side {
    Server { context: &'static str },
    Client,
}

/// What to generate: the side, the language, and the error type of every
/// response.
pub struct CodegenOption {
    pub side: Side,
    pub language: Language,
    pub error: &'static str,
}

/// An argument seen as its name and its type.
impl View for Argument {
    type V = (Seq<char>, Seq<char>);

    open spec fn view(&self) -> (Seq<char>, Seq<char>) {
        (self.name@, self.ty@)
    }
}

/// A leaf seen as plain text: its name, its response type and its
/// arguments as (name, type) pairs.
pub struct LeafView {
    pub name: Seq<char>,
    pub response_ty: Seq<char>,
    pub args: Seq<(Seq<char>, Seq<char>)>,
}

impl View for Leaf {
    type V = LeafView;

    open spec fn view(&self) -> LeafView {
        LeafView {
            name: self.name@,
            response_ty: self.response_ty@,
            args: self.args@.map_values(|a: Argument| a@),
        }
    }
}

/// The names of the arguments, in order.
pub open spec fn arg_names(args: Seq<Argument>) -> Seq<Seq<char>> {
    args.map_values(|a: Argument| a.name@)
}

/// The views of a sequence of strings.
pub open spec fn string_views(strs: Seq<String>) -> Seq<Seq<char>> {
    strs.map_values(|s: String| s@)
}

/// Copies the names of the arguments into a new vector.
pub(crate) fn collect_arg_names(args: &[Argument]) -> (names: Vec<String>)
    ensures
        string_views(names@) == arg_names(args@),
{
    let mut names: Vec<String> = Vec::new();
    let n = args.len();
    let mut i: usize = 0;
    while i < n
        invariant
            n == args@.len(),
            i <= n,
            names@.len() == i,
            forall|j: int| 0 <= j < i ==> #[trigger] names@[j]@ == args@[j].name@,
        decreases n - i,
    {
        names.push(args[i].name.clone());
        i = i + 1;
    }
    assert(string_views(names@) =~= arg_names(args@));
    names
}

} // verus!
