//! The model attribute: the names of the models that a module declares or
//! re-exports with `#[chitin_model_use]`.
//!
//! The module is read elsewhere into the plain descriptions below; the
//! decisions and every error are made here.
use vstd::prelude::*;

use crate::string_views;

verus! {

/// The tree of a `use` item, as far as the model attribute reads it.
#[derive(Debug)]
pub enum UseTreeInfo {
    /// `prefix::rest`.
    Path(Box<UseTreeInfo>),
    /// `name as rename`.
    Rename(String),
    /// `name`.
    Name(String),
    /// `{a, b, ..}`.
    Group(Vec<UseTreeInfo>),
    /// `*`.
    Glob,
}

/// One item of a module, as far as the model attribute reads it.
#[derive(Debug)]
pub enum ModItemInfo {
    Struct(String),
    Enum(String),
    /// A `use` item, and whether it carries `#[chitin_model_use]`.
    Use { marked: bool, tree: UseTreeInfo },
    Other,
}

/// Why the models of a module cannot be listed.
#[derive(Debug)]
pub enum ModelError {
    /// The module has no body.
    NoContent,
    /// A marked `use` item re-exports something other than single names.
    UnsupportedUse,
}

/// The number of items of a group; 0 for other trees.
pub open spec fn group_len(tree: UseTreeInfo) -> int {
    match tree {
        UseTreeInfo::Group(items) => items@.len() as int,
        _ => 0,
    }
}

/// The names that a use tree brings in, in order, up to the first glob;
/// `true` when there is no glob.
pub open spec fn use_idents(tree: UseTreeInfo) -> (Seq<Seq<char>>, bool)
    decreases tree, group_len(tree) + 2,
{
    match tree {
        UseTreeInfo::Path(rest) => use_idents(*rest),
        UseTreeInfo::Rename(r) => (seq![r@], true),
        UseTreeInfo::Name(n) => (seq![n@], true),
        UseTreeInfo::Group(items) => group_idents(tree, items@.len() as int),
        UseTreeInfo::Glob => (Seq::empty(), false),
    }
}

/// The names that the first `k` items of a group bring in, up to the first
/// glob; `true` when there is no glob among them.
pub open spec fn group_idents(tree: UseTreeInfo, k: int) -> (Seq<Seq<char>>, bool)
    decreases tree, 1int + k,
{
    match tree {
        UseTreeInfo::Group(items) => {
            if k <= 0 || k > items@.len() {
                (Seq::empty(), true)
            } else {
                let prev = group_idents(tree, k - 1);
                if !prev.1 {
                    prev
                } else {
                    let cur = use_idents(items@[k - 1]);
                    (prev.0 + cur.0, cur.1)
                }
            }
        },
        _ => (Seq::empty(), true),
    }
}

/// Once a group meets a glob, later items add nothing.
pub proof fn lemma_group_glob_stays(tree: UseTreeInfo, k: int, m: int)
    requires
        0 <= k <= m <= group_len(tree),
        !group_idents(tree, k).1,
    ensures
        group_idents(tree, m) == group_idents(tree, k),
    decreases m - k,
{
    if k < m {
        lemma_group_glob_stays(tree, k, m - 1);
    }
}

/// Appends the names that a use tree brings in, in order; fails at the
/// first glob, after appending the names before it.
pub fn extract_use_ident(idents: &mut Vec<String>, tree: &UseTreeInfo) -> (res: Result<(), ()>)
    ensures
        res is Ok <==> use_idents(*tree).1,
        string_views(final(idents)@) == string_views(old(idents)@) + use_idents(*tree).0,
    decreases tree,
{
    let ghost base = string_views(idents@);
    match tree {
        UseTreeInfo::Path(rest) => {
            extract_use_ident(idents, &**rest)
        },
        UseTreeInfo::Rename(r) => {
            idents.push(r.clone());
            proof {
                assert(string_views(idents@) =~= base + seq![r@]);
            }
            Ok(())
        },
        UseTreeInfo::Name(n) => {
            idents.push(n.clone());
            proof {
                assert(string_views(idents@) =~= base + seq![n@]);
            }
            Ok(())
        },
        UseTreeInfo::Group(items) => {
            let len = items.len();
            let mut j: usize = 0;
            proof {
                assert(string_views(idents@) =~= base + group_idents(*tree, 0).0);
            }
            while j < len
                invariant
                    len == items@.len(),
                    j <= len,
                    *tree == UseTreeInfo::Group(*items),
                    base == string_views(old(idents)@),
                    group_idents(*tree, j as int).1,
                    string_views(idents@) == base + group_idents(*tree, j as int).0,
                decreases len - j,
            {
                let r = extract_use_ident(idents, &items[j]);
                proof {
                    assert(string_views(idents@) =~= base + group_idents(*tree, j + 1).0);
                }
                if r.is_err() {
                    proof {
                        lemma_group_glob_stays(*tree, j + 1, len as int);
                    }
                    return Err(());
                }
                j = j + 1;
            }
            Ok(())
        },
        UseTreeInfo::Glob => {
            proof {
                assert(string_views(idents@) =~= base + Seq::<Seq<char>>::empty());
            }
            Err(())
        },
    }
}

/// The names of the models among the first `k` items of a module: each
/// struct and enum, and each name re-exported by a `use` item marked
/// `#[chitin_model_use]`; `None` when a marked `use` holds a glob.
pub open spec fn models_of(items: Seq<ModItemInfo>, k: int) -> Option<Seq<Seq<char>>>
    decreases k,
{
    if k <= 0 {
        Some(Seq::empty())
    } else {
        match models_of(items, k - 1) {
            None => None,
            Some(prev) => match items[k - 1] {
                ModItemInfo::Struct(n) => Some(prev.push(n@)),
                ModItemInfo::Enum(n) => Some(prev.push(n@)),
                ModItemInfo::Use { marked, tree } => {
                    if !marked {
                        Some(prev)
                    } else if use_idents(tree).1 {
                        Some(prev + use_idents(tree).0)
                    } else {
                        None
                    }
                },
                ModItemInfo::Other => Some(prev),
            },
        }
    }
}

/// Once a module's models meet an unsupported `use`, later items change
/// nothing.
pub proof fn lemma_models_refusal_stays(items: Seq<ModItemInfo>, k: int, m: int)
    requires
        k <= m,
        models_of(items, k) is None,
    ensures
        models_of(items, m) is None,
    decreases m - k,
{
    if k < m {
        lemma_models_refusal_stays(items, k, m - 1);
    }
}

/// The names of the models of a module, in order: each struct and enum it
/// declares, and each name it re-exports with `#[chitin_model_use]`.
pub fn chitin_model(content: &Option<Vec<ModItemInfo>>) -> (res: Result<Vec<String>, ModelError>)
    ensures
        content is None ==> res matches Err(ModelError::NoContent),
        content matches Some(items) ==> match models_of(items@, items@.len() as int) {
            Some(names) => res matches Ok(v) && string_views(v@) == names,
            None => res matches Err(ModelError::UnsupportedUse),
        },
{
    let items = match content {
        Some(items) => items,
        None => {
            return Err(ModelError::NoContent);
        },
    };
    let mut models: Vec<String> = Vec::new();
    let n = items.len();
    let mut i: usize = 0;
    proof {
        assert(string_views(models@) =~= Seq::<Seq<char>>::empty());
    }
    while i < n
        invariant
            n == items@.len(),
            i <= n,
            *content == Some(*items),
            models_of(items@, i as int) == Some(string_views(models@)),
        decreases n - i,
    {
        let ghost before = string_views(models@);
        match &items[i] {
            ModItemInfo::Struct(name) => {
                models.push(name.clone());
                proof {
                    assert(string_views(models@) =~= before.push(name@));
                }
            },
            ModItemInfo::Enum(name) => {
                models.push(name.clone());
                proof {
                    assert(string_views(models@) =~= before.push(name@));
                }
            },
            ModItemInfo::Use { marked, tree } => {
                if *marked {
                    let r = extract_use_ident(&mut models, tree);
                    if r.is_err() {
                        proof {
                            lemma_models_refusal_stays(items@, i + 1, n as int);
                        }
                        return Err(ModelError::UnsupportedUse);
                    }
                }
            },
            ModItemInfo::Other => {},
        }
        i = i + 1;
    }
    Ok(models)
}

/// The tree `a::b::..::rest` with `n` path segments before `rest`.
pub open spec fn prefixed(n: nat, rest: UseTreeInfo) -> UseTreeInfo
    decreases n,
{
    if n == 0 {
        rest
    } else {
        UseTreeInfo::Path(Box::new(prefixed((n - 1) as nat, rest)))
    }
}

/// Path segments in front of a use tree never change the names it brings
/// in, nor whether it holds a glob: `a::b::X` brings in what `X` does.
pub proof fn lemma_prefix_keeps_idents(n: nat, rest: UseTreeInfo)
    ensures
        use_idents(prefixed(n, rest)) == use_idents(rest),
    decreases n,
{
    if n > 0 {
        lemma_prefix_keeps_idents((n - 1) as nat, rest);
    }
}

/// A marked `use` of one name, behind any number of path segments, makes
/// that name a model, after the models before it.
pub proof fn lemma_marked_use_of_a_name(items: Seq<ModItemInfo>, k: int, n: nat, name: String)
    requires
        0 < k <= items.len(),
        models_of(items, k - 1) is Some,
        items[k - 1] == (ModItemInfo::Use { marked: true, tree: prefixed(n, UseTreeInfo::Name(name)) }),
    ensures
        models_of(items, k) == Some(models_of(items, k - 1)->Some_0.push(name@)),
{
    lemma_prefix_keeps_idents(n, UseTreeInfo::Name(name));
    let prev = models_of(items, k - 1)->Some_0;
    assert(prev + seq![name@] =~= prev.push(name@));
}

} // verus!
