//! Helpers of the code generators: the JSON shape of a routed request and
//! the TypeScript spelling of Rust types.
use vstd::prelude::*;

use crate::pattern::{compile, is_match, regex_compiles, regex_is_match, regex_replace_all, replace_all};
use crate::text::{
    first_word, starts_with, lemma_first_word_is, lemma_not_contains, lemma_replace_whole_word, lemma_replace_words_unchanged, may_start_at,
    contains, contains_text, join, push_joined, replace_words, replace_words_in, str_views,
};
use crate::{arg_names, collect_arg_names, string_views, Argument};

verus! {

/// The JSON object that routes a request: each router on `path` wraps the
/// next one as `{ "Router": ... }`, and the innermost object lists the
/// argument names, `{ a, b }`.
pub open spec fn enum_json(path: Seq<Seq<char>>, names: Seq<Seq<char>>) -> Seq<char>
    decreases path.len(),
{
    if path.len() == 0 {
        "{ "@ + join(names, ", "@) + " }"@
    } else {
        "{ \""@ + path[0] + "\": "@ + enum_json(path.drop_first(), names) + " }"@
    }
}

fn enum_json_from(prev: &[String], start: usize, params: &[Argument]) -> (res: String)
    requires
        start <= prev@.len(),
    ensures
        res@ == enum_json(string_views(prev@).skip(start as int), arg_names(params@)),
    decreases prev@.len() - start,
{
    if start < prev.len() {
        let inner = enum_json_from(prev, start + 1, params);
        let mut res = String::new();
        res.append("{ \"");
        res.append(prev[start].as_str());
        res.append("\": ");
        res.append(inner.as_str());
        res.append(" }");
        proof {
            let views = string_views(prev@);
            assert(views.skip(start as int).drop_first() =~= views.skip(start + 1));
        }
        res
    } else {
        let names = collect_arg_names(params);
        let mut res = String::new();
        res.append("{ ");
        push_joined(&mut res, &names, ", ");
        res.append(" }");
        proof {
            assert(string_views(prev@).skip(start as int).len() == 0);
        }
        res
    }
}

/// The JSON text that selects the leaf at the end of `prev` with the
/// arguments `params`, e.g. `{ "User": { "AskUser": { id } } }`.
pub fn gen_enum_json(prev: &[String], params: &[Argument]) -> (res: String)
    ensures
        res@ == enum_json(string_views(prev@), arg_names(params@)),
{
    proof {
        assert(string_views(prev@).skip(0) =~= string_views(prev@));
    }
    enum_json_from(prev, 0, params)
}

/// The pattern of the namespace prefix that ends with a `*model_root` module.
pub open spec fn root_prefix_pattern() -> Seq<char> {
    "(\\w+::)*\\w*model_root::"@
}

/// The pattern of one namespace segment.
pub open spec fn segment_pattern() -> Seq<char> {
    "\\w+::"@
}

/// The pattern of a chrono UTC timestamp type.
pub open spec fn datetime_pattern() -> Seq<char> {
    "DateTime< *Utc *>"@
}

/// The text with its namespaces removed: everything up to and including a
/// `*model_root::` module where there is one, else every `name::` segment.
/// Both patterns match only text that holds `::`, so a text without `::`
/// is left as it is.
pub open spec fn strip_namespaces(path: Seq<char>) -> Seq<char> {
    if !contains(path, "::"@) {
        path
    } else if regex_is_match(root_prefix_pattern(), path) {
        regex_replace_all(root_prefix_pattern(), path, ""@)
    } else {
        regex_replace_all(segment_pattern(), path, ""@)
    }
}

/// The chrono UTC timestamp types replaced by `string`. The pattern matches
/// only text that holds `DateTime`, so other text is left as it is.
pub open spec fn replace_timestamps(text: Seq<char>) -> Seq<char> {
    if !contains(text, "DateTime"@) {
        text
    } else {
        regex_replace_all(datetime_pattern(), text, "string"@)
    }
}

/// The names of Rust's numeric primitive types that TypeScript spells
/// `number`.
pub open spec fn number_types() -> Seq<Seq<char>> {
    seq!["usize"@, "i32"@, "u32"@, "i64"@, "u64"@, "f32"@, "f64"@]
}

/// The TypeScript spelling of a Rust type path: the namespaces removed,
/// then each rewrite applied in turn.
pub open spec fn ts_type(path: Seq<char>) -> Seq<char> {
    let r = strip_namespaces(path);
    let r = replace_words(r, seq!["::"@], "."@);
    let r = replace_words(r, seq!["Vec"@], "Array"@);
    let r = replace_words(r, seq!["()"@], "null"@);
    let r = replace_words(r, number_types(), "number"@);
    let r = replace_words(r, seq!["bool"@], "boolean"@);
    let r = replace_words(r, seq!["String"@], "string"@);
    let r = replace_timestamps(r);
    let r = replace_words(r, seq!["("@], "["@);
    replace_words(r, seq![")"@], "]"@)
}

/// Every pattern that the TypeScript conversion hands to the regex crate is
/// accepted by it.
pub open spec fn ts_patterns_compile() -> bool {
    &&& regex_compiles(root_prefix_pattern())
    &&& regex_compiles(segment_pattern())
    &&& regex_compiles(datetime_pattern())
}

/// Tells whether every pattern of the TypeScript conversion compiles.
pub fn typescript_patterns_compile() -> (res: bool)
    ensures
        res == ts_patterns_compile(),
{
    compile("(\\w+::)*\\w*model_root::").is_some() && compile("\\w+::").is_some() && compile(
        "DateTime< *Utc *>",
    ).is_some()
}

/// Replaces every match of `pattern` in `text` by `replacement`.
fn rewrite(pattern: &str, text: &str, replacement: &str) -> (res: String)
    requires
        regex_compiles(pattern@),
    ensures
        res@ == regex_replace_all(pattern@, text@, replacement@),
{
    match compile(pattern) {
        Some(re) => replace_all(&re, text, replacement),
        None => {
            proof {
                assert(false);
            }
            String::new()
        },
    }
}

/// Replaces every occurrence of one word in `text` by `rep`.
fn replace_word(text: &str, word: &str, rep: &str) -> (res: String)
    ensures
        res@ == replace_words(text@, seq![word@], rep@),
{
    let words: [&str; 1] = [word];
    let res = replace_words_in(text, &words, rep);
    proof {
        assert(str_views(words@) =~= seq![word@]);
    }
    res
}

/// Turns a Rust type path into its TypeScript spelling: namespaces are
/// dropped (up to a `*model_root` module where there is one), `::` becomes
/// `.`, `Vec` becomes `Array`, `()` becomes `null`, the integer and float
/// types become `number`, `bool` becomes `boolean`, `String` and
/// `DateTime<Utc>` become `string`, and tuples become arrays.
pub fn to_typescript_type(path: &str) -> (res: String)
    requires
        ts_patterns_compile(),
    ensures
        res@ == ts_type(path@),
{
    let stripped = if !contains_text(path, "::") {
        String::from_str(path)
    } else {
        let root = match compile("(\\w+::)*\\w*model_root::") {
            Some(re) => re,
            None => {
                proof {
                    assert(false);
                }
                return String::new();
            },
        };
        if is_match(&root, path) {
            replace_all(&root, path, "")
        } else {
            rewrite("\\w+::", path, "")
        }
    };
    let r = replace_word(stripped.as_str(), "::", ".");
    let r = replace_word(r.as_str(), "Vec", "Array");
    let r = replace_word(r.as_str(), "()", "null");
    let numbers: [&str; 7] = ["usize", "i32", "u32", "i64", "u64", "f32", "f64"];
    proof {
        assert(str_views(numbers@) =~= number_types());
    }
    let r = replace_words_in(r.as_str(), &numbers, "number");
    let r = replace_word(r.as_str(), "bool", "boolean");
    let r = replace_word(r.as_str(), "String", "string");
    let r = if contains_text(r.as_str(), "DateTime") {
        rewrite("DateTime< *Utc *>", r.as_str(), "string")
    } else {
        r
    };
    let r = replace_word(r.as_str(), "(", "[");
    replace_word(r.as_str(), ")", "]")
}

/// Like `to_typescript_type`, but first checks that the conversion's
/// patterns compile, and gives `None` where one does not.
pub fn try_to_typescript_type(path: &str) -> (res: Option<String>)
    ensures
        res is Some <==> ts_patterns_compile(),
        res matches Some(s) ==> s@ == ts_type(path@),
{
    if typescript_patterns_compile() {
        Some(to_typescript_type(path))
    } else {
        None
    }
}

/// Rewrites every chrono `DateTime<Utc>` in a TypeScript type emitted for a
/// model into `string`.
pub fn type_convert(s: &str) -> (res: String)
    requires
        regex_compiles(datetime_pattern()),
    ensures
        res@ == regex_replace_all(datetime_pattern(), s@, "string"@),
{
    rewrite("DateTime< *Utc *>", s, "string")
}

/// Like `type_convert`, but gives `None` where the pattern does not compile.
pub fn try_type_convert(s: &str) -> (res: Option<String>)
    ensures
        res is Some <==> regex_compiles(datetime_pattern()),
        res matches Some(t) ==> t@ == regex_replace_all(datetime_pattern(), s@, "string"@),
{
    if compile("DateTime< *Utc *>").is_some() {
        Some(type_convert(s))
    } else {
        None
    }
}

/// Only lowercase ASCII letters and digits.
pub open spec fn lower_alnum(t: Seq<char>) -> bool {
    forall|i: int| 0 <= i < t.len() ==> ('a' <= #[trigger] t[i] <= 'z' || '0' <= t[i] <= '9')
}

/// Text made of lowercase letters and digits holds none of `::`, `Vec`, `()`.
proof fn lemma_lower_alnum_untouched(t: Seq<char>)
    requires
        lower_alnum(t),
    ensures
        !contains(t, "::"@),
        replace_words(t, seq!["::"@], "."@) == t,
        replace_words(t, seq!["Vec"@], "Array"@) == t,
        replace_words(t, seq!["()"@], "null"@) == t,
{
    reveal_strlit("::");
    reveal_strlit("Vec");
    reveal_strlit("()");
    assert forall|i: int| 0 <= i < t.len() implies !#[trigger] may_start_at(t, i, "::"@) by {
        assert('a' <= t[i] <= 'z' || '0' <= t[i] <= '9');
    }
    lemma_not_contains(t, "::"@);
    let w1 = seq!["::"@];
    let w2 = seq!["Vec"@];
    let w3 = seq!["()"@];
    assert forall|i: int, k: int| 0 <= i < t.len() && 0 <= k < w1.len() implies !#[trigger] may_start_at(
        t,
        i,
        w1[k],
    ) by {
        assert('a' <= t[i] <= 'z' || '0' <= t[i] <= '9');
    }
    assert forall|i: int, k: int| 0 <= i < t.len() && 0 <= k < w2.len() implies !#[trigger] may_start_at(
        t,
        i,
        w2[k],
    ) by {
        assert('a' <= t[i] <= 'z' || '0' <= t[i] <= '9');
    }
    assert forall|i: int, k: int| 0 <= i < t.len() && 0 <= k < w3.len() implies !#[trigger] may_start_at(
        t,
        i,
        w3[k],
    ) by {
        assert('a' <= t[i] <= 'z' || '0' <= t[i] <= '9');
    }
    lemma_replace_words_unchanged(t, w1, "."@);
    lemma_replace_words_unchanged(t, w2, "Array"@);
    lemma_replace_words_unchanged(t, w3, "null"@);
}

/// The rewrites after the numeric one leave `number` as it is.
proof fn lemma_number_stays()
    ensures
        replace_words("number"@, seq!["bool"@], "boolean"@) == "number"@,
        replace_words("number"@, seq!["String"@], "string"@) == "number"@,
        replace_timestamps("number"@) == "number"@,
        replace_words("number"@, seq!["("@], "["@) == "number"@,
        replace_words("number"@, seq![")"@], "]"@) == "number"@,
{
    let t = "number"@;
    reveal_strlit("number");
    reveal_strlit("bool");
    reveal_strlit("String");
    reveal_strlit("DateTime");
    reveal_strlit("(");
    reveal_strlit(")");
    assert(t.len() == 6);
    let w1 = seq!["bool"@];
    let w2 = seq!["String"@];
    let w3 = seq!["("@];
    let w4 = seq![")"@];
    assert forall|i: int, k: int| 0 <= i < t.len() && 0 <= k < w1.len() implies !#[trigger] may_start_at(
        t,
        i,
        w1[k],
    ) by {
        assert(w1[k] == "bool"@);
    }
    assert forall|i: int, k: int| 0 <= i < t.len() && 0 <= k < w2.len() implies !#[trigger] may_start_at(
        t,
        i,
        w2[k],
    ) by {
        assert(w2[k] == "String"@);
    }
    assert forall|i: int, k: int| 0 <= i < t.len() && 0 <= k < w3.len() implies !#[trigger] may_start_at(
        t,
        i,
        w3[k],
    ) by {
        assert(w3[k] == "("@);
    }
    assert forall|i: int, k: int| 0 <= i < t.len() && 0 <= k < w4.len() implies !#[trigger] may_start_at(
        t,
        i,
        w4[k],
    ) by {
        assert(w4[k] == ")"@);
    }
    assert forall|i: int| 0 <= i < t.len() implies !#[trigger] may_start_at(t, i, "DateTime"@) by {}
    lemma_replace_words_unchanged(t, w1, "boolean"@);
    lemma_replace_words_unchanged(t, w2, "string"@);
    lemma_replace_words_unchanged(t, w3, "["@);
    lemma_replace_words_unchanged(t, w4, "]"@);
    lemma_not_contains(t, "DateTime"@);
}

/// A numeric type's name, found whole at its start, is spelled `number`.
proof fn lemma_number_name(t: Seq<char>, k: int)
    requires
        0 <= k < number_types().len(),
        t == number_types()[k],
        t.len() > 0,
        lower_alnum(t),
        first_word(t, number_types(), 0) == Some(k),
    ensures
        ts_type(t) == "number"@,
{
    lemma_lower_alnum_untouched(t);
    lemma_replace_whole_word(t, number_types(), "number"@, k);
    lemma_number_stays();
}

/// Each of Rust's numeric primitive types, `usize`, `i32`, `u32`, `i64`,
/// `u64`, `f32` and `f64`, is spelled `number` in TypeScript.
pub proof fn lemma_numeric_types_are_numbers()
    ensures
        ts_type("usize"@) == "number"@,
        ts_type("i32"@) == "number"@,
        ts_type("u32"@) == "number"@,
        ts_type("i64"@) == "number"@,
        ts_type("u64"@) == "number"@,
        ts_type("f32"@) == "number"@,
        ts_type("f64"@) == "number"@,
{
    reveal_strlit("usize");
    reveal_strlit("i32");
    reveal_strlit("u32");
    reveal_strlit("i64");
    reveal_strlit("u64");
    reveal_strlit("f32");
    reveal_strlit("f64");
    let ws = number_types();
    assert(ws[0] == "usize"@ && ws[1] == "i32"@ && ws[2] == "u32"@ && ws[3] == "i64"@);
    assert(ws[4] == "u64"@ && ws[5] == "f32"@ && ws[6] == "f64"@);
    assert forall|j: int| 0 <= j < 7 implies lower_alnum(#[trigger] ws[j]) && ws[j].len() > 0
        && starts_with(ws[j], ws[j]) by {}
    // Each name is found at its own place: no earlier name is a prefix of it.
    assert forall|j: int, k: int| 0 <= j < k < 7 implies !#[trigger] starts_with(ws[k], ws[j]) by {
        if ws[j].len() <= ws[k].len() {
            if ws[j][0] == ws[k][0] {
                assert(ws[j][1] != ws[k][1]);
            }
        }
    }
    assert forall|k: int| 0 <= k < 7 implies first_word(#[trigger] ws[k], ws, 0) == Some(k) by {
        lemma_first_word_is(ws[k], ws, 0, k);
    }
    lemma_number_name("usize"@, 0);
    lemma_number_name("i32"@, 1);
    lemma_number_name("u32"@, 2);
    lemma_number_name("i64"@, 3);
    lemma_number_name("u64"@, 4);
    lemma_number_name("f32"@, 5);
    lemma_number_name("f64"@, 6);
}

} // verus!
