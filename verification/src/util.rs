//! The routing JSON built from a path whose last router is the outermost.
use vstd::prelude::*;

use crate::chitin_util::enum_json;
use crate::text::{join, push_joined, str_views};
use crate::{arg_names, collect_arg_names, Argument};

verus! {

/// The routing JSON when the path lists its routers innermost first: the
/// last one wraps all the others, `{ "Last": ... }`, and the innermost object
/// lists the argument names.
pub open spec fn enum_json_rev(path: Seq<Seq<char>>, names: Seq<Seq<char>>) -> Seq<char>
    decreases path.len(),
{
    if path.len() == 0 {
        "{ "@ + join(names, ", "@) + " }"@
    } else {
        "{ \""@ + path.last() + "\": "@ + enum_json_rev(path.drop_last(), names) + " }"@
    }
}

fn enum_json_upto(prev: &[&str], end: usize, params: &[Argument]) -> (res: String)
    requires
        end <= prev@.len(),
    ensures
        res@ == enum_json_rev(str_views(prev@).take(end as int), arg_names(params@)),
    decreases end,
{
    if end > 0 {
        let inner = enum_json_upto(prev, end - 1, params);
        let mut res = String::from_str("{ \"");
        res.append(prev[end - 1]);
        res.append("\": ");
        res.append(inner.as_str());
        res.append(" }");
        proof {
            let views = str_views(prev@);
            assert(views.take(end as int).drop_last() =~= views.take(end - 1));
        }
        res
    } else {
        let names = collect_arg_names(params);
        let mut res = String::from_str("{ ");
        push_joined(&mut res, &names, ", ");
        res.append(" }");
        res
    }
}

/// The JSON text that selects a leaf with the arguments `params`, where
/// `prev` lists the routers on the way innermost first, e.g. for
/// `["AskUser", "User"]`, `{ "User": { "AskUser": { id } } }`.
pub fn gen_enum_json(prev: &[&str], params: &[Argument]) -> (res: String)
    ensures
        res@ == enum_json_rev(str_views(prev@), arg_names(params@)),
{
    proof {
        assert(str_views(prev@).take(prev@.len() as int) =~= str_views(prev@));
    }
    enum_json_upto(prev, prev.len(), params)
}

/// Listing the routers innermost first and nesting from the end gives the
/// same JSON as listing them outermost first and nesting from the front.
pub proof fn lemma_enum_json_rev(path: Seq<Seq<char>>, names: Seq<Seq<char>>)
    ensures
        enum_json_rev(path, names) == enum_json(path.reverse(), names),
    decreases path.len(),
{
    if path.len() > 0 {
        lemma_enum_json_rev(path.drop_last(), names);
        assert(path.reverse().drop_first() =~= path.drop_last().reverse());
    }
}

} // verus!
