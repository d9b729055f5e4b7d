//! The router derive: from the variants of an enum and their `#[chitin(..)]`
//! attributes, the leaves and nested routers of a router.
//!
//! The syntax tree is read elsewhere into the plain descriptions below; the
//! decisions and every error are made here.
use vstd::prelude::*;

use crate::{Argument, Leaf, LeafView};

verus! {

/// The type of an enum variant's field, as far as the derive reads it.
#[derive(Debug)]
pub enum FieldType {
    /// A type path that is one identifier, e.g. `UserQuery`.
    Ident(String),
    /// A longer type path, as the text of its tokens, e.g. `crate :: X`.
    Path(String),
    /// A type that is not a path, e.g. a tuple or a reference.
    Other,
}

/// One field of an enum variant: its name, if it has one, and its type.
#[derive(Debug)]
pub struct FieldInfo {
    pub ident: Option<String>,
    pub ty: FieldType,
}

/// The fields of a variant whose type is a path: the named ones as
/// (name, type) and the unnamed ones as their type.
#[derive(Debug)]
pub struct Fields {
    pub named: Vec<(String, String)>,
    pub unnamed: Vec<String>,
}

/// The fields seen as plain text.
impl View for Fields {
    type V = (Seq<(Seq<char>, Seq<char>)>, Seq<Seq<char>>);

    open spec fn view(&self) -> (Seq<(Seq<char>, Seq<char>)>, Seq<Seq<char>>) {
        (
            self.named@.map_values(|p: (String, String)| (p.0@, p.1@)),
            self.unnamed@.map_values(|s: String| s@),
        )
    }
}

/// The text with every space removed.
pub open spec fn without_spaces(s: Seq<char>) -> Seq<char>
    decreases s.len(),
{
    if s.len() == 0 {
        Seq::empty()
    } else if s.last() == ' ' {
        without_spaces(s.drop_last())
    } else {
        without_spaces(s.drop_last()).push(s.last())
    }
}

/// The text of a field's type, where it is a path.
pub open spec fn field_type_text(ty: FieldType) -> Option<Seq<char>> {
    match ty {
        FieldType::Ident(s) => Some(s@),
        FieldType::Path(s) => Some(without_spaces(s@)),
        FieldType::Other => None,
    }
}

/// The named and unnamed fields among the first ones, in order, leaving out
/// those whose type is not a path.
pub open spec fn fields_of(fields: Seq<FieldInfo>) -> (Seq<(Seq<char>, Seq<char>)>, Seq<Seq<char>>)
    decreases fields.len(),
{
    if fields.len() == 0 {
        (Seq::empty(), Seq::empty())
    } else {
        let prev = fields_of(fields.drop_last());
        let f = fields.last();
        match field_type_text(f.ty) {
            Some(t) => match f.ident {
                Some(name) => (prev.0.push((name@, t)), prev.1),
                None => (prev.0, prev.1.push(t)),
            },
            None => prev,
        }
    }
}

/// Removes every space from a text.
pub fn remove_spaces(s: &str) -> (res: String)
    ensures
        res@ == without_spaces(s@),
{
    let n = s.unicode_len();
    let mut res = String::new();
    let mut i: usize = 0;
    while i < n
        invariant
            n == s@.len(),
            i <= n,
            res@ == without_spaces(s@.take(i as int)),
        decreases n - i,
    {
        let c = s.get_char(i);
        proof {
            assert(s@.take(i + 1).drop_last() =~= s@.take(i as int));
        }
        if c != ' ' {
            let one = s.substring_char(i, i + 1);
            proof {
                assert(one@ =~= seq![c]);
            }
            res.append(one);
            proof {
                assert(res@ =~= without_spaces(s@.take(i as int)).push(c));
            }
        }
        i = i + 1;
    }
    proof {
        assert(s@.take(n as int) =~= s@);
    }
    res
}

/// Sorts the fields whose type is a path into named and unnamed ones,
/// keeping each type's text, without spaces.
pub fn to_fields(fields: &Vec<FieldInfo>) -> (res: Fields)
    ensures
        res@ == fields_of(fields@),
{
    let mut named: Vec<(String, String)> = Vec::new();
    let mut unnamed: Vec<String> = Vec::new();
    let n = fields.len();
    let mut i: usize = 0;
    while i < n
        invariant
            n == fields@.len(),
            i <= n,
            (Fields { named, unnamed })@ == fields_of(fields@.take(i as int)),
        decreases n - i,
    {
        let field = &fields[i];
        let ty = match &field.ty {
            FieldType::Ident(s) => Some(s.clone()),
            FieldType::Path(s) => Some(remove_spaces(s.as_str())),
            FieldType::Other => None,
        };
        proof {
            assert(fields@.take(i + 1).drop_last() =~= fields@.take(i as int));
        }
        match ty {
            Some(t) => match &field.ident {
                Some(name) => {
                    named.push((name.clone(), t));
                },
                None => {
                    unnamed.push(t);
                },
            },
            None => {},
        }
        proof {
            assert((Fields { named, unnamed })@ =~= fields_of(fields@.take(i + 1)));
        }
        i = i + 1;
    }
    proof {
        assert(fields@.take(n as int) =~= fields@);
    }
    Fields { named, unnamed }
}

/// One item inside `#[name(..)]`, as far as the derive reads it.
#[derive(Debug)]
pub enum MetaInfo {
    /// A bare path; `Some` with its text when it is one identifier.
    Path(Option<String>),
    /// `key = value`; the key's text when it is one identifier, and the
    /// value's when it is a string literal.
    NameValue { key: Option<String>, value: Option<String> },
    /// Anything else: a nested list or a bare literal.
    Other,
}

/// One attribute of a variant, as far as the derive reads it.
#[derive(Debug)]
pub enum AttrInfo {
    /// `#[name(item, item, ..)]`.
    List(Vec<MetaInfo>),
    /// An attribute of another shape, e.g. a doc comment.
    NotList,
    /// An attribute that does not parse as a meta item.
    Unparsable,
}

/// One variant of the enum: its name, its fields and its attributes.
#[derive(Debug)]
pub struct VariantInfo {
    pub name: String,
    pub fields: Vec<FieldInfo>,
    pub attrs: Vec<AttrInfo>,
}

/// A nested router: the variant that leads to it and the enum that
/// describes it.
#[derive(Debug)]
pub struct RouterInfo {
    pub name: String,
    pub next_enum: String,
}

impl View for RouterInfo {
    type V = (Seq<char>, Seq<char>);

    open spec fn view(&self) -> (Seq<char>, Seq<char>) {
        (self.name@, self.next_enum@)
    }
}

/// Why a router cannot be derived.
#[derive(Debug)]
pub enum DeriveError {
    /// The derive is on something other than an enum.
    NotAnEnum,
    /// An attribute does not parse as a meta item.
    UnparsableAttribute,
    /// `#[chitin()]`: the kind of node is missing.
    MissingNodeType,
    /// The first item does not name the kind of node.
    NodeTypeNotPath,
    /// The kind of node is a path of more than one segment.
    NodeTypeNotIdent,
    /// `router` is followed by more items.
    RouterWithMeta,
    /// A router's variant does not hold exactly one unnamed field.
    RouterFields,
    /// A leaf's second item is not `key = value`.
    LeafMetaNotNameValue,
    /// A leaf's response is not a string literal.
    LeafValueNotString,
    /// A leaf's key is a path of more than one segment.
    LeafKeyNotIdent,
    /// A leaf's key is not `response`.
    LeafKeyNotResponse,
    /// A leaf has more than one `key = value`.
    LeafWithExtraMeta,
    /// The kind of node is neither `router` nor `leaf`.
    UnknownNodeType(String),
}

/// Why a router cannot be derived, with texts seen as plain text.
pub enum DeriveFailure {
    NotAnEnum,
    UnparsableAttribute,
    MissingNodeType,
    NodeTypeNotPath,
    NodeTypeNotIdent,
    RouterWithMeta,
    RouterFields,
    LeafMetaNotNameValue,
    LeafValueNotString,
    LeafKeyNotIdent,
    LeafKeyNotResponse,
    LeafWithExtraMeta,
    UnknownNodeType(Seq<char>),
}

impl View for DeriveError {
    type V = DeriveFailure;

    open spec fn view(&self) -> DeriveFailure {
        match self {
            DeriveError::NotAnEnum => DeriveFailure::NotAnEnum,
            DeriveError::UnparsableAttribute => DeriveFailure::UnparsableAttribute,
            DeriveError::MissingNodeType => DeriveFailure::MissingNodeType,
            DeriveError::NodeTypeNotPath => DeriveFailure::NodeTypeNotPath,
            DeriveError::NodeTypeNotIdent => DeriveFailure::NodeTypeNotIdent,
            DeriveError::RouterWithMeta => DeriveFailure::RouterWithMeta,
            DeriveError::RouterFields => DeriveFailure::RouterFields,
            DeriveError::LeafMetaNotNameValue => DeriveFailure::LeafMetaNotNameValue,
            DeriveError::LeafValueNotString => DeriveFailure::LeafValueNotString,
            DeriveError::LeafKeyNotIdent => DeriveFailure::LeafKeyNotIdent,
            DeriveError::LeafKeyNotResponse => DeriveFailure::LeafKeyNotResponse,
            DeriveError::LeafWithExtraMeta => DeriveFailure::LeafWithExtraMeta,
            DeriveError::UnknownNodeType(s) => DeriveFailure::UnknownNodeType(s@),
        }
    }
}

/// What one attribute of a variant makes of it.
pub enum NodeView {
    Leaf(LeafView),
    Router((Seq<char>, Seq<char>)),
}

/// The node that an attribute makes of a variant: none, a leaf, a nested
/// router, or the reason it is refused.
pub open spec fn attr_node(variant: VariantInfo, attr: AttrInfo) -> Result<Option<NodeView>, DeriveFailure> {
    match attr {
        AttrInfo::Unparsable => Err(DeriveFailure::UnparsableAttribute),
        AttrInfo::NotList => Ok(None),
        AttrInfo::List(metas) => {
            let m = metas@;
            let fields = fields_of(variant.fields@);
            if m.len() == 0 {
                Err(DeriveFailure::MissingNodeType)
            } else {
                match m[0] {
                    MetaInfo::Path(Some(t)) => {
                        if t@ == "router"@ {
                            if m.len() > 1 {
                                Err(DeriveFailure::RouterWithMeta)
                            } else if fields.1.len() != 1 || fields.0.len() != 0 {
                                Err(DeriveFailure::RouterFields)
                            } else {
                                Ok(Some(NodeView::Router((variant.name@, fields.1[0]))))
                            }
                        } else if t@ == "leaf"@ {
                            if m.len() == 1 {
                                Ok(None)
                            } else {
                                match m[1] {
                                    MetaInfo::NameValue { key, value } => match value {
                                        None => Err(DeriveFailure::LeafValueNotString),
                                        Some(v) => match key {
                                            None => Err(DeriveFailure::LeafKeyNotIdent),
                                            Some(k) => if k@ != "response"@ {
                                                Err(DeriveFailure::LeafKeyNotResponse)
                                            } else if m.len() > 2 {
                                                Err(DeriveFailure::LeafWithExtraMeta)
                                            } else {
                                                Ok(
                                                    Some(
                                                        NodeView::Leaf(
                                                            LeafView {
                                                                name: variant.name@,
                                                                response_ty: v@,
                                                                args: fields.0,
                                                            },
                                                        ),
                                                    ),
                                                )
                                            },
                                        },
                                    },
                                    _ => Err(DeriveFailure::LeafMetaNotNameValue),
                                }
                            }
                        } else {
                            Err(DeriveFailure::UnknownNodeType(t@))
                        }
                    },
                    MetaInfo::Path(None) => Err(DeriveFailure::NodeTypeNotIdent),
                    _ => Err(DeriveFailure::NodeTypeNotPath),
                }
            }
        },
    }
}

/// The leaves and nested routers found so far.
pub type Found = (Seq<LeafView>, Seq<(Seq<char>, Seq<char>)>);

/// `found` with the node added, if there is one.
pub open spec fn add_node(found: Found, node: Option<NodeView>) -> Found {
    match node {
        None => found,
        Some(NodeView::Leaf(l)) => (found.0.push(l), found.1),
        Some(NodeView::Router(r)) => (found.0, found.1.push(r)),
    }
}

/// `found` with the nodes of the first `k` attributes of a variant added,
/// or the first refusal.
pub open spec fn attrs_nodes(variant: VariantInfo, k: int, found: Found) -> Result<Found, DeriveFailure>
    decreases k,
{
    if k <= 0 {
        Ok(found)
    } else {
        match attrs_nodes(variant, k - 1, found) {
            Err(e) => Err(e),
            Ok(f) => match attr_node(variant, variant.attrs@[k - 1]) {
                Err(e) => Err(e),
                Ok(node) => Ok(add_node(f, node)),
            },
        }
    }
}

/// The nodes of the first `n` variants, or the first refusal.
pub open spec fn variants_nodes(variants: Seq<VariantInfo>, n: int) -> Result<Found, DeriveFailure>
    decreases n,
{
    if n <= 0 {
        Ok((Seq::empty(), Seq::empty()))
    } else {
        match variants_nodes(variants, n - 1) {
            Err(e) => Err(e),
            Ok(f) => attrs_nodes(variants[n - 1], variants[n - 1].attrs@.len() as int, f),
        }
    }
}

/// The leaves and nested routers that the derive finds in an item, or the
/// first refusal.
pub open spec fn derive_nodes(is_enum: bool, variants: Seq<VariantInfo>) -> Result<Found, DeriveFailure> {
    if !is_enum {
        Err(DeriveFailure::NotAnEnum)
    } else {
        variants_nodes(variants, variants.len() as int)
    }
}

/// Once the attributes of a variant have a refusal, later ones keep it.
pub proof fn lemma_attrs_refusal_stays(variant: VariantInfo, k: int, m: int, found: Found)
    requires
        k <= m,
        attrs_nodes(variant, k, found) is Err,
    ensures
        attrs_nodes(variant, m, found) == attrs_nodes(variant, k, found),
    decreases m - k,
{
    if k < m {
        lemma_attrs_refusal_stays(variant, k, m - 1, found);
    }
}

/// Once the variants have a refusal, later ones keep it.
pub proof fn lemma_variants_refusal_stays(variants: Seq<VariantInfo>, k: int, m: int)
    requires
        k <= m,
        variants_nodes(variants, k) is Err,
    ensures
        variants_nodes(variants, m) == variants_nodes(variants, k),
    decreases m - k,
{
    if k < m {
        lemma_variants_refusal_stays(variants, k, m - 1);
    }
}

/// Leaves and nested routers seen as plain text.
pub open spec fn found_of(leaves: Seq<Leaf>, routers: Seq<RouterInfo>) -> Found {
    (leaves.map_values(|l: Leaf| l@), routers.map_values(|r: RouterInfo| r@))
}

/// Whether a text is the given literal.
fn text_is(s: &String, lit: &str) -> (res: bool)
    ensures
        res == (s@ == lit@),
{
    let other = String::from_str(lit);
    *s == other
}

/// The arguments made of (name, type) pairs.
fn to_arguments(named: &Vec<(String, String)>) -> (res: Vec<Argument>)
    ensures
        res@.map_values(|a: Argument| a@) == named@.map_values(|p: (String, String)| (p.0@, p.1@)),
{
    let mut res: Vec<Argument> = Vec::new();
    let n = named.len();
    let mut i: usize = 0;
    while i < n
        invariant
            n == named@.len(),
            i <= n,
            res@.len() == i,
            forall|j: int| 0 <= j < i ==> (#[trigger] res@[j])@ == (named@[j].0@, named@[j].1@),
        decreases n - i,
    {
        let pair = &named[i];
        res.push(Argument { name: pair.0.clone(), ty: pair.1.clone() });
        i = i + 1;
    }
    assert(res@.map_values(|a: Argument| a@) =~= named@.map_values(
        |p: (String, String)| (p.0@, p.1@),
    ));
    res
}

/// Adds the node that one attribute makes of a variant, or refuses it.
fn add_attr_node(
    variant: &VariantInfo,
    fields: &Fields,
    attr: &AttrInfo,
    leaves: &mut Vec<Leaf>,
    routers: &mut Vec<RouterInfo>,
) -> (res: Result<(), DeriveError>)
    requires
        fields@ == fields_of(variant.fields@),
    ensures
        res is Ok <==> attr_node(*variant, *attr) is Ok,
        res is Ok ==> found_of(final(leaves)@, final(routers)@) == add_node(
            found_of(old(leaves)@, old(routers)@),
            attr_node(*variant, *attr)->Ok_0,
        ),
        res matches Err(e) ==> attr_node(*variant, *attr) == Err::<Option<NodeView>, DeriveFailure>(
            e@,
        ),
{
    let ghost found0 = found_of(leaves@, routers@);
    match attr {
        AttrInfo::Unparsable => Err(DeriveError::UnparsableAttribute),
        AttrInfo::NotList => Ok(()),
        AttrInfo::List(metas) => {
            if metas.len() == 0 {
                return Err(DeriveError::MissingNodeType);
            }
            match &metas[0] {
                MetaInfo::Path(Some(t)) => {
                    if text_is(t, "router") {
                        if metas.len() > 1 {
                            Err(DeriveError::RouterWithMeta)
                        } else if fields.unnamed.len() != 1 || fields.named.len() != 0 {
                            Err(DeriveError::RouterFields)
                        } else {
                            routers.push(
                                RouterInfo {
                                    name: variant.name.clone(),
                                    next_enum: fields.unnamed[0].clone(),
                                },
                            );
                            proof {
                                assert(found_of(leaves@, routers@) =~= add_node(
                                    found0,
                                    attr_node(*variant, *attr)->Ok_0,
                                ));
                            }
                            Ok(())
                        }
                    } else if text_is(t, "leaf") {
                        if metas.len() == 1 {
                            Ok(())
                        } else {
                            match &metas[1] {
                                MetaInfo::NameValue { key, value } => match value {
                                    None => Err(DeriveError::LeafValueNotString),
                                    Some(v) => match key {
                                        None => Err(DeriveError::LeafKeyNotIdent),
                                        Some(k) => {
                                            if !text_is(k, "response") {
                                                Err(DeriveError::LeafKeyNotResponse)
                                            } else if metas.len() > 2 {
                                                Err(DeriveError::LeafWithExtraMeta)
                                            } else {
                                                let args = to_arguments(&fields.named);
                                                leaves.push(
                                                    Leaf {
                                                        name: variant.name.clone(),
                                                        response_ty: v.clone(),
                                                        args,
                                                    },
                                                );
                                                proof {
                                                    assert(found_of(leaves@, routers@) =~= add_node(
                                                        found0,
                                                        attr_node(*variant, *attr)->Ok_0,
                                                    ));
                                                }
                                                Ok(())
                                            }
                                        },
                                    },
                                },
                                _ => Err(DeriveError::LeafMetaNotNameValue),
                            }
                        }
                    } else {
                        Err(DeriveError::UnknownNodeType(t.clone()))
                    }
                },
                MetaInfo::Path(None) => Err(DeriveError::NodeTypeNotIdent),
                _ => Err(DeriveError::NodeTypeNotPath),
            }
        },
    }
}

/// Adds the nodes that the attributes of a variant make of it, or refuses
/// them.
fn add_variant_nodes(
    variant: &VariantInfo,
    leaves: &mut Vec<Leaf>,
    routers: &mut Vec<RouterInfo>,
) -> (res: Result<(), DeriveError>)
    ensures
        res is Ok <==> attrs_nodes(
            *variant,
            variant.attrs@.len() as int,
            found_of(old(leaves)@, old(routers)@),
        ) is Ok,
        res is Ok ==> attrs_nodes(
            *variant,
            variant.attrs@.len() as int,
            found_of(old(leaves)@, old(routers)@),
        ) == Ok::<Found, DeriveFailure>(found_of(final(leaves)@, final(routers)@)),
        res matches Err(e) ==> attrs_nodes(
            *variant,
            variant.attrs@.len() as int,
            found_of(old(leaves)@, old(routers)@),
        ) == Err::<Found, DeriveFailure>(e@),
{
    let ghost found0 = found_of(leaves@, routers@);
    let fields = to_fields(&variant.fields);
    let n = variant.attrs.len();
    let mut j: usize = 0;
    while j < n
        invariant
            n == variant.attrs@.len(),
            j <= n,
            fields@ == fields_of(variant.fields@),
            found0 == found_of(old(leaves)@, old(routers)@),
            attrs_nodes(*variant, j as int, found0) == Ok::<Found, DeriveFailure>(
                found_of(leaves@, routers@),
            ),
        decreases n - j,
    {
        let r = add_attr_node(variant, &fields, &variant.attrs[j], leaves, routers);
        match r {
            Ok(()) => {},
            Err(e) => {
                proof {
                    assert(attrs_nodes(*variant, j + 1, found0) == Err::<Found, DeriveFailure>(e@));
                    lemma_attrs_refusal_stays(*variant, j + 1, n as int, found0);

                }
                return Err(e);
            },
        }
        j = j + 1;
    }
    Ok(())
}

/// The leaves and nested routers of a router enum, in the order of its
/// variants and their attributes: `#[chitin(leaf, response = "T")]` makes
/// a leaf of a variant whose named fields are the arguments, and
/// `#[chitin(router)]` a nested router of a variant with one unnamed field,
/// the nested router's enum. Any other use of an attribute list is refused.
pub fn derive_router(is_enum: bool, variants: &Vec<VariantInfo>) -> (res: Result<
    (Vec<Leaf>, Vec<RouterInfo>),
    DeriveError,
>)
    ensures
        res is Ok <==> derive_nodes(is_enum, variants@) is Ok,
        res matches Ok((l, r)) ==> derive_nodes(is_enum, variants@) == Ok::<Found, DeriveFailure>(
            found_of(l@, r@),
        ),
        res matches Err(e) ==> derive_nodes(is_enum, variants@) == Err::<Found, DeriveFailure>(e@),
{
    if !is_enum {
        return Err(DeriveError::NotAnEnum);
    }
    let mut leaves: Vec<Leaf> = Vec::new();
    let mut routers: Vec<RouterInfo> = Vec::new();
    let n = variants.len();
    let mut i: usize = 0;
    proof {
        assert(found_of(leaves@, routers@) =~= (Seq::<LeafView>::empty(), Seq::<(Seq<char>, Seq<char>)>::empty()));
    }
    while i < n
        invariant
            n == variants@.len(),
            i <= n,
            is_enum,
            variants_nodes(variants@, i as int) == Ok::<Found, DeriveFailure>(
                found_of(leaves@, routers@),
            ),
        decreases n - i,
    {
        let r = add_variant_nodes(&variants[i], &mut leaves, &mut routers);
        match r {
            Ok(()) => {},
            Err(e) => {
                proof {
                    assert(variants_nodes(variants@, i + 1) == Err::<Found, DeriveFailure>(e@));
                    lemma_variants_refusal_stays(variants@, i + 1, n as int);
                }
                return Err(e);
            },
        }
        i = i + 1;
    }
    Ok((leaves, routers))
}

} // verus!
