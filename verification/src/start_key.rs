//! Which attributes of an `ExclusiveStartKey` fill the tie-breaking placeholders of a
//! resumed `Query`.
use vstd::prelude::*;
use crate::keyset::pagination_terms;
use crate::schema::{KeyLayout, ScalarAttributeType, SortKey};
use crate::text::texts;

verus! {

/// The key attribute that a pagination placeholder stands for.
#[derive(PartialEq, Eq, Structural, Debug, Clone, Copy)]
pub enum KeyRole {
    SortKey,
    BasePartitionKey,
    BaseSortKey,
}

/// The attributes that the pagination placeholders stand for, in placeholder order.
pub open spec fn pagination_roles(sk: Option<SortKey>, base: Option<SortKey>, is_index: bool) -> Seq<
    KeyRole,
> {
    match sk {
        Some(_) => match base {
            Some(_) => seq![KeyRole::SortKey, KeyRole::BaseSortKey],
            None => if is_index {
                seq![KeyRole::SortKey, KeyRole::BasePartitionKey]
            } else {
                seq![KeyRole::SortKey]
            },
        },
        None => if is_index {
            match base {
                Some(_) => seq![KeyRole::BasePartitionKey, KeyRole::BaseSortKey],
                None => seq![KeyRole::BasePartitionKey],
            }
        } else {
            Seq::empty()
        },
    }
}

/// The values, beyond the sort key itself, that a resumed `Query` binds from its start key.
pub enum PaginationBindPlan {
    /// No extra value.
    Nothing,
    /// The base table's sort key, attribute `attr` of type `attr_type`.
    BaseSortKey { attr: String, attr_type: ScalarAttributeType },
    /// The base table's partition key, attribute `attr`.
    BasePartitionKey { attr: String },
}

/// Which value the plan binds.
pub open spec fn bound_roles(plan: PaginationBindPlan) -> Seq<KeyRole> {
    match plan {
        PaginationBindPlan::Nothing => Seq::empty(),
        PaginationBindPlan::BaseSortKey { .. } => seq![KeyRole::BaseSortKey],
        PaginationBindPlan::BasePartitionKey { .. } => seq![KeyRole::BasePartitionKey],
    }
}

/// The kind of plan, without its attribute names.
pub enum BindKind {
    Nothing,
    BaseSortKey,
    BasePartitionKey,
}

/// Which value is bound: the base sort key where the layout has one and the start key holds
/// it; otherwise, on an index, the base partition key where the start key holds it;
/// otherwise nothing.
pub open spec fn bind_kind(
    start_key: Option<Seq<Seq<char>>>,
    layout: KeyLayout,
    base_pk_attr: Option<Seq<char>>,
) -> BindKind {
    match start_key {
        None => BindKind::Nothing,
        Some(attrs) => match layout.base_sort_key {
            Some(b) => if attrs.contains(b.name@) {
                BindKind::BaseSortKey
            } else {
                BindKind::Nothing
            },
            None => if layout.is_index && attrs.contains(base_pk_attr.unwrap()) {
                BindKind::BasePartitionKey
            } else {
                BindKind::Nothing
            },
        },
    }
}

/// The kind of a plan.
pub open spec fn kind_of(plan: PaginationBindPlan) -> BindKind {
    match plan {
        PaginationBindPlan::Nothing => BindKind::Nothing,
        PaginationBindPlan::BaseSortKey { .. } => BindKind::BaseSortKey,
        PaginationBindPlan::BasePartitionKey { .. } => BindKind::BasePartitionKey,
    }
}

/// The attribute names of a start key, when there is one.
pub open spec fn start_key_attrs(start_key: Option<Vec<String>>) -> Option<Seq<Seq<char>>> {
    match start_key {
        Some(v) => Some(texts(v@)),
        None => None,
    }
}

/// The text of an optional attribute name.
pub open spec fn opt_name(name: Option<String>) -> Option<Seq<char>> {
    match name {
        Some(n) => Some(n@),
        None => None,
    }
}

/// `attrs` holds `name`.
pub fn contains_name(attrs: &Vec<String>, name: &String) -> (b: bool)
    ensures
        b == texts(attrs@).contains(name@),
{
    let ghost all = texts(attrs@);
    let mut j: usize = 0;
    while j < attrs.len()
        invariant
            j <= attrs.len(),
            all == texts(attrs@),
            all.len() == attrs.len(),
            forall|k: int| 0 <= k < j ==> all[k] != name@,
        decreases attrs.len() - j,
    {
        if attrs[j] == *name {
            assert(all[j as int] == name@);
            return true;
        }
        j = j + 1;
    }
    false
}

/// Decides which attribute of the start key fills the tie-breaking placeholders of a
/// resumed `Query`. `start_key` holds the attribute names of the `ExclusiveStartKey`, and
/// `base_pk_attr` the base table's partition-key attribute, which an index without a base
/// sort key needs.
pub fn plan_pagination_binds(
    start_key: &Option<Vec<String>>,
    layout: &KeyLayout,
    base_pk_attr: &Option<String>,
) -> (res: PaginationBindPlan)
    requires
        start_key is Some && layout.base_sort_key is None && layout.is_index ==> base_pk_attr is Some,
    ensures
        kind_of(res) == bind_kind(start_key_attrs(*start_key), *layout, opt_name(*base_pk_attr)),
        res matches PaginationBindPlan::BaseSortKey { attr, attr_type } ==> attr@
            == layout.base_sort_key.unwrap().name@ && attr_type
            == layout.base_sort_key.unwrap().attr_type,
        res matches PaginationBindPlan::BasePartitionKey { attr } ==> attr@ == base_pk_attr.unwrap()@,
        match start_key {
            None => res is Nothing,
            Some(attrs) => match layout.base_sort_key {
                Some(b) => (res is BaseSortKey <==> texts(attrs@).contains(b.name@)) && !(res is BasePartitionKey),
                None => (res is BasePartitionKey <==> (layout.is_index && texts(attrs@).contains(
                    base_pk_attr.unwrap()@,
                ))) && !(res is BaseSortKey),
            },
        },
{
    match start_key {
        None => PaginationBindPlan::Nothing,
        Some(attrs) => match &layout.base_sort_key {
            Some(b) => {
                if contains_name(attrs, &b.name) {
                    PaginationBindPlan::BaseSortKey { attr: b.name.clone(), attr_type: b.attr_type }
                } else {
                    PaginationBindPlan::Nothing
                }
            },
            None => {
                if layout.is_index {
                    let pk = match base_pk_attr {
                        Some(p) => p,
                        None => { return PaginationBindPlan::Nothing; },
                    };
                    if contains_name(attrs, pk) {
                        PaginationBindPlan::BasePartitionKey { attr: pk.clone() }
                    } else {
                        PaginationBindPlan::Nothing
                    }
                } else {
                    PaginationBindPlan::Nothing
                }
            },
        },
    }
}

/// The start key holds every attribute that the pagination of `layout` needs.
pub open spec fn start_key_complete(
    attrs: Seq<Seq<char>>,
    layout: KeyLayout,
    base_pk_attr: Option<Seq<char>>,
) -> bool {
    &&& layout.base_sort_key matches Some(b) ==> attrs.contains(b.name@)
    &&& (layout.base_sort_key is None && layout.is_index) ==> (base_pk_attr matches Some(p)
        && attrs.contains(p))
}

/// The values that a resumed `Query` binds agree with the placeholders of its pagination
/// fragment: the sort key's own placeholder comes first, and the plan fills the rest, one
/// value per placeholder and in placeholder order. This holds where the start key holds
/// the attributes that pagination needs and a base sort key comes only with an index. A
/// hash-only index with a base sort key is left out: its fragment has placeholders for
/// the base partition key and the base sort key, and the plan binds only the latter.
pub proof fn lemma_binds_match_placeholders(
    attrs: Seq<Seq<char>>,
    layout: KeyLayout,
    base_pk_attr: Option<Seq<char>>,
    forward: bool,
)
    requires
        start_key_complete(attrs, layout, base_pk_attr),
        layout.base_sort_key is Some ==> layout.is_index,
        !(layout.sort_key is None && layout.is_index && layout.base_sort_key is Some),
    ensures
        ({
            let roles = pagination_roles(layout.sort_key, layout.base_sort_key, layout.is_index);
            let kind = bind_kind(Some(attrs), layout, base_pk_attr);
            let bound: Seq<KeyRole> = match kind {
                BindKind::Nothing => Seq::empty(),
                BindKind::BaseSortKey => seq![KeyRole::BaseSortKey],
                BindKind::BasePartitionKey => seq![KeyRole::BasePartitionKey],
            };
            let own: Seq<KeyRole> = if layout.sort_key is Some {
                seq![KeyRole::SortKey]
            } else {
                Seq::empty()
            };
            &&& roles == own + bound
            &&& roles.len() == pagination_terms(
                layout.sort_key,
                layout.base_sort_key,
                layout.is_index,
                layout.is_lsi,
                forward,
            ).len()
        }),
{
    let roles = pagination_roles(layout.sort_key, layout.base_sort_key, layout.is_index);
    let kind = bind_kind(Some(attrs), layout, base_pk_attr);
    let bound: Seq<KeyRole> = match kind {
        BindKind::Nothing => Seq::empty(),
        BindKind::BaseSortKey => seq![KeyRole::BaseSortKey],
        BindKind::BasePartitionKey => seq![KeyRole::BasePartitionKey],
    };
    let own: Seq<KeyRole> = if layout.sort_key is Some {
        seq![KeyRole::SortKey]
    } else {
        Seq::empty()
    };
    assert(roles =~= own + bound);
}

} // verus!
