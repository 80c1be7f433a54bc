//! Extra sort-key equality conditions of a `Query` on a table whose key has several
//! RANGE attributes.
use vstd::prelude::*;
use crate::decimal::{nat_decimal, push_u64_decimal};
use crate::expression_keys::{has_prefix, starts_with_char, NAME_PREFIX};
use crate::schema::{ScalarAttributeType, SortKey};

verus! {

/// The text of each `(placeholder, name)` pair of an `ExpressionAttributeNames` map.
pub open spec fn name_pairs(names: Seq<(String, String)>) -> Seq<(Seq<char>, Seq<char>)> {
    names.map_values(|p: (String, String)| (p.0@, p.1@))
}

/// The text of each condition's leading attribute, where the path starts with one.
pub open spec fn condition_heads(conds: Seq<Option<String>>) -> Seq<Option<Seq<char>>> {
    conds.map_values(
        |c: Option<String>|
            match c {
                Some(s) => Some(s@),
                None => None,
            },
    )
}

/// What `names` maps `key` to, taking the first pair with that key.
pub open spec fn lookup_name(names: Seq<(Seq<char>, Seq<char>)>, key: Seq<char>) -> Option<Seq<char>>
    decreases names.len(),
{
    if names.len() == 0 {
        None
    } else if names[0].0 == key {
        Some(names[0].1)
    } else {
        lookup_name(names.drop_first(), key)
    }
}

/// The attribute that a path's leading element names: a `#` reference is looked up, by the
/// text after the `#`, in the names map; any other name stands for itself.
pub open spec fn resolve_attribute(
    head: Option<Seq<char>>,
    names: Seq<(Seq<char>, Seq<char>)>,
) -> Option<Seq<char>> {
    match head {
        None => None,
        Some(n) => if has_prefix(n, NAME_PREFIX) {
            lookup_name(names, n.drop_first())
        } else {
            Some(n)
        },
    }
}

/// The position of the first sort key named `name`.
pub open spec fn sort_key_position(keys: Seq<SortKey>, name: Seq<char>) -> Option<nat>
    decreases keys.len(),
{
    if keys.len() == 0 {
        None
    } else if keys[0].name@ == name {
        Some(0)
    } else {
        match sort_key_position(keys.drop_first(), name) {
            Some(i) => Some(i + 1),
            None => None,
        }
    }
}

/// The sort key position that a condition constrains, when it names a sort key other than
/// the first (the first is constrained by the key condition itself).
pub open spec fn extra_match(
    head: Option<Seq<char>>,
    names: Seq<(Seq<char>, Seq<char>)>,
    keys: Seq<SortKey>,
) -> Option<nat> {
    match resolve_attribute(head, names) {
        None => None,
        Some(attr) => match sort_key_position(keys, attr) {
            Some(p) => if p > 0 {
                Some(p)
            } else {
                None
            },
            None => None,
        },
    }
}

/// The sort key positions that the conditions constrain, in the order of the conditions.
pub open spec fn extra_positions(
    heads: Seq<Option<Seq<char>>>,
    names: Seq<(Seq<char>, Seq<char>)>,
    keys: Seq<SortKey>,
) -> Seq<nat>
    decreases heads.len(),
{
    if heads.len() == 0 {
        Seq::empty()
    } else {
        let prev = extra_positions(heads.drop_last(), names, keys);
        match extra_match(heads.last(), names, keys) {
            Some(p) => prev.push(p),
            None => prev,
        }
    }
}

/// The equality conditions on the constrained columns, with placeholders numbered from
/// `first_param`.
pub open spec fn extra_sql(positions: Seq<nat>, keys: Seq<SortKey>, first_param: nat) -> Seq<char>
    decreases positions.len(),
{
    if positions.len() == 0 {
        Seq::empty()
    } else {
        extra_sql(positions.drop_last(), keys, first_param) + " AND "@
            + keys[positions.last() as int].column@ + " = $"@ + nat_decimal(
            (first_param + positions.len() - 1) as nat,
        )
    }
}

/// The constrained positions with the scalar type of each.
pub open spec fn extra_columns(positions: Seq<nat>, keys: Seq<SortKey>) -> Seq<(usize, ScalarAttributeType)> {
    positions.map_values(|p: nat| (p as usize, keys[p as int].attr_type))
}

/// The extra sort-key conditions of a `Query`, as SQL and as the columns to bind.
pub struct ExtraSortKeys {
    pub sql: String,
    pub columns: Vec<(usize, ScalarAttributeType)>,
    pub next_param: u32,
}

proof fn lemma_positions_monotone(
    heads: Seq<Option<Seq<char>>>,
    names: Seq<(Seq<char>, Seq<char>)>,
    keys: Seq<SortKey>,
    k: int,
    n: int,
)
    requires
        0 <= k <= n <= heads.len(),
    ensures
        extra_positions(heads.take(k), names, keys).len() <= extra_positions(heads.take(n), names, keys).len(),
    decreases n - k,
{
    if k < n {
        lemma_positions_monotone(heads, names, keys, k, n - 1);
        assert(heads.take(n).drop_last() =~= heads.take(n - 1));
    }
}

proof fn lemma_position_bound(keys: Seq<SortKey>, name: Seq<char>)
    ensures
        sort_key_position(keys, name) matches Some(p) ==> p < keys.len() && keys[p as int].name@ == name,
    decreases keys.len(),
{
    if keys.len() > 0 && keys[0].name@ != name {
        lemma_position_bound(keys.drop_first(), name);
    }
}

/// Looks `key` up in the names map.
pub fn lookup_name_exec(names: &Vec<(String, String)>, key: &String) -> (res: Option<String>)
    ensures
        match res {
            Some(v) => lookup_name(name_pairs(names@), key@) == Some(v@),
            None => lookup_name(name_pairs(names@), key@) is None,
        },
{
    let ghost pairs = name_pairs(names@);
    let mut j: usize = 0;
    assert(pairs.skip(0) =~= pairs);
    while j < names.len()
        invariant
            j <= names.len(),
            pairs == name_pairs(names@),
            pairs.len() == names.len(),
            lookup_name(pairs, key@) == lookup_name(pairs.skip(j as int), key@),
        decreases names.len() - j,
    {
        assert(pairs.skip(j as int)[0] == pairs[j as int]);
        if names[j].0 == *key {
            return Some(names[j].1.clone());
        }
        assert(pairs.skip(j as int).drop_first() =~= pairs.skip(j + 1));
        j = j + 1;
    }
    None
}

/// The position of the first sort key named `name`.
pub fn sort_key_position_exec(keys: &Vec<SortKey>, name: &String) -> (res: Option<usize>)
    ensures
        match res {
            Some(p) => sort_key_position(keys@, name@) == Some(p as nat),
            None => sort_key_position(keys@, name@) is None,
        },
{
    let mut j: usize = 0;
    assert(keys@.skip(0) =~= keys@);
    while j < keys.len()
        invariant
            j <= keys.len(),
            forall|k: int| 0 <= k < j ==> keys@[k].name@ != name@,
            sort_key_position(keys@, name@) == match sort_key_position(keys@.skip(j as int), name@) {
                Some(i) => Some((i + j) as nat),
                None => None,
            },
        decreases keys.len() - j,
    {
        assert(keys@.skip(j as int)[0] == keys@[j as int]);
        if keys[j].name == *name {
            return Some(j);
        }
        assert(keys@.skip(j as int).drop_first() =~= keys@.skip(j + 1));
        j = j + 1;
    }
    None
}

/// The attribute that a path's leading element names.
pub fn resolve_attribute_exec(head: &Option<String>, names: &Vec<(String, String)>) -> (res: Option<String>)
    ensures
        match res {
            Some(a) => resolve_attribute(
                match head {
                    Some(s) => Some(s@),
                    None => None,
                },
                name_pairs(names@),
            ) == Some(a@),
            None => resolve_attribute(
                match head {
                    Some(s) => Some(s@),
                    None => None,
                },
                name_pairs(names@),
            ) is None,
        },
{
    match head {
        None => None,
        Some(n) => {
            if starts_with_char(n.as_str(), NAME_PREFIX) {
                let len = n.as_str().unicode_len();
                let reference = String::from_str(n.as_str().substring_char(1, len));
                assert(reference@ =~= n@.drop_first());
                lookup_name_exec(names, &reference)
            } else {
                Some(n.clone())
            }
        },
    }
}

/// Resolves the extra RANGE-key equality conditions of a `Query`.
///
/// `heads` holds, for each extra condition, the attribute that its path starts with (or
/// nothing, where the path does not start with an attribute); `keys` lists the RANGE
/// attributes of the key schema in order, each with the column that holds it. A condition
/// on any RANGE attribute but the first adds `AND <column> = $<n>`, numbered from
/// `first_param`; a condition whose attribute cannot be resolved, or that is not a RANGE
/// attribute, is skipped.
pub fn resolve_extra_sort_keys(
    heads: &Vec<Option<String>>,
    names: &Vec<(String, String)>,
    keys: &Vec<SortKey>,
    first_param: u32,
) -> (res: ExtraSortKeys)
    requires
        first_param + extra_positions(condition_heads(heads@), name_pairs(names@), keys@).len()
            <= u32::MAX,
    ensures
        ({
            let positions = extra_positions(condition_heads(heads@), name_pairs(names@), keys@);
            &&& res.sql@ == extra_sql(positions, keys@, first_param as nat)
            &&& res.columns@ == extra_columns(positions, keys@)
            &&& res.next_param == first_param + positions.len()
        }),
        res.next_param == first_param + res.columns.len(),
        res.columns.len() <= heads.len(),
        forall|i: int| 0 <= i < res.columns.len() ==> {
            let (p, t) = #[trigger] res.columns@[i];
            &&& 0 < p < keys.len()
            &&& t == keys@[p as int].attr_type
        },
{
    proof {
        lemma_extra_positions_name_later_keys(condition_heads(heads@), name_pairs(names@), keys@);
    }
    let ghost all_heads = condition_heads(heads@);
    let ghost pairs = name_pairs(names@);
    let ghost total = extra_positions(all_heads, pairs, keys@);
    let mut sql = String::new();
    let mut columns: Vec<(usize, ScalarAttributeType)> = Vec::new();
    let mut param: u32 = first_param;
    let mut i: usize = 0;
    assert(all_heads.take(0) =~= Seq::<Option<Seq<char>>>::empty());
    while i < heads.len()
        invariant
            i <= heads.len(),
            all_heads == condition_heads(heads@),
            all_heads.len() == heads.len(),
            pairs == name_pairs(names@),
            total == extra_positions(all_heads, pairs, keys@),
            first_param + total.len() <= u32::MAX,
            sql@ == extra_sql(extra_positions(all_heads.take(i as int), pairs, keys@), keys@, first_param as nat),
            columns@ == extra_columns(extra_positions(all_heads.take(i as int), pairs, keys@), keys@),
            param == first_param + extra_positions(all_heads.take(i as int), pairs, keys@).len(),
        decreases heads.len() - i,
    {
        let ghost prev = extra_positions(all_heads.take(i as int), pairs, keys@);
        assert(all_heads.take(i + 1).drop_last() =~= all_heads.take(i as int));
        assert(all_heads.take(i + 1).last() == all_heads[i as int]);
        assert(all_heads[i as int] == match heads@[i as int] {
            Some(s) => Some(s@),
            None => None,
        });
        let attr = resolve_attribute_exec(&heads[i], names);
        match attr {
            Some(a) => {
                let pos = sort_key_position_exec(keys, &a);
                proof {
                    lemma_position_bound(keys@, a@);
                }
                match pos {
                    Some(p) => {
                        if p > 0 {
                            assert(extra_positions(all_heads.take(i + 1), pairs, keys@) == prev.push(p as nat));
                            proof {
                                lemma_positions_monotone(all_heads, pairs, keys@, i + 1, all_heads.len() as int);
                                assert(all_heads.take(all_heads.len() as int) =~= all_heads);
                            }
                            sql.append(" AND ");
                            sql.append(keys[p].column.as_str());
                            sql.append(" = $");
                            push_u64_decimal(&mut sql, param as u64);
                            columns.push((p, keys[p].attr_type));
                            param = param + 1;
                            let ghost next = prev.push(p as nat);
                            assert(next.drop_last() =~= prev);
                            assert(extra_columns(next, keys@) =~= extra_columns(prev, keys@).push((p, keys@[p as int].attr_type)));
                        }
                    },
                    None => {},
                }
            },
            None => {},
        }
        i = i + 1;
    }
    assert(all_heads.take(i as int) =~= all_heads);
    assert forall|i: int| 0 <= i < columns.len() implies {
        let (p, t) = #[trigger] columns@[i];
        &&& 0 < p < keys.len()
        &&& t == keys@[p as int].attr_type
    } by {
        assert(columns@[i] == extra_columns(total, keys@)[i]);
        assert(0 < total[i] < keys.len());
    }
    ExtraSortKeys { sql, columns, next_param: param }
}

/// Every constrained position names a RANGE key other than the first, and that key is the
/// attribute that its condition resolves to; there are never more of them than conditions.
pub proof fn lemma_extra_positions_name_later_keys(
    heads: Seq<Option<Seq<char>>>,
    names: Seq<(Seq<char>, Seq<char>)>,
    keys: Seq<SortKey>,
)
    ensures
        extra_positions(heads, names, keys).len() <= heads.len(),
        forall|i: int|
            0 <= i < extra_positions(heads, names, keys).len() ==> 0 < #[trigger] extra_positions(
                heads,
                names,
                keys,
            )[i] < keys.len(),
    decreases heads.len(),
{
    if heads.len() > 0 {
        lemma_extra_positions_name_later_keys(heads.drop_last(), names, keys);
        let prev = extra_positions(heads.drop_last(), names, keys);
        match resolve_attribute(heads.last(), names) {
            Some(a) => lemma_position_bound(keys, a),
            None => {},
        }
        assert forall|i: int|
            0 <= i < extra_positions(heads, names, keys).len() implies 0 < #[trigger] extra_positions(
            heads,
            names,
            keys,
        )[i] < keys.len() by {
            if i < prev.len() {
                assert(extra_positions(heads, names, keys)[i] == prev[i]);
            }
        }
    }
}

} // verus!
