//! Validation of the keys of `ExpressionAttributeNames` and `ExpressionAttributeValues`.
//!
//! A placeholder map must not be empty, and each of its keys must start with the
//! placeholder's sigil: `#` for attribute names, `:` for attribute values.
use vstd::prelude::*;

verus! {

/// The sigil that every `ExpressionAttributeNames` key starts with.
pub const NAME_PREFIX: char = '#';

/// The sigil that every `ExpressionAttributeValues` key starts with.
pub const VALUE_PREFIX: char = ':';

/// `key` begins with the character `prefix`.
pub open spec fn has_prefix(key: Seq<char>, prefix: char) -> bool {
    key.len() > 0 && key[0] == prefix
}

/// Every key of `keys` begins with `prefix`.
pub open spec fn all_prefixed(keys: Seq<Seq<char>>, prefix: char) -> bool {
    forall|i: int| 0 <= i < keys.len() ==> #[trigger] has_prefix(keys[i], prefix)
}

/// The first key of `keys`, in their order, that does not begin with `prefix`.
pub open spec fn first_unprefixed(keys: Seq<Seq<char>>, prefix: char) -> Option<Seq<char>>
    decreases keys.len(),
{
    if keys.len() == 0 {
        None
    } else if !has_prefix(keys[0], prefix) {
        Some(keys[0])
    } else {
        first_unprefixed(keys.drop_first(), prefix)
    }
}

/// The message for an empty placeholder map.
pub open spec fn empty_map_message(field: Seq<char>) -> Seq<char> {
    field + " must not be empty"@
}

/// The message for a key that lacks the sigil.
pub open spec fn invalid_key_message(field: Seq<char>, key: Seq<char>) -> Seq<char> {
    field + " contains invalid key: Syntax error; key: \""@ + key + "\""@
}

/// What checking `keys` against `prefix` gives: `None` when they are accepted,
/// else the error message.
pub open spec fn key_check_error(keys: Seq<Seq<char>>, prefix: char, field: Seq<char>) -> Option<
    Seq<char>,
> {
    if keys.len() == 0 {
        Some(empty_map_message(field))
    } else {
        match first_unprefixed(keys, prefix) {
            Some(key) => Some(invalid_key_message(field, key)),
            None => None,
        }
    }
}

/// The text of each key.
pub open spec fn key_texts(keys: Seq<String>) -> Seq<Seq<char>> {
    keys.map_values(|k: String| k@)
}

/// The first unprefixed key of a sequence is found exactly when some key lacks the prefix,
/// and it is one of the keys.
pub proof fn lemma_first_unprefixed(keys: Seq<Seq<char>>, prefix: char)
    ensures
        first_unprefixed(keys, prefix) is None <==> all_prefixed(keys, prefix),
        first_unprefixed(keys, prefix) matches Some(k) ==> !has_prefix(k, prefix) && keys.contains(k),
    decreases keys.len(),
{
    if keys.len() > 0 {
        let rest = keys.drop_first();
        lemma_first_unprefixed(rest, prefix);
        if has_prefix(keys[0], prefix) {
            if all_prefixed(rest, prefix) {
                assert forall|i: int| 0 <= i < keys.len() implies #[trigger] has_prefix(
                    keys[i],
                    prefix,
                ) by {
                    if i > 0 {
                        assert(keys[i] == rest[i - 1]);
                    }
                }
            } else {
                let j = choose|j: int| 0 <= j < rest.len() && !#[trigger] has_prefix(rest[j], prefix);
                assert(keys[j + 1] == rest[j]);
            }
            if let Some(k) = first_unprefixed(rest, prefix) {
                let j = choose|j: int| 0 <= j < rest.len() && rest[j] == k;
                assert(keys[j + 1] == k);
            }
        } else {
            assert(keys[0] == keys[0]);
            assert(!has_prefix(keys[0], prefix));
        }
    }
}

/// `key` begins with the character `prefix`.
pub fn starts_with_char(key: &str, prefix: char) -> (b: bool)
    ensures
        b == has_prefix(key@, prefix),
        b == (key@.len() > 0 && key@[0] == prefix),
{
    key.unicode_len() > 0 && key.get_char(0) == prefix
}

/// Checks the keys of a placeholder map: the map must hold at least one key, and every key
/// must begin with `prefix`. Where several keys lack it, the first of them in the order of
/// `keys` is named in the message.
pub fn check_prefixed_keys(keys: &Vec<String>, prefix: char, field: &str) -> (res: Result<(), String>)
    ensures
        keys.len() == 0 ==> (res matches Err(m) && m@ == field@ + " must not be empty"@),
        res is Ok <==> (keys.len() > 0 && forall|i: int|
            0 <= i < keys.len() ==> #[trigger] keys@[i]@.len() > 0 && keys@[i]@[0] == prefix),
        match res {
            Ok(()) => true,
            Err(m) => keys.len() > 0 ==> exists|i: int|
            0 <= i < keys.len() && !(#[trigger] keys@[i]@.len() > 0 && keys@[i]@[0] == prefix) && (forall|j: int|
                0 <= j < i ==> keys@[j]@.len() > 0 && keys@[j]@[0] == prefix) && m@ == field@
                + " contains invalid key: Syntax error; key: \""@ + keys@[i]@ + "\""@,
        },
        res is Ok <==> (keys.len() > 0 && all_prefixed(key_texts(keys@), prefix)),
        match res {
            Ok(()) => key_check_error(key_texts(keys@), prefix, field@) is None,
            Err(msg) => key_check_error(key_texts(keys@), prefix, field@) == Some(msg@),
        },
{
    let ghost texts = key_texts(keys@);
    proof {
        lemma_first_unprefixed(texts, prefix);
    }
    if keys.len() == 0 {
        let mut msg = String::from_str(field);
        msg.append(" must not be empty");
        return Err(msg);
    }
    let mut i: usize = 0;
    assert(texts.skip(0) =~= texts);
    while i < keys.len()
        invariant
            i <= keys.len(),
            texts == key_texts(keys@),
            texts.len() == keys.len(),
            first_unprefixed(texts, prefix) == first_unprefixed(texts.skip(i as int), prefix),
            forall|j: int| 0 <= j < i ==> #[trigger] has_prefix(texts[j], prefix),
            forall|j: int| 0 <= j < i ==> #[trigger] keys@[j]@.len() > 0 && keys@[j]@[0] == prefix,
        decreases keys.len() - i,
    {
        let key = keys[i].as_str();
        assert(texts[i as int] == keys@[i as int]@);
        assert(texts.skip(i as int)[0] == texts[i as int]);
        if !starts_with_char(key, prefix) {
            let mut msg = String::from_str(field);
            msg.append(" contains invalid key: Syntax error; key: \"");
            msg.append(key);
            msg.append("\"");
            assert(!(keys@[i as int]@.len() > 0 && keys@[i as int]@[0] == prefix));
            return Err(msg);
        }
        assert(texts.skip(i as int).drop_first() =~= texts.skip(i + 1));
        i = i + 1;
    }
    assert(texts.skip(i as int).len() == 0);
    assert(all_prefixed(texts, prefix));
    assert(forall|j: int| 0 <= j < keys.len() ==> #[trigger] keys@[j]@.len() > 0 && keys@[j]@[0] == prefix);
    Ok(())
}

/// Checks the keys of an `ExpressionAttributeNames` map: not empty, and each starts with `#`.
pub fn check_expression_names(keys: &Vec<String>) -> (res: Result<(), String>)
    ensures
        keys.len() == 0 ==> (res matches Err(m) && m@ == "ExpressionAttributeNames"@ + " must not be empty"@),
        res is Ok <==> (keys.len() > 0 && forall|i: int|
            0 <= i < keys.len() ==> #[trigger] keys@[i]@.len() > 0 && keys@[i]@[0] == '#'),
        match res {
            Ok(()) => true,
            Err(m) => keys.len() > 0 ==> exists|i: int|
            0 <= i < keys.len() && !(#[trigger] keys@[i]@.len() > 0 && keys@[i]@[0] == '#') && (forall|j: int|
                0 <= j < i ==> keys@[j]@.len() > 0 && keys@[j]@[0] == '#') && m@ == "ExpressionAttributeNames"@
                + " contains invalid key: Syntax error; key: \""@ + keys@[i]@ + "\""@,
        },
        res is Ok <==> (keys.len() > 0 && all_prefixed(key_texts(keys@), NAME_PREFIX)),
        match res {
            Ok(()) => key_check_error(key_texts(keys@), NAME_PREFIX, "ExpressionAttributeNames"@) is None,
            Err(msg) => key_check_error(key_texts(keys@), NAME_PREFIX, "ExpressionAttributeNames"@)
                == Some(msg@),
        },
{
    check_prefixed_keys(keys, NAME_PREFIX, "ExpressionAttributeNames")
}

/// Checks the keys of an `ExpressionAttributeValues` map: not empty, and each starts with `:`.
pub fn check_expression_values(keys: &Vec<String>) -> (res: Result<(), String>)
    ensures
        keys.len() == 0 ==> (res matches Err(m) && m@ == "ExpressionAttributeValues"@ + " must not be empty"@),
        res is Ok <==> (keys.len() > 0 && forall|i: int|
            0 <= i < keys.len() ==> #[trigger] keys@[i]@.len() > 0 && keys@[i]@[0] == ':'),
        match res {
            Ok(()) => true,
            Err(m) => keys.len() > 0 ==> exists|i: int|
            0 <= i < keys.len() && !(#[trigger] keys@[i]@.len() > 0 && keys@[i]@[0] == ':') && (forall|j: int|
                0 <= j < i ==> keys@[j]@.len() > 0 && keys@[j]@[0] == ':') && m@ == "ExpressionAttributeValues"@
                + " contains invalid key: Syntax error; key: \""@ + keys@[i]@ + "\""@,
        },
        res is Ok <==> (keys.len() > 0 && all_prefixed(key_texts(keys@), VALUE_PREFIX)),
        match res {
            Ok(()) => key_check_error(key_texts(keys@), VALUE_PREFIX, "ExpressionAttributeValues"@) is None,
            Err(msg) => key_check_error(key_texts(keys@), VALUE_PREFIX, "ExpressionAttributeValues"@)
                == Some(msg@),
        },
{
    check_prefixed_keys(keys, VALUE_PREFIX, "ExpressionAttributeValues")
}

proof fn lemma_first_unprefixed_at(keys: Seq<Seq<char>>, prefix: char) -> (i: int)
    requires
        first_unprefixed(keys, prefix) is Some,
    ensures
        0 <= i < keys.len(),
        first_unprefixed(keys, prefix) == Some(keys[i]),
        !(keys[i].len() > 0 && keys[i][0] == prefix),
        forall|j: int| 0 <= j < i ==> (#[trigger] keys[j]).len() > 0 && keys[j][0] == prefix,
    decreases keys.len(),
{
    if !has_prefix(keys[0], prefix) {
        0
    } else {
        let rest = keys.drop_first();
        let k = lemma_first_unprefixed_at(rest, prefix);
        assert forall|j: int| 0 <= j < k + 1 implies (#[trigger] keys[j]).len() > 0 && keys[j][0] == prefix by {
            if j > 0 {
                assert(keys[j] == rest[j - 1]);
            } else {
                assert(has_prefix(keys[0], prefix));
            }
        }
        assert(keys[k + 1] == rest[k]);
        k + 1
    }
}

/// A placeholder map is accepted exactly when it has a key and every key's first character
/// is the sigil. An empty map is refused as empty; otherwise the refusal names the first
/// key, in order, whose first character is not the sigil (or that is empty).
pub proof fn lemma_key_check_accepts_exactly_prefixed(keys: Seq<Seq<char>>, prefix: char, field: Seq<char>)
    ensures
        key_check_error(keys, prefix, field) is None <==> (keys.len() > 0 && forall|i: int|
            0 <= i < keys.len() ==> (#[trigger] keys[i]).len() > 0 && keys[i][0] == prefix),
        keys.len() == 0 ==> key_check_error(keys, prefix, field) == Some(field + " must not be empty"@),
        keys.len() > 0 ==> match key_check_error(keys, prefix, field) {
            None => true,
            Some(m) => exists|i: int|
                0 <= i < keys.len() && !((#[trigger] keys[i]).len() > 0 && keys[i][0] == prefix) && (forall|j: int|
                    0 <= j < i ==> (#[trigger] keys[j]).len() > 0 && keys[j][0] == prefix) && m == field
                    + " contains invalid key: Syntax error; key: \""@ + keys[i] + "\""@,
        },
{
    lemma_first_unprefixed(keys, prefix);
    if keys.len() > 0 {
        if first_unprefixed(keys, prefix) is Some {
            let i = lemma_first_unprefixed_at(keys, prefix);
            assert(!(keys[i].len() > 0 && keys[i][0] == prefix));
            assert(key_check_error(keys, prefix, field) == Some(invalid_key_message(field, keys[i])));
        } else {
            assert forall|i: int| 0 <= i < keys.len() implies (#[trigger] keys[i]).len() > 0 && keys[i][0] == prefix by {
                assert(has_prefix(keys[i], prefix));
            }
        }
    }
}

} // verus!
