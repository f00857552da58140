//! The Redis keys of locks.

use vstd::prelude::*;

use crate::text::strip_prefix;

verus! {

/// The key of the lock `name`: `{prefix}:{name}`.
pub open spec fn key_of(prefix: Seq<char>, name: Seq<char>) -> Seq<char> {
    prefix + seq![':'] + name
}

/// The name of the lock that a key belongs to, if it is one of ours.
pub open spec fn name_of(prefix: Seq<char>, key: Seq<char>) -> Option<Seq<char>> {
    if key_of(prefix, Seq::empty()).is_prefix_of(key) {
        Some(key.skip(prefix.len() as int + 1))
    } else {
        None
    }
}

/// The key of the lock `name`.
pub fn keyname(prefix: &str, name: &str) -> (key: String)
    ensures
        key@ == key_of(prefix@, name@),
{
    let mut key = prefix.to_owned();
    key.push(':');
    key.append(name);
    assert(key@ =~= key_of(prefix@, name@));
    key
}

/// The name in `{prefix}:{name}`. None if the key is not ours, so that unrelated keys
/// are cheap to ignore.
pub fn parse_key<'a>(prefix: &str, key: &'a str) -> (name: Option<&'a str>)
    ensures
        match name {
            Some(name) => name_of(prefix@, key@) == Some(name@),
            None => name_of(prefix@, key@) is None,
        },
{
    let ghost ours = key_of(prefix@, Seq::empty());
    match strip_prefix(key, prefix) {
        None => {
            proof {
                if ours.is_prefix_of(key@) {
                    assert(prefix@ =~= ours.take(prefix@.len() as int));
                    assert(prefix@.is_prefix_of(key@));
                }
            }
            None
        },
        Some(rest) => {
            proof {
                reveal_strlit(":");
                assert(":"@ =~= seq![':']);
            }
            match strip_prefix(rest, ":") {
                None => {
                    proof {
                        if ours.is_prefix_of(key@) {
                            assert(rest@[0] == key@[prefix@.len() as int]);
                            assert(ours[prefix@.len() as int] == ':');
                            assert(":"@.is_prefix_of(rest@));
                        }
                    }
                    None
                },
                Some(name) => {
                    proof {
                        assert(key@ =~= ours + name@);
                        assert(key@.skip(prefix@.len() as int + 1) =~= name@);
                    }
                    Some(name)
                },
            }
        },
    }
}

/// The name of a lock is read back from its key.
pub proof fn name_is_read_back(prefix: Seq<char>, name: Seq<char>)
    ensures
        name_of(prefix, key_of(prefix, name)) == Some(name),
{
    assert(key_of(prefix, name).skip(prefix.len() as int + 1) =~= name);
}

/// A key is ours only if it is the key of the lock that is read from it.
pub proof fn only_own_keys_are_read(prefix: Seq<char>, key: Seq<char>)
    ensures
        match name_of(prefix, key) {
            Some(name) => key == key_of(prefix, name),
            None => forall|name: Seq<char>| key != #[trigger] key_of(prefix, name),
        },
{
    match name_of(prefix, key) {
        Some(name) => {
            assert forall|i: int| 0 <= i < prefix.len() + 1 implies key[i] == key_of(
                prefix,
                Seq::empty(),
            )[i] by {}
            assert(key =~= key_of(prefix, name));
        },
        None => {
            assert forall|name: Seq<char>| key != #[trigger] key_of(prefix, name) by {
                name_is_read_back(prefix, name);
            }
        },
    }
}

/// Locks with different names have different keys.
pub proof fn keys_tell_names_apart(prefix: Seq<char>, name: Seq<char>, other: Seq<char>)
    ensures
        key_of(prefix, name) == key_of(prefix, other) ==> name == other,
{
    name_is_read_back(prefix, name);
    name_is_read_back(prefix, other);
}

/// A key is the prefix, a colon and the name, and a name is read from a key just where
/// the key is made like that.
pub proof fn keys_are_prefix_colon_name(
    prefix: &str,
    name: &str,
    key: String,
    text: &str,
    read: Option<&str>,
)
    requires
        call_ensures(keyname, (prefix, name), key),
        call_ensures(parse_key, (prefix, text), read),
    ensures
        key@.len() == prefix@.len() + 1 + name@.len(),
        key@.take(prefix@.len() as int) == prefix@,
        key@[prefix@.len() as int] == ':',
        key@.skip(prefix@.len() as int + 1) == name@,
        read matches Some(read) ==> text@ == prefix@.push(':') + read@,
        read is None ==> forall|other: Seq<char>| text@ != #[trigger] (prefix@.push(':') + other),
{
    only_own_keys_are_read(prefix@, text@);
    assert(key@.take(prefix@.len() as int) =~= prefix@);
    assert(key@.skip(prefix@.len() as int + 1) =~= name@);
    assert(prefix@.push(':') =~= prefix@ + seq![':']);
    assert forall|other: Seq<char>| #[trigger] (prefix@.push(':') + other) == key_of(
        prefix@,
        other,
    ) by {}
}

} // verus!
