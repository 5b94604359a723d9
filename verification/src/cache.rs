//! Hash maps from characters, hashed by [`ahash`].

use vstd::prelude::*;

verus! {

/// The random keys of [`ahash`]'s hasher.
#[verifier::external_type_specification]
#[verifier::external_body]
pub struct ExRandomState(ahash::RandomState);

/// A hash map from characters.
pub type CharMap<V> = ahash::HashMap<char, V>;

/// `HashMap::get` on an [`ahash::HashMap`], which is std's map with ahash's
/// hasher: the value that is stored for `c`, and `None` if there is none.
#[verifier::external_body]
pub(crate) fn lookup<V: Copy>(map: &CharMap<V>, c: char) -> (found: Option<V>)
    ensures
        found == (if map@.contains_key(c) { Some(map@[c]) } else { None }),
{
    map.get(&c).copied()
}

/// `HashMap::insert` on an [`ahash::HashMap`], which is std's map with ahash's
/// hasher: afterwards `value` is stored for `c`, and all else is as before.
#[verifier::external_body]
pub(crate) fn store<V: Copy>(map: &mut CharMap<V>, c: char, value: V)
    ensures
        final(map)@ == old(map)@.insert(c, value),
{
    map.insert(c, value);
}

} // verus!
