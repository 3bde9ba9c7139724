//! Text helpers: equality of string slices and the split of a dotted name.

use vstd::prelude::*;
use vstd::std_specs::iter::IteratorSpec;
use vstd::string::StringSliceAdditionalSpecFns;
use vstd::utf8::encode_utf8_decode_utf8;

verus! {

/// Two texts with the same UTF-8 encoding are the same text.
pub proof fn lemma_same_bytes_same_text(a: Seq<char>, b: Seq<char>)
    requires
        vstd::utf8::encode_utf8(a) == vstd::utf8::encode_utf8(b),
    ensures
        a == b,
{
    encode_utf8_decode_utf8(a);
    encode_utf8_decode_utf8(b);
}

/// Whether two string slices hold the same text.
pub fn str_eq(a: &str, b: &str) -> (same: bool)
    ensures
        same == (a@ == b@),
{
    let x = a.as_bytes();
    let y = b.as_bytes();
    if x.len() != y.len() {
        return false;
    }
    let n: usize = x.len();
    let mut i: usize = 0;
    while i < n
        invariant
            i <= n,
            n == x@.len(),
            n == y@.len(),
            x@ == a.spec_bytes(),
            y@ == b.spec_bytes(),
            forall|j: int| 0 <= j < i ==> x@[j] == y@[j],
        decreases n - i,
    {
        if x[i] != y[i] {
            return false;
        }
        i += 1;
    }
    proof {
        assert(x@ =~= y@);
        lemma_same_bytes_same_text(a@, b@);
    }
    true
}

/// The index of the first `'.'` in `name`, or the length of `name` if it has none.
pub open spec fn first_dot(name: Seq<char>) -> int
    decreases name.len(),
{
    if name.len() == 0 || name[0] == '.' {
        0
    } else {
        1 + first_dot(name.drop_first())
    }
}

/// `first_dot` is the smallest index that holds a dot, and stays within the name.
pub proof fn lemma_first_dot(name: Seq<char>)
    ensures
        0 <= first_dot(name) <= name.len(),
        first_dot(name) < name.len() ==> name[first_dot(name)] == '.',
        forall|j: int| 0 <= j < first_dot(name) ==> name[j] != '.',
    decreases name.len(),
{
    if name.len() == 0 || name[0] == '.' {
    } else {
        let rest = name.drop_first();
        lemma_first_dot(rest);
        assert forall|j: int| 0 <= j < first_dot(name) implies name[j] != '.' by {
            if j > 0 {
                assert(name[j] == rest[j - 1]);
            }
        }
    }
}

/// An index that holds a dot, with none before it, is `first_dot`.
pub proof fn lemma_first_dot_is(name: Seq<char>, i: int)
    requires
        0 <= i <= name.len(),
        i < name.len() ==> name[i] == '.',
        forall|j: int| 0 <= j < i ==> name[j] != '.',
    ensures
        first_dot(name) == i,
{
    lemma_first_dot(name);
}

/// The module prefix of a dotted name: what stands before the first dot, and
/// the empty text where the name has no dot.
pub open spec fn module_part(name: Seq<char>) -> Seq<char> {
    if first_dot(name) < name.len() {
        name.subrange(0, first_dot(name))
    } else {
        Seq::empty()
    }
}

/// The command part of a dotted name: what follows the first dot, and the
/// whole name where it has no dot.
pub open spec fn command_part(name: Seq<char>) -> Seq<char> {
    if first_dot(name) < name.len() {
        name.subrange(first_dot(name) + 1, name.len() as int)
    } else {
        name
    }
}

/// Splits a name at its first dot into module prefix and command name. A name
/// without a dot has the empty prefix.
pub fn split_name(name: &str) -> (parts: (&str, &str))
    ensures
        parts.0@ == module_part(name@),
        parts.1@ == command_part(name@),
{
    broadcast use vstd::string::group_string_axioms;

    let n: usize = name.unicode_len();
    let mut rest = name.chars();
    let mut i: usize = 0;
    loop
        invariant
            i <= n,
            n == name@.len(),
            rest.remaining() == name@.skip(i as int),
            forall|j: int| 0 <= j < i ==> name@[j] != '.',
        decreases n - i,
    {
        match rest.next() {
            Some(c) => {
                assert(c == name@[i as int]);
                if c == '.' {
                    proof {
                        lemma_first_dot_is(name@, i as int);
                    }
                    return (name.substring_char(0, i), name.substring_char(i + 1, n));
                }
                assert(name@.skip(i as int).drop_first() =~= name@.skip(i as int + 1));
                i += 1;
            },
            None => {
                proof {
                    lemma_first_dot_is(name@, n as int);
                    reveal_strlit("");
                    assert(""@ =~= Seq::<char>::empty());
                }
                return ("", name);
            },
        }
    }
}

} // verus!
