//! Collision-free names for downloaded files.
//!
//! A download never overwrites a file that is already in the destination
//! directory: the requested name gets a number in round brackets before
//! its extension, the smallest one from 1 up that makes the name free.
//! A name is taken as one path component: the text up to its last dot is
//! the stem, what follows is the extension, and a name whose only dot is
//! its first character has no extension.

use crate::text::{append_decimal, chars_of, decimal, lemma_decimal_injective};
use vstd::prelude::*;
use vstd::set_lib::lemma_len_subset;

verus! {

/// The position of the last `.` of `name`, or -1 if it has none.
pub open spec fn last_dot(name: Seq<char>) -> int
    decreases name.len(),
{
    if name.len() == 0 {
        -1
    } else if name.last() == '.' {
        name.len() - 1
    } else {
        last_dot(name.drop_last())
    }
}

/// The name without its extension.
pub open spec fn stem_of(name: Seq<char>) -> Seq<char> {
    let dot = last_dot(name);
    if dot <= 0 {
        name
    } else {
        name.take(dot)
    }
}

/// The extension of the name, without the dot; empty if it has none.
pub open spec fn extension_of(name: Seq<char>) -> Seq<char> {
    let dot = last_dot(name);
    if dot <= 0 {
        Seq::empty()
    } else {
        name.skip(dot + 1)
    }
}

/// What stands before the number in a numbered name.
pub open spec fn numbered_prefix(name: Seq<char>) -> Seq<char> {
    stem_of(name) + "("@
}

/// What stands after the number in a numbered name.
pub open spec fn numbered_suffix(name: Seq<char>) -> Seq<char> {
    if extension_of(name).len() == 0 {
        ")"@
    } else {
        ")"@ + "."@ + extension_of(name)
    }
}

/// The `k`-th alternative to `name`: `stem(k).ext`, or `stem(k)` for a name
/// without extension.
pub open spec fn numbered_name(name: Seq<char>, k: nat) -> Seq<char> {
    numbered_prefix(name) + decimal(k) + numbered_suffix(name)
}

/// The names that a directory listing holds.
pub open spec fn names_of(existing: Seq<String>) -> Set<Seq<char>> {
    existing.map_values(|entry: String| entry@).to_set()
}

/// `k` is the smallest number from 1 up whose alternative is not taken.
pub open spec fn is_first_free(taken: Set<Seq<char>>, name: Seq<char>, k: nat) -> bool {
    &&& k >= 1
    &&& !taken.contains(numbered_name(name, k))
    &&& forall|j: nat| 1 <= j < k ==> taken.contains(#[trigger] numbered_name(name, j))
}

/// The smallest number from 1 up whose alternative to `name` is not taken.
pub open spec fn first_free(taken: Set<Seq<char>>, name: Seq<char>) -> nat {
    choose|k: nat| is_first_free(taken, name, k)
}

/// The name under which a download requested as `name` is stored: `name`
/// itself if it is free, else its first free alternative.
pub open spec fn unique_name(taken: Set<Seq<char>>, name: Seq<char>) -> Seq<char> {
    if !taken.contains(name) {
        name
    } else {
        numbered_name(name, first_free(taken, name))
    }
}

/// The first `k` alternatives to `name`.
pub open spec fn alternatives(name: Seq<char>, k: nat) -> Set<Seq<char>>
    decreases k,
{
    if k == 0 {
        Set::empty()
    } else {
        alternatives(name, (k - 1) as nat).insert(numbered_name(name, k))
    }
}

/// Different numbers give different alternatives.
pub proof fn lemma_numbered_name_injective(name: Seq<char>, a: nat, b: nat)
    requires
        numbered_name(name, a) == numbered_name(name, b),
    ensures
        a == b,
{
    let before = numbered_prefix(name);
    let after = numbered_suffix(name);
    let left = numbered_name(name, a);
    let right = numbered_name(name, b);
    assert(left.len() == before.len() + decimal(a).len() + after.len());
    assert(right.len() == before.len() + decimal(b).len() + after.len());
    assert(left.subrange(before.len() as int, (before.len() + decimal(a).len()) as int) =~= decimal(
        a,
    ));
    assert(right.subrange(before.len() as int, (before.len() + decimal(b).len()) as int)
        =~= decimal(b));
    lemma_decimal_injective(a, b);
}

proof fn lemma_alternatives(name: Seq<char>, k: nat)
    ensures
        alternatives(name, k).finite(),
        alternatives(name, k).len() == k,
        forall|other: Seq<char>| #[trigger]
            alternatives(name, k).contains(other) ==> exists|j: nat|
                1 <= j <= k && other == numbered_name(name, j),
        forall|j: nat| 1 <= j <= k ==> alternatives(name, k).contains(#[trigger] numbered_name(name, j)),
    decreases k,
{
    if k > 0 {
        let fewer = alternatives(name, (k - 1) as nat);
        lemma_alternatives(name, (k - 1) as nat);
        if fewer.contains(numbered_name(name, k)) {
            let j = choose|j: nat| 1 <= j <= k - 1 && numbered_name(name, k) == numbered_name(name, j);
            lemma_numbered_name_injective(name, k, j);
        }
        assert forall|other: Seq<char>| #[trigger]
            alternatives(name, k).contains(other) implies exists|j: nat|
            1 <= j <= k && other == numbered_name(name, j) by {
            if other == numbered_name(name, k) {
                assert(1 <= k <= k && other == numbered_name(name, k));
            } else {
                assert(fewer.contains(other));
                let j = choose|j: nat| 1 <= j <= k - 1 && other == numbered_name(name, j);
                assert(1 <= j <= k && other == numbered_name(name, j));
            }
        }
    }
}

/// No more alternatives in a row can be taken than there are names.
pub proof fn lemma_taken_alternatives_bounded(taken: Set<Seq<char>>, name: Seq<char>, k: nat)
    requires
        taken.finite(),
        forall|j: nat| 1 <= j <= k ==> taken.contains(#[trigger] numbered_name(name, j)),
    ensures
        k <= taken.len(),
{
    lemma_alternatives(name, k);
    assert(alternatives(name, k).subset_of(taken)) by {
        assert forall|other: Seq<char>| alternatives(name, k).contains(other) implies taken.contains(
            other,
        ) by {
            let j = choose|j: nat| 1 <= j <= k && other == numbered_name(name, j);
            assert(taken.contains(numbered_name(name, j)));
        }
    }
    lemma_len_subset(alternatives(name, k), taken);
}

proof fn lemma_search_first_free(taken: Set<Seq<char>>, name: Seq<char>, k: nat)
    requires
        taken.finite(),
        k >= 1,
        forall|j: nat| 1 <= j < k ==> taken.contains(#[trigger] numbered_name(name, j)),
    ensures
        exists|m: nat| is_first_free(taken, name, m),
    decreases taken.len() + 1 - k,
{
    if !taken.contains(numbered_name(name, k)) {
        assert(is_first_free(taken, name, k));
    } else {
        lemma_taken_alternatives_bounded(taken, name, k);
        lemma_search_first_free(taken, name, k + 1);
    }
}

/// In a finite directory some alternative is free, and only one number is
/// the smallest such.
pub proof fn lemma_first_free(taken: Set<Seq<char>>, name: Seq<char>)
    requires
        taken.finite(),
    ensures
        is_first_free(taken, name, first_free(taken, name)),
        forall|k: nat| is_first_free(taken, name, k) ==> k == first_free(taken, name),
{
    lemma_search_first_free(taken, name, 1);
    let least = first_free(taken, name);
    assert forall|k: nat| is_first_free(taken, name, k) implies k == least by {
        if k < least {
            assert(taken.contains(numbered_name(name, k)));
        } else if least < k {
            assert(taken.contains(numbered_name(name, least)));
        }
    }
}

/// The name that a download is stored under is free.
pub proof fn lemma_unique_name_is_free(taken: Set<Seq<char>>, name: Seq<char>)
    requires
        taken.finite(),
    ensures
        !taken.contains(unique_name(taken, name)),
{
    lemma_first_free(taken, name);
}

/// Two downloads of one requested name into one directory are stored
/// under two names, neither of which was there before: the second does not
/// overwrite the first, and neither overwrites a file of the directory.
pub proof fn lemma_same_request_distinct_names(taken: Set<Seq<char>>, name: Seq<char>)
    requires
        taken.finite(),
    ensures
        !taken.contains(unique_name(taken, name)),
        !taken.contains(unique_name(taken.insert(unique_name(taken, name)), name)),
        unique_name(taken.insert(unique_name(taken, name)), name) != unique_name(taken, name),
{
    lemma_unique_name_is_free(taken, name);
    lemma_unique_name_is_free(taken.insert(unique_name(taken, name)), name);
}

/// The listing holds only finitely many names, no more than it has
/// entries.
pub proof fn lemma_names_of_bounded(existing: Seq<String>)
    ensures
        names_of(existing).finite(),
        names_of(existing).len() <= existing.len(),
{
    let names = existing.map_values(|entry: String| entry@);
    vstd::seq_lib::seq_to_set_is_finite(names);
    names.lemma_cardinality_of_set();
}

/// Tests whether the listing holds `name`.
pub fn is_taken(existing: &Vec<String>, name: &String) -> (r: bool)
    ensures
        r == names_of(existing@).contains(name@),
{
    let ghost names = existing@.map_values(|entry: String| entry@);
    let mut i: usize = 0;
    while i < existing.len()
        invariant
            i <= existing.len(),
            names == existing@.map_values(|entry: String| entry@),
            forall|j: int| 0 <= j < i ==> names[j] != name@,
        decreases existing.len() - i,
    {
        if existing[i] == *name {
            assert(names[i as int] == name@);
            assert(names.contains(name@));
            return true;
        }
        i += 1;
    }
    assert(!names.contains(name@));
    false
}

fn find_last_dot(chars: &Vec<char>) -> (r: Option<usize>)
    ensures
        match r {
            Some(at) => last_dot(chars@) == at && at < chars.len(),
            None => last_dot(chars@) == -1,
        },
{
    let mut i: usize = chars.len();
    assert(chars@.take(i as int) =~= chars@);
    while i > 0
        invariant
            i <= chars.len(),
            last_dot(chars@) == last_dot(chars@.take(i as int)),
        decreases i,
    {
        if chars[i - 1] == '.' {
            return Some(i - 1);
        }
        assert(chars@.take(i as int).drop_last() =~= chars@.take(i - 1));
        i -= 1;
    }
    None
}

/// Writes the `k`-th alternative to `name`.
pub fn numbered(name: &str, k: u128) -> (r: String)
    ensures
        r@ == numbered_name(name@, k as nat),
{
    let chars = chars_of(name);
    let dot: usize = match find_last_dot(&chars) {
        Some(at) => at,
        None => 0,
    };
    let mut r: String;
    if dot == 0 {
        r = String::from_str(name);
        r.append("(");
        append_decimal(&mut r, k);
        r.append(")");
    } else {
        r = String::from_str(name.substring_char(0, dot));
        r.append("(");
        append_decimal(&mut r, k);
        r.append(")");
        if dot + 1 < chars.len() {
            r.append(".");
            r.append(name.substring_char(dot + 1, chars.len()));
        }
    }
    proof {
        assert(name@.take(dot as int) =~= name@.subrange(0, dot as int));
        assert(name@.skip(dot + 1) =~= name@.subrange(dot + 1, name@.len() as int));
        assert(r@ =~= numbered_name(name@, k as nat));
    }
    r
}

/// Picks the name under which a download requested as `filename` is
/// stored in a directory that holds the entries `existing`.
pub fn get_unique_filename(existing: &Vec<String>, filename: &str) -> (r: String)
    ensures
        r@ == unique_name(names_of(existing@), filename@),
        !names_of(existing@).contains(r@),
{
    let ghost taken = names_of(existing@);
    proof {
        lemma_names_of_bounded(existing@);
        lemma_first_free(taken, filename@);
    }
    let plain = String::from_str(filename);
    if !is_taken(existing, &plain) {
        return plain;
    }
    let mut counter: u128 = 1;
    loop
        invariant
            taken == names_of(existing@),
            taken.finite(),
            taken.len() <= existing.len(),
            taken.contains(filename@),
            1 <= counter <= existing.len() + 1,
            forall|j: nat| 1 <= j < counter ==> taken.contains(#[trigger] numbered_name(filename@, j)),
            forall|k: nat| is_first_free(taken, filename@, k) ==> k == first_free(taken, filename@),
        decreases existing.len() + 1 - counter,
    {
        let candidate = numbered(filename, counter);
        if !is_taken(existing, &candidate) {
            assert(is_first_free(taken, filename@, counter as nat));
            return candidate;
        }
        proof {
            lemma_taken_alternatives_bounded(taken, filename@, counter as nat);
        }
        counter += 1;
    }
}

/// The name of the staging file of a download stored as `name`.
pub open spec fn staging_text(name: Seq<char>) -> Seq<char> {
    name + ".part"@
}

/// Writes the name of the staging file of a download stored as `name`.
pub fn staging_name(name: &str) -> (r: String)
    ensures
        r@ == staging_text(name@),
{
    String::from_str(name).concat(".part")
}

} // verus!
