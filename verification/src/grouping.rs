//! Grouping of library entries by the first letter of their name.
//!
//! Names come in any script; they are transliterated to ASCII first, and the
//! group is the upper-cased first letter of the transliteration, or `'#'`
//! for names that start with a digit or a non-letter.

use vstd::prelude::*;
use vstd::utf8::is_ascii_chars;
use vstd::pervasive::VecAdditionalExecFns;

verus! {

broadcast use vstd::seq_lib::group_to_multiset_ensures, vstd::multiset::group_multiset_axioms;

/// The ASCII transliteration of a Unicode string, as the deunicode crate
/// computes it: a function of the input characters alone.
pub uninterp spec fn transliterate_of(s: Seq<char>) -> Seq<char>;

/// A string of characters strictly below the delete character (0x7f): the
/// range on which the transliteration is the identity.
pub open spec fn plain_ascii(s: Seq<char>) -> bool {
    forall|i: int| 0 <= i < s.len() ==> (#[trigger] s[i] as u32) < 127
}

/// Relies on deunicode::deunicode.  The result is pure ASCII and depends on
/// the input characters alone.  An input made only of characters strictly
/// below 0x7f comes back unchanged: its fast path hands such input through
/// borrowed.  Other characters — the delete character among them — may be
/// rewritten or dropped by its mapping table.
#[verifier::external_body]
fn transliterate(s: &str) -> (r: String)
    ensures
        r@ == transliterate_of(s@),
        is_ascii_chars(r@),
        plain_ascii(s@) ==> r@ == s@,
{
    deunicode::deunicode(s)
}

/// The first character of the string's ASCII transliteration; `'#'` when the
/// transliteration is empty.
pub open spec fn spec_first_char(s: Seq<char>) -> char {
    if transliterate_of(s).len() == 0 {
        '#'
    } else {
        transliterate_of(s)[0]
    }
}

pub fn first_char(s: &str) -> (c: char)
    ensures
        c == spec_first_char(s@),
        (c as u32) < 128,
        plain_ascii(s@) ==> transliterate_of(s@) == s@,
{
    let t = transliterate(s);
    proof {
        vstd::utf8::is_ascii_chars_nat_bound(t@);
    }
    if t.as_str().unicode_len() == 0 {
        '#'
    } else {
        t.as_str().get_char(0)
    }
}

/// An ASCII lower-case letter.
pub open spec fn is_ascii_lower(c: char) -> bool {
    97 <= c as u32 <= 122
}

/// An ASCII upper-case letter.
pub open spec fn is_ascii_upper(c: char) -> bool {
    65 <= c as u32 <= 90
}

/// An ASCII decimal digit.
pub open spec fn is_ascii_digit_char(c: char) -> bool {
    48 <= c as u32 <= 57
}

/// The group a name belongs to, as one character: the first character of the
/// ASCII transliteration, upper-cased when it is a lower-case letter, and
/// `'#'` when it is a digit or not a letter at all.
pub open spec fn spec_group_char(s: Seq<char>) -> char {
    let c = spec_first_char(s);
    if is_ascii_lower(c) {
        ((c as u32 - 32) as u8) as char
    } else if is_ascii_digit_char(c) || !is_ascii_upper(c) {
        '#'
    } else {
        c
    }
}

/// The group name: a one-character string.
pub open spec fn spec_group_name(s: Seq<char>) -> Seq<char> {
    seq![spec_group_char(s)]
}

/// Relies on char::to_string: the returned string holds exactly that one
/// character.
#[verifier::external_body]
fn char_to_string(c: char) -> (r: String)
    ensures
        r@ == seq![c],
{
    c.to_string()
}

/// The group character is always the hash mark or an upper-case ASCII
/// letter, whatever the name was.
pub proof fn lemma_group_char_range(s: Seq<char>)
    ensures
        spec_group_char(s) as u32 == 35 || (65 <= spec_group_char(s) as u32 <= 90),
{
}

/// The one-character group a name falls into.
pub fn group_char_of(s: &str) -> (c: char)
    ensures
        c == spec_group_char(s@),
        plain_ascii(s@) ==> transliterate_of(s@) == s@,
{
    let c = first_char(s);
    let n = c as u32;
    if 97 <= n && n <= 122 {
        ((c as u8) - 32) as char
    } else if (48 <= n && n <= 57) || !(65 <= n && n <= 90) {
        '#'
    } else {
        c
    }
}

pub fn generate_group_name(x: &str) -> (r: String)
    ensures
        r@ == spec_group_name(x@),
        plain_ascii(r@),
        plain_ascii(x@) ==> transliterate_of(x@) == x@,
{
    let c = group_char_of(x);
    proof {
        lemma_group_char_range(x@);
    }
    char_to_string(c)
}

/// Grouping is idempotent: a group name is its own group.  The group
/// character is the hash mark or an upper-case letter, and such
/// one-character strings transliterate to themselves, so grouping the group
/// name hands it back unchanged.
pub fn generate_group_name_twice(x: &str) -> (r: (String, String))
    ensures
        r.0@ == spec_group_name(x@),
        r.1@ == spec_group_name(r.0@),
        r.1@ == r.0@,
{
    let once = generate_group_name(x);
    let twice = generate_group_name(once.as_str());
    proof {
        lemma_group_char_range(x@);
        let g = spec_group_char(x@);
        assert(transliterate_of(once@) == once@);
        assert(spec_first_char(once@) == g);
        assert(spec_group_char(once@) == g);
        assert(twice@ =~= once@);
    }
    (once, twice)
}

/// The group character of every name, in order.
pub open spec fn group_chars_of(names: Seq<String>) -> Seq<char> {
    names.map_values(|s: String| spec_group_char(s@))
}

/// How many of the names fall into the group `c`.
pub open spec fn group_count(names: Seq<String>, c: char) -> nat {
    group_chars_of(names).to_multiset().count(c)
}

/// The per-group tally behind the letter index: every group at least one
/// name falls into appears exactly once, with the exact number of names in
/// it, and no group that nothing falls into appears at all.
pub fn count_by_first_letter(names: &Vec<String>) -> (r: Vec<(char, usize)>)
    ensures
        forall|i: int, j: int| 0 <= i < j < r@.len() ==> r@[i].0 != r@[j].0,
        forall|i: int|
            0 <= i < r@.len() ==> r@[i].1 == group_count(names@, r@[i].0) && r@[i].1 > 0,
        forall|c: char|
            group_count(names@, c) > 0 ==> exists|i: int| 0 <= i < r@.len() && r@[i].0 == c,
{
    let mut chars: Vec<char> = Vec::new();
    let mut k: usize = 0;
    while k < names.len()
        invariant
            k <= names@.len(),
            chars@.len() == k,
            forall|i: int| 0 <= i < k ==> chars@[i] == spec_group_char(names@[i]@),
        decreases names@.len() - k,
    {
        let c = group_char_of(names[k].as_str());
        chars.push(c);
        k = k + 1;
    }
    proof {
        assert(chars@ =~= group_chars_of(names@));
    }
    let mut r: Vec<(char, usize)> = Vec::new();
    let mut k: usize = 0;
    while k < chars.len()
        invariant
            k <= chars@.len(),
            chars@ == group_chars_of(names@),
            forall|i: int, j: int| 0 <= i < j < r@.len() ==> r@[i].0 != r@[j].0,
            forall|i: int|
                0 <= i < r@.len() ==> r@[i].1 == chars@.take(k as int).to_multiset().count(
                    r@[i].0,
                ) && r@[i].1 > 0 && r@[i].1 <= k,
            forall|c: char|
                chars@.take(k as int).to_multiset().count(c) > 0 ==> exists|i: int|
                    0 <= i < r@.len() && r@[i].0 == c,
        decreases chars@.len() - k,
    {
        let c = chars[k];
        let mut found: bool = false;
        let mut at: usize = 0;
        let mut j: usize = 0;
        while j < r.len() && !found
            invariant
                j <= r@.len(),
                !found ==> forall|i: int| 0 <= i < j ==> r@[i].0 != c,
                found ==> j < r@.len() && at == j && r@[at as int].0 == c,
            decreases r@.len() - j + (if found {
                0int
            } else {
                1int
            }),
        {
            if r[j].0 == c {
                found = true;
                at = j;
            } else {
                j = j + 1;
            }
        }
        let ghost prev_take = chars@.take(k as int);
        let ghost old_r = r@;
        if found {
            let prev = r[at];
            r.set(at, (prev.0, prev.1 + 1));
        } else {
            r.push((c, 1));
        }
        k = k + 1;
        proof {
            assert(chars@.take(k as int) =~= prev_take.push(c));
            assert(chars@.take(k as int).to_multiset() =~= prev_take.to_multiset().insert(c));
            assert forall|cc: char|
                chars@.take(k as int).to_multiset().count(cc) > 0 implies exists|i: int|
                0 <= i < r@.len() && r@[i].0 == cc by {
                if cc == c {
                    if found {
                        assert(r@[at as int].0 == c);
                    } else {
                        assert(r@[r@.len() - 1].0 == c);
                    }
                } else {
                    assert(prev_take.to_multiset().count(cc) > 0);
                    let w = choose|i: int| 0 <= i < old_r.len() && old_r[i].0 == cc;
                    assert(r@[w].0 == old_r[w].0);
                }
            }
        }
    }
    proof {
        assert(chars@.take(chars@.len() as int) =~= chars@);
    }
    r
}

/// The identifiers of the entities that belong to the group `g`, in storage
/// order.
pub open spec fn ids_in_group(entities: Seq<(i32, String)>, g: Seq<char>) -> Seq<i32>
    decreases entities.len(),
{
    if entities.len() == 0 {
        Seq::empty()
    } else {
        let rest = ids_in_group(entities.drop_last(), g);
        if entities.last().1@ == g {
            rest.push(entities.last().0)
        } else {
            rest
        }
    }
}

/// The letter index itself: for every requested group, in the order
/// requested, the identifiers of exactly the entities that belong to it, in
/// storage order.  A group nothing belongs to gets an empty entry.
pub fn entities_by_group(groups: &Vec<String>, entities: &Vec<(i32, String)>) -> (r: Vec<
    (String, Vec<i32>),
>)
    ensures
        r@.len() == groups@.len(),
        forall|k: int| 0 <= k < r@.len() ==> r@[k].0@ == groups@[k]@,
        forall|k: int| 0 <= k < r@.len() ==> #[trigger] r@[k].1@ == ids_in_group(
            entities@,
            groups@[k]@,
        ),
{
    let mut r: Vec<(String, Vec<i32>)> = Vec::new();
    let mut k: usize = 0;
    while k < groups.len()
        invariant
            k <= groups@.len(),
            r@.len() == k,
            forall|q: int| 0 <= q < k ==> r@[q].0@ == groups@[q]@,
            forall|q: int| 0 <= q < k ==> #[trigger] r@[q].1@ == ids_in_group(
                entities@,
                groups@[q]@,
            ),
        decreases groups@.len() - k,
    {
        let g = &groups[k];
        let mut acc: Vec<i32> = Vec::new();
        let mut j: usize = 0;
        proof {
            assert(entities@.take(0) =~= Seq::<(i32, String)>::empty());
        }
        while j < entities.len()
            invariant
                j <= entities@.len(),
                acc@ == ids_in_group(entities@.take(j as int), g@),
            decreases entities@.len() - j,
        {
            let ghost prev = entities@.take(j as int);
            if entities[j].1 == *g {
                acc.push(entities[j].0);
            }
            j = j + 1;
            proof {
                let cur = entities@.take(j as int);
                assert(cur.drop_last() =~= prev);
                assert(cur.last() == entities@[j - 1]);
            }
        }
        proof {
            assert(entities@.take(entities@.len() as int) =~= entities@);
        }
        r.push((g.clone(), acc));
        k = k + 1;
    }
    r
}

} // verus!
