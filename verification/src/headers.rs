//! Header handling: decoding one wire value into text, and collapsing a list
//! of name/value pairs into a mapping in which a later entry overwrites an
//! earlier one of the same name.

use vstd::prelude::*;

verus! {

/// Whether a byte may stand in a header value handed out as text: visible
/// ASCII, or a horizontal tab. This is the rule the wire client applies
/// before yielding a value as a string.
pub open spec fn is_visible_ascii(b: u8) -> bool {
    32 <= b < 127 || b == 9
}

pub open spec fn all_visible_ascii(v: Seq<u8>) -> bool {
    forall|i: int| 0 <= i < v.len() ==> is_visible_ascii(#[trigger] v[i])
}

/// The text a header value yields: one character per byte when every byte is
/// visible ASCII or a tab, and the empty text otherwise.
pub open spec fn header_value_text(v: Seq<u8>) -> Seq<char> {
    if all_visible_ascii(v) {
        v.map_values(|b: u8| b as char)
    } else {
        Seq::empty()
    }
}

/// Relies on String::from_utf8: bytes below 128 are valid UTF-8 and decode
/// to one character per byte, each with the byte's code point.
#[verifier::external_body]
fn ascii_bytes_to_string(bytes: &Vec<u8>) -> (r: String)
    requires
        forall|i: int| 0 <= i < bytes@.len() ==> bytes@[i] < 128,
    ensures
        r@ == bytes@.map_values(|b: u8| b as char),
{
    match String::from_utf8(bytes.clone()) {
        Ok(s) => s,
        Err(_) => String::new(),
    }
}

/// Decode one header value: a value of visible ASCII (or tab) bytes becomes
/// its text; a value holding any other byte becomes the empty string rather
/// than failing the call.
pub fn decode_header_value(v: &Vec<u8>) -> (r: String)
    ensures
        r@ == header_value_text(v@),
{
    let mut i: usize = 0;
    while i < v.len()
        invariant
            0 <= i <= v@.len(),
            forall|j: int| 0 <= j < i ==> is_visible_ascii(#[trigger] v@[j]),
        decreases v@.len() - i,
    {
        let b = v[i];
        if !(b >= 32 && b < 127 || b == 9) {
            assert(!all_visible_ascii(v@));
            return String::new();
        }
        i += 1;
    }
    ascii_bytes_to_string(v)
}

/// The name/value views of a pair list.
pub open spec fn views_of(s: Seq<(String, String)>) -> Seq<(Seq<char>, Seq<char>)> {
    s.map_values(|p: (String, String)| (p.0@, p.1@))
}

/// No two entries share a name.
pub open spec fn unique_names(s: Seq<(String, String)>) -> bool {
    forall|i: int, j: int| 0 <= i < j < s.len() ==> (#[trigger] s[i]).0@ != (#[trigger] s[j]).0@
}

/// The mapping a pair list builds up, inserting pairs in order: a later pair
/// overwrites an earlier one of the same name.
pub open spec fn pairs_map(s: Seq<(Seq<char>, Seq<char>)>) -> Map<Seq<char>, Seq<char>>
    decreases s.len(),
{
    if s.len() == 0 {
        Map::empty()
    } else {
        pairs_map(s.drop_last()).insert(s.last().0, s.last().1)
    }
}

/// A name is in the mapping exactly when some pair carries it.
pub proof fn lemma_pairs_map_domain(s: Seq<(Seq<char>, Seq<char>)>, k: Seq<char>)
    ensures
        pairs_map(s).dom().contains(k) <==> exists|i: int| 0 <= i < s.len() && (#[trigger] s[i]).0
            == k,
    decreases s.len(),
{
    if s.len() == 0 {
    } else {
        lemma_pairs_map_domain(s.drop_last(), k);
        if s.last().0 == k {
            assert(s[s.len() - 1].0 == k);
        } else if pairs_map(s).dom().contains(k) {
            let i = choose|i: int| 0 <= i < s.drop_last().len() && (#[trigger] s.drop_last()[i]).0
                == k;
            assert(s[i].0 == k);
        } else if exists|i: int| 0 <= i < s.len() && (#[trigger] s[i]).0 == k {
            let i = choose|i: int| 0 <= i < s.len() && (#[trigger] s[i]).0 == k;
            assert(i < s.len() - 1);
            assert(s.drop_last()[i].0 == k);
        }
    }
}

/// The pair whose name has no later duplicate is the one the mapping keeps:
/// a later write wins over an earlier one.
pub proof fn lemma_last_write_wins(s: Seq<(Seq<char>, Seq<char>)>, i: int)
    requires
        0 <= i < s.len(),
        forall|j: int| i < j < s.len() ==> (#[trigger] s[j]).0 != s[i].0,
    ensures
        pairs_map(s).contains_pair(s[i].0, s[i].1),
    decreases s.len(),
{
    if i == s.len() - 1 {
    } else {
        assert forall|j: int| i < j < s.drop_last().len() implies (#[trigger] s.drop_last()[j]).0
            != s.drop_last()[i].0 by {
            assert(s.drop_last()[j] == s[j]);
        }
        lemma_last_write_wins(s.drop_last(), i);
        assert(s.last().0 != s[i].0);
        assert(s.drop_last()[i] == s[i]);
    }
}

/// Removing the one pair that carries a name removes that name from the
/// mapping.
proof fn lemma_pairs_map_remove(s: Seq<(Seq<char>, Seq<char>)>, j: int)
    requires
        0 <= j < s.len(),
        forall|i: int| 0 <= i < s.len() && i != j ==> (#[trigger] s[i]).0 != s[j].0,
    ensures
        pairs_map(s.remove(j)) == pairs_map(s).remove(s[j].0),
    decreases s.len(),
{
    let k = s[j].0;
    if j == s.len() - 1 {
        assert(s.remove(j) =~= s.drop_last());
        lemma_pairs_map_domain(s.drop_last(), k);
        assert forall|i: int| 0 <= i < s.drop_last().len() implies (#[trigger] s.drop_last()[i]).0
            != k by {
            assert(s.drop_last()[i] == s[i]);
        }
        assert(!pairs_map(s.drop_last()).dom().contains(k));
        assert(pairs_map(s).remove(k) =~= pairs_map(s.drop_last()));
    } else {
        let t = s.remove(j);
        assert(t.drop_last() =~= s.drop_last().remove(j));
        assert(t.last() == s.last());
        assert forall|i: int|
            0 <= i < s.drop_last().len() && i != j implies (#[trigger] s.drop_last()[i]).0
            != s.drop_last()[j].0 by {
            assert(s.drop_last()[i] == s[i]);
        }
        lemma_pairs_map_remove(s.drop_last(), j);
        assert(s.last().0 != k);
        assert(pairs_map(t) == pairs_map(s.drop_last()).remove(k).insert(
            s.last().0,
            s.last().1,
        ));
        assert(pairs_map(s.drop_last()).remove(k).insert(s.last().0, s.last().1) =~= pairs_map(
            s.drop_last(),
        ).insert(s.last().0, s.last().1).remove(k));
    }
}

/// Collapse a pair list into one entry per name: a later pair with the same
/// name as an earlier one replaces it, and the mapping the result describes
/// is exactly the mapping the input builds up in order.
pub fn upsert_all(pairs: &Vec<(String, String)>) -> (r: Vec<(String, String)>)
    ensures
        unique_names(r@),
        pairs_map(views_of(r@)) == pairs_map(views_of(pairs@)),
{
    let mut r: Vec<(String, String)> = Vec::new();
    let mut idx: usize = 0;
    proof {
        assert(views_of(pairs@.take(0)) =~= Seq::<(Seq<char>, Seq<char>)>::empty());
    }
    while idx < pairs.len()
        invariant
            0 <= idx <= pairs@.len(),
            unique_names(r@),
            pairs_map(views_of(r@)) == pairs_map(views_of(pairs@.take(idx as int))),
        decreases pairs@.len() - idx,
    {
        let name = pairs[idx].0.clone();
        let value = pairs[idx].1.clone();
        let ghost r_old = r@;
        let ghost k = name@;

        let mut j: usize = 0;
        let mut found: Option<usize> = None;
        while j < r.len()
            invariant
                0 <= j <= r@.len(),
                match found {
                    Some(f) => f < j && r@[f as int].0@ == name@,
                    None => forall|t: int| 0 <= t < j ==> (#[trigger] r@[t]).0@ != name@,
                },
            decreases r@.len() - j,
        {
            if found.is_none() && r[j].0.eq(&name) {
                found = Some(j);
            }
            j += 1;
        }

        match found {
            Some(f) => {
                proof {
                    assert forall|i: int|
                        0 <= i < views_of(r_old).len() && i != f implies (#[trigger] views_of(
                        r_old,
                    )[i]).0 != views_of(r_old)[f as int].0 by {
                        assert(views_of(r_old)[i].0 == r_old[i].0@);
                    }
                    lemma_pairs_map_remove(views_of(r_old), f as int);
                }
                r.remove(f);
                proof {
                    assert(views_of(r@) =~= views_of(r_old).remove(f as int));
                }
            },
            None => {},
        }

        let ghost r_mid = r@;
        r.push((name, value));

        proof {
            assert(views_of(r@) =~= views_of(r_mid).push((k, value@)));
            assert(views_of(r@).drop_last() =~= views_of(r_mid));
            assert(pairs_map(views_of(r@)) == pairs_map(views_of(r_mid)).insert(k, value@));

            // the new entry's name is absent from what it is pushed onto
            assert forall|t: int| 0 <= t < r_mid.len() implies (#[trigger] r_mid[t]).0@ != k by {
                if found is Some {
                    let f = found->0 as int;
                    assert(r_mid =~= r_old.remove(f));
                    if t < f {
                        assert(r_mid[t] == r_old[t]);
                    } else {
                        assert(r_mid[t] == r_old[t + 1]);
                    }
                }
            }
            assert(unique_names(r@));

            // the maps agree: either nothing was removed and the name was new,
            // or removing it first and inserting it again is one insertion
            match found {
                Some(f) => {
                    assert(pairs_map(views_of(r_mid)) == pairs_map(views_of(r_old)).remove(k));
                    assert(pairs_map(views_of(r_old)).remove(k).insert(k, value@) =~= pairs_map(
                        views_of(r_old),
                    ).insert(k, value@));
                },
                None => {},
            }

            assert(views_of(pairs@.take(idx + 1)).drop_last() =~= views_of(
                pairs@.take(idx as int),
            ));
            assert(views_of(pairs@.take(idx + 1)).last() == (k, value@));
            assert(pairs_map(views_of(pairs@.take(idx + 1))) == pairs_map(
                views_of(pairs@.take(idx as int)),
            ).insert(k, value@));
        }
        idx += 1;
    }
    proof {
        assert(pairs@.take(idx as int) =~= pairs@);
    }
    r
}

} // verus!
