//! Text reduction for error messages: cut a rendered error text before its
//! first colon or opening parenthesis, trim surrounding whitespace, and
//! lowercase what is left.

use vstd::prelude::*;

verus! {

/// A character at which the rendered text is cut: the message keeps only
/// what stands before the first of these.
pub open spec fn is_cut_char(c: char) -> bool {
    c == ':' || c == '('
}

/// The index of the first colon or opening parenthesis in `s`, or `s.len()`
/// when `s` holds neither.
pub open spec fn cut_point(s: Seq<char>) -> int
    decreases s.len(),
{
    if s.len() == 0 {
        0
    } else if is_cut_char(s[0]) {
        0
    } else {
        1 + cut_point(s.drop_first())
    }
}

/// The prefix of `s` that stands before its first colon or opening
/// parenthesis; all of `s` when it holds neither.
pub open spec fn prefix_before_cut(s: Seq<char>) -> Seq<char> {
    s.take(cut_point(s))
}

pub proof fn lemma_cut_point_bounds(s: Seq<char>)
    ensures
        0 <= cut_point(s) <= s.len(),
        forall|j: int| 0 <= j < cut_point(s) ==> !is_cut_char(s[j]),
        cut_point(s) < s.len() ==> is_cut_char(s[cut_point(s)]),
    decreases s.len(),
{
    if s.len() == 0 {
    } else if is_cut_char(s[0]) {
    } else {
        lemma_cut_point_bounds(s.drop_first());
        assert forall|j: int| 0 <= j < cut_point(s) implies !is_cut_char(s[j]) by {
            if j > 0 {
                assert(s.drop_first()[j - 1] == s[j]);
            }
        }
        if cut_point(s) < s.len() {
            assert(s.drop_first()[cut_point(s) - 1] == s[cut_point(s)]);
        }
    }
}

/// The first position at or after which a cut character stands is the cut
/// point: a scan that stops at the first such character finds it.
pub proof fn lemma_cut_point_is_first(s: Seq<char>, i: int)
    requires
        0 <= i <= s.len(),
        forall|j: int| 0 <= j < i ==> !is_cut_char(s[j]),
        i < s.len() ==> is_cut_char(s[i]),
    ensures
        cut_point(s) == i,
    decreases s.len(),
{
    if i == 0 {
    } else {
        assert(!is_cut_char(s[0]));
        assert forall|j: int| 0 <= j < i - 1 implies !is_cut_char(s.drop_first()[j]) by {
            assert(s.drop_first()[j] == s[j + 1]);
        }
        if i < s.len() {
            assert(s.drop_first()[i - 1] == s[i]);
        }
        lemma_cut_point_is_first(s.drop_first(), i - 1);
    }
}

/// Cut `s` before its first colon or opening parenthesis.
pub fn cut_at_delimiter(s: &str) -> (r: String)
    ensures
        r@ == prefix_before_cut(s@),
{
    let len = s.unicode_len();
    let mut i: usize = 0;
    while i < len
        invariant
            len == s@.len(),
            0 <= i <= len,
            forall|j: int| 0 <= j < i ==> !is_cut_char(s@[j]),
        decreases len - i,
    {
        let c = s.get_char(i);
        if c == ':' || c == '(' {
            proof {
                lemma_cut_point_is_first(s@, i as int);
            }
            return s.substring_char(0, i).to_owned();
        }
        i += 1;
    }
    proof {
        lemma_cut_point_is_first(s@, len as int);
        assert(s@.take(len as int) =~= s@);
    }
    s.to_owned()
}

/// Whether a character counts as whitespace for trimming. The meaning is
/// fixed by the standard library's notion of whitespace (see `char_is_ws`).
pub uninterp spec fn is_unicode_ws(c: char) -> bool;

/// Relies on char::is_whitespace: whether the character has the Unicode
/// White_Space property, a function of the character alone.
#[verifier::external_body]
fn char_is_ws(c: char) -> (r: bool)
    ensures
        r == is_unicode_ws(c),
{
    c.is_whitespace()
}

/// `s` without its leading whitespace.
pub open spec fn trim_front_spec(s: Seq<char>) -> Seq<char>
    decreases s.len(),
{
    if s.len() > 0 && is_unicode_ws(s.first()) {
        trim_front_spec(s.drop_first())
    } else {
        s
    }
}

/// `s` without its trailing whitespace.
pub open spec fn trim_back_spec(s: Seq<char>) -> Seq<char>
    decreases s.len(),
{
    if s.len() > 0 && is_unicode_ws(s.last()) {
        trim_back_spec(s.drop_last())
    } else {
        s
    }
}

/// `s` without its surrounding whitespace.
pub open spec fn trim_spec(s: Seq<char>) -> Seq<char> {
    trim_back_spec(trim_front_spec(s))
}

/// Dropping leading whitespace keeps the suffix that starts at the first
/// non-whitespace character.
pub proof fn lemma_trim_front_is_suffix(s: Seq<char>, a: int)
    requires
        0 <= a <= s.len(),
        forall|j: int| 0 <= j < a ==> is_unicode_ws(s[j]),
        a < s.len() ==> !is_unicode_ws(s[a]),
    ensures
        trim_front_spec(s) == s.skip(a),
    decreases s.len(),
{
    if a == 0 {
        assert(s.skip(0) =~= s);
    } else {
        assert(is_unicode_ws(s.first()));
        assert forall|j: int| 0 <= j < a - 1 implies is_unicode_ws(s.drop_first()[j]) by {
            assert(s.drop_first()[j] == s[j + 1]);
        }
        if a < s.len() {
            assert(s.drop_first()[a - 1] == s[a]);
        }
        lemma_trim_front_is_suffix(s.drop_first(), a - 1);
        assert(s.drop_first().skip(a - 1) =~= s.skip(a));
    }
}

/// Dropping trailing whitespace keeps the prefix that ends at the last
/// non-whitespace character.
pub proof fn lemma_trim_back_is_prefix(s: Seq<char>, b: int)
    requires
        0 <= b <= s.len(),
        forall|j: int| b <= j < s.len() ==> is_unicode_ws(s[j]),
        b > 0 ==> !is_unicode_ws(s[b - 1]),
    ensures
        trim_back_spec(s) == s.take(b),
    decreases s.len(),
{
    if b == s.len() {
        if s.len() > 0 {
            assert(!is_unicode_ws(s.last()));
        }
        assert(s.take(b) =~= s);
    } else {
        assert(is_unicode_ws(s.last()));
        assert forall|j: int| b <= j < s.len() - 1 implies is_unicode_ws(s.drop_last()[j]) by {
            assert(s.drop_last()[j] == s[j]);
        }
        lemma_trim_back_is_prefix(s.drop_last(), b);
        assert(s.drop_last().take(b) =~= s.take(b));
    }
}

/// Remove surrounding whitespace from `s`.
pub fn trim_ws(s: &str) -> (r: String)
    ensures
        r@ == trim_spec(s@),
{
    let len = s.unicode_len();
    let mut a: usize = 0;
    while a < len && char_is_ws(s.get_char(a))
        invariant
            len == s@.len(),
            0 <= a <= len,
            forall|j: int| 0 <= j < a ==> is_unicode_ws(s@[j]),
        decreases len - a,
    {
        a += 1;
    }
    proof {
        lemma_trim_front_is_suffix(s@, a as int);
    }
    if a == len {
        proof {
            assert(s@.skip(a as int) =~= Seq::<char>::empty());
        }
        return String::new();
    }
    let mut b: usize = len;
    while b > a && char_is_ws(s.get_char(b - 1))
        invariant
            len == s@.len(),
            a <= b <= len,
            a < len,
            !is_unicode_ws(s@[a as int]),
            forall|j: int| b <= j < len ==> is_unicode_ws(s@[j]),
        decreases b,
    {
        b -= 1;
    }
    proof {
        let t = s@.skip(a as int);
        assert forall|j: int| b - a <= j < t.len() implies is_unicode_ws(t[j]) by {
            assert(t[j] == s@[j + a]);
        }
        assert(b - a > 0 ==> t[b - a - 1] == s@[b as int - 1]);
        lemma_trim_back_is_prefix(t, b - a);
        assert(t.take(b - a) =~= s@.subrange(a as int, b as int));
    }
    s.substring_char(a, b).to_owned()
}

/// The lowercase rendering of `s`. The meaning is fixed by the standard
/// library's lowercase conversion (see `to_lower`).
pub uninterp spec fn lower_of(s: Seq<char>) -> Seq<char>;

/// Relies on str::to_lowercase: the result is a function of the characters
/// alone, and an empty string stays empty.
#[verifier::external_body]
fn to_lower(s: &str) -> (r: String)
    ensures
        r@ == lower_of(s@),
        s@.len() == 0 ==> r@.len() == 0,
{
    s.to_lowercase()
}

/// The normal form of a rendered error text: what stands before the first
/// colon or opening parenthesis, without surrounding whitespace, lowercased.
pub open spec fn normalized_of(s: Seq<char>) -> Seq<char> {
    lower_of(trim_spec(prefix_before_cut(s)))
}

/// Reduce a rendered error text to its normal form.
pub fn normalize_message(s: &str) -> (r: String)
    ensures
        r@ == normalized_of(s@),
{
    let cut = cut_at_delimiter(s);
    let trimmed = trim_ws(cut.as_str());
    to_lower(trimmed.as_str())
}

/// What is handed to the lowercasing step is already free of the wrapping
/// context: the cut keeps no colon or opening parenthesis, and the trim
/// leaves no surrounding whitespace.
pub proof fn lemma_cut_trim_clean(s: Seq<char>)
    ensures
        forall|i: int|
            0 <= i < trim_spec(prefix_before_cut(s)).len() ==> !is_cut_char(
                #[trigger] trim_spec(prefix_before_cut(s))[i],
            ),
        trim_spec(prefix_before_cut(s)).len() > 0 ==> !is_unicode_ws(
            trim_spec(prefix_before_cut(s)).first(),
        ) && !is_unicode_ws(trim_spec(prefix_before_cut(s)).last()),
{
    let p = prefix_before_cut(s);
    lemma_cut_point_bounds(s);
    assert(forall|i: int| 0 <= i < p.len() ==> !is_cut_char(p[i]));
    lemma_trim_front_no_cut(p);
    lemma_trim_back_no_cut(trim_front_spec(p));
    lemma_trim_ends_clean(p);
}

proof fn lemma_trim_front_no_cut(s: Seq<char>)
    requires
        forall|i: int| 0 <= i < s.len() ==> !is_cut_char(s[i]),
    ensures
        forall|i: int| 0 <= i < trim_front_spec(s).len() ==> !is_cut_char(trim_front_spec(s)[i]),
    decreases s.len(),
{
    if s.len() > 0 && is_unicode_ws(s.first()) {
        assert forall|i: int| 0 <= i < s.drop_first().len() implies !is_cut_char(
            s.drop_first()[i],
        ) by {
            assert(s.drop_first()[i] == s[i + 1]);
        }
        lemma_trim_front_no_cut(s.drop_first());
        assert(trim_front_spec(s) == trim_front_spec(s.drop_first()));
    } else {
        assert forall|i: int| 0 <= i < trim_front_spec(s).len() implies !is_cut_char(
            trim_front_spec(s)[i],
        ) by {
            assert(trim_front_spec(s)[i] == s[i]);
        }
    }
}

proof fn lemma_trim_back_no_cut(s: Seq<char>)
    requires
        forall|i: int| 0 <= i < s.len() ==> !is_cut_char(s[i]),
    ensures
        forall|i: int| 0 <= i < trim_back_spec(s).len() ==> !is_cut_char(trim_back_spec(s)[i]),
    decreases s.len(),
{
    if s.len() > 0 && is_unicode_ws(s.last()) {
        assert forall|i: int| 0 <= i < s.drop_last().len() implies !is_cut_char(
            s.drop_last()[i],
        ) by {
            assert(s.drop_last()[i] == s[i]);
        }
        lemma_trim_back_no_cut(s.drop_last());
        assert(trim_back_spec(s) == trim_back_spec(s.drop_last()));
    } else {
        assert forall|i: int| 0 <= i < trim_back_spec(s).len() implies !is_cut_char(
            trim_back_spec(s)[i],
        ) by {
            assert(trim_back_spec(s)[i] == s[i]);
        }
    }
}

/// A trimmed text starts and ends with a non-whitespace character, unless it
/// is empty.
pub proof fn lemma_trim_ends_clean(s: Seq<char>)
    ensures
        trim_spec(s).len() > 0 ==> !is_unicode_ws(trim_spec(s).first()) && !is_unicode_ws(
            trim_spec(s).last(),
        ),
{
    let f = trim_front_spec(s);
    lemma_trim_front_head(s);
    lemma_trim_back_tail(f);
    lemma_trim_back_keeps_head(f);
}

proof fn lemma_trim_front_head(s: Seq<char>)
    ensures
        trim_front_spec(s).len() > 0 ==> !is_unicode_ws(trim_front_spec(s).first()),
    decreases s.len(),
{
    if s.len() > 0 && is_unicode_ws(s.first()) {
        lemma_trim_front_head(s.drop_first());
    }
}

proof fn lemma_trim_back_tail(s: Seq<char>)
    ensures
        trim_back_spec(s).len() > 0 ==> !is_unicode_ws(trim_back_spec(s).last()),
    decreases s.len(),
{
    if s.len() > 0 && is_unicode_ws(s.last()) {
        lemma_trim_back_tail(s.drop_last());
    }
}

proof fn lemma_trim_back_keeps_head(s: Seq<char>)
    ensures
        trim_back_spec(s).len() > 0 ==> trim_back_spec(s).first() == s.first(),
    decreases s.len(),
{
    if s.len() > 0 && is_unicode_ws(s.last()) {
        lemma_trim_back_keeps_head(s.drop_last());
    }
}

} // verus!
