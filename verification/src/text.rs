//! Text handling shared by the stages: comparison, trimming, case folding
//! and the encoding of search strings for a query parameter.

use vstd::prelude::*;

verus! {

/// `str`'s `==`: two strings are equal when they hold the same characters.
pub assume_specification[ <str as PartialEq>::eq ](a: &str, b: &str) -> (r: bool)
    ensures
        r == (a@ == b@),
;

/// Whether two strings hold the same characters.
pub fn same_text(a: &str, b: &str) -> (r: bool)
    ensures
        r == (a@ == b@),
{
    a.eq(b)
}

/// `String::push` appends one character.
pub assume_specification[ String::push ](s: &mut String, c: char)
    ensures
        final(s)@ == old(s)@.push(c),
;

/// The lowercase form that `str::to_lowercase` gives to a string, following
/// the Unicode rules for case conversion.
pub uninterp spec fn lowercase(s: Seq<char>) -> Seq<char>;

/// `str::to_lowercase` returns the lowercase form of the string as a new
/// `String`.
pub assume_specification[ str::to_lowercase ](s: &str) -> (r: String)
    ensures
        r@ == lowercase(s@),
;

/// Whether `c` has the Unicode property `White_Space`, which is what
/// `str::trim` goes by.
pub uninterp spec fn white_space(c: char) -> bool;

/// `s` without its leading white space.
pub open spec fn trimmed_start(s: Seq<char>) -> Seq<char>
    decreases s.len(),
{
    if s.len() > 0 && white_space(s.first()) {
        trimmed_start(s.drop_first())
    } else {
        s
    }
}

/// `s` without its trailing white space.
pub open spec fn trimmed_end(s: Seq<char>) -> Seq<char>
    decreases s.len(),
{
    if s.len() > 0 && white_space(s.last()) {
        trimmed_end(s.drop_last())
    } else {
        s
    }
}

/// `s` without leading and trailing white space.
pub open spec fn trimmed(s: Seq<char>) -> Seq<char> {
    trimmed_end(trimmed_start(s))
}

/// A space, a tab or a line feed: characters that are white space for
/// certain.
pub open spec fn plain_space(c: char) -> bool {
    c == ' ' || c == '\t' || c == '\n'
}

/// `str::trim` returns the slice that is left when leading and trailing
/// white space is removed; what is left neither starts nor ends with white
/// space, and so with none of the plain spaces.
pub assume_specification[ str::trim ](s: &str) -> (r: &str)
    ensures
        r@ == trimmed(s@),
        r@.len() > 0 ==> !white_space(r@.first()) && !white_space(r@.last()),
        r@.len() > 0 ==> !plain_space(r@.first()) && !plain_space(r@.last()),
;

/// `s` with every space replaced by `%20`.
pub open spec fn space_encoded(s: Seq<char>) -> Seq<char>
    decreases s.len(),
{
    if s.len() == 0 {
        Seq::empty()
    } else if s.last() == ' ' {
        space_encoded(s.drop_last()) + seq!['%', '2', '0']
    } else {
        space_encoded(s.drop_last()).push(s.last())
    }
}

/// Appends `text` to `out`, each space written as `%20`.
pub fn append_space_encoded(out: &mut String, text: &str)
    ensures
        final(out)@ == old(out)@ + space_encoded(text@),
{
    let ghost start = out@;
    assert(text@.take(0) =~= Seq::empty());
    for c in it: text.chars()
        invariant
            it.seq() == text@,
            out@ == start + space_encoded(text@.take(it.index() as int)),
    {
        let ghost n = it.index() as int;
        proof {
            assert(text@.take(n + 1).drop_last() =~= text@.take(n));
            assert(text@.take(n + 1).last() == c);
        }
        if c == ' ' {
            out.append("%20");
            proof {
                reveal_strlit("%20");
            }
            assert("%20"@ =~= seq!['%', '2', '0']);
            assert(out@ =~= start + space_encoded(text@.take(n + 1)));
        } else {
            out.push(c);
            assert(out@ =~= start + space_encoded(text@.take(n + 1)));
        }
    }
    assert(text@.take(text@.len() as int) =~= text@);
}

} // verus!
