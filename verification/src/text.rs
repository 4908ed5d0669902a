//! Text handling: decoding, trimming and replacing.

use vstd::prelude::*;
use vstd::string::StringExecFns;
use vstd::string::StrSliceExecFns;

verus! {

/// The text that lossy UTF-8 decoding makes of a byte string.
pub uninterp spec fn utf8_lossy(bytes: Seq<u8>) -> Seq<char>;

/// Whether a character is whitespace: whether Unicode gives it the property
/// White_Space.  These are the tab, the line feed, the vertical tab, the form
/// feed, the carriage return, the space, the next-line control, the no-break
/// space, the ogham space mark, the spaces from the en quad to the hair space,
/// the line and the paragraph separator, the narrow no-break space, the medium
/// mathematical space and the ideographic space.
pub open spec fn is_whitespace(c: char) -> bool {
    let code = c as u32;
    ||| 0x0009 <= code <= 0x000d
    ||| code == 0x0020
    ||| code == 0x0085
    ||| code == 0x00a0
    ||| code == 0x1680
    ||| 0x2000 <= code <= 0x200a
    ||| code == 0x2028
    ||| code == 0x2029
    ||| code == 0x202f
    ||| code == 0x205f
    ||| code == 0x3000
}

/// A text without its leading whitespace.
pub open spec fn trimmed_start(text: Seq<char>) -> Seq<char>
    decreases text.len(),
{
    if text.len() > 0 && is_whitespace(text[0]) {
        trimmed_start(text.drop_first())
    } else {
        text
    }
}

/// A text without its trailing whitespace.
pub open spec fn trimmed_end(text: Seq<char>) -> Seq<char>
    decreases text.len(),
{
    if text.len() > 0 && is_whitespace(text.last()) {
        trimmed_end(text.drop_last())
    } else {
        text
    }
}

/// A text without its leading and trailing whitespace.
pub open spec fn trimmed(text: Seq<char>) -> Seq<char> {
    trimmed_end(trimmed_start(text))
}

/// Whether `text` holds nothing but whitespace.
pub open spec fn all_whitespace(text: Seq<char>) -> bool {
    forall|i: int| 0 <= i < text.len() ==> is_whitespace(#[trigger] text[i])
}

/// Whether `text` neither begins nor ends with whitespace.
pub open spec fn is_trimmed(text: Seq<char>) -> bool {
    text.len() > 0 ==> !is_whitespace(text[0]) && !is_whitespace(text.last())
}

/// Whether `text` begins with `pattern`.
pub open spec fn starts_with(text: Seq<char>, pattern: Seq<char>) -> bool {
    pattern.len() <= text.len() && text.subrange(0, pattern.len() as int) == pattern
}

/// `text` with every occurrence of `pattern` replaced by `with`.  Occurrences
/// are found from left to right and do not overlap: the search goes on behind
/// the end of the one that was replaced.  An empty pattern occurs nowhere.
pub open spec fn replaced(text: Seq<char>, pattern: Seq<char>, with: Seq<char>) -> Seq<char>
    decreases text.len(),
{
    if pattern.len() == 0 || text.len() == 0 {
        text
    } else if starts_with(text, pattern) {
        with + replaced(text.subrange(pattern.len() as int, text.len() as int), pattern, with)
    } else {
        seq![text[0]] + replaced(text.subrange(1, text.len() as int), pattern, with)
    }
}

/// Calls `String::from_utf8_lossy`.  Trusted: the decoded text depends on the
/// bytes alone, so it is given the name `utf8_lossy`; nothing more is claimed
/// of it.
#[verifier::external_body]
pub(crate) fn decode_lossy(bytes: &[u8]) -> (r: String)
    ensures
        r@ == utf8_lossy(bytes@),
{
    String::from_utf8_lossy(bytes).into_owned()
}

/// Decides whether a character is whitespace.
pub fn is_space(c: char) -> (r: bool)
    ensures
        r == is_whitespace(c),
{
    let code: u32 = c as u32;
    (0x0009 <= code && code <= 0x000d) || code == 0x0020 || code == 0x0085 || code == 0x00a0
        || code == 0x1680 || (0x2000 <= code && code <= 0x200a) || code == 0x2028 || code
        == 0x2029 || code == 0x202f || code == 0x205f || code == 0x3000
}

/// The characters of a text.
fn chars_of(text: &str) -> (chars: Vec<char>)
    ensures
        chars@ == text@,
{
    let mut chars: Vec<char> = Vec::new();
    for c in it: text.chars()
        invariant
            chars@.len() == it.index(),
            forall|j: int| 0 <= j < chars@.len() ==> chars@[j] == it.seq()[j],
            it.seq() == text@,
    {
        chars.push(c);
    }
    assert(chars@ =~= text@);
    chars
}

/// Whether `pattern` stands in `text` at position `at`.
fn occurs_at(text: &Vec<char>, at: usize, pattern: &Vec<char>) -> (found: bool)
    requires
        at <= text@.len(),
    ensures
        found == starts_with(text@.subrange(at as int, text@.len() as int), pattern@),
{
    let rest = text.len() - at;
    if pattern.len() > rest {
        return false;
    }
    let ghost tail = text@.subrange(at as int, text@.len() as int);
    let mut j: usize = 0;
    while j < pattern.len()
        invariant
            j <= pattern@.len() <= rest,
            at + rest == text.len(),
            tail == text@.subrange(at as int, text@.len() as int),
            forall|k: int| 0 <= k < j ==> tail[k] == pattern@[k],
        decreases pattern.len() - j,
    {
        if text[at + j] != pattern[j] {
            assert(tail.subrange(0, pattern@.len() as int)[j as int] != pattern@[j as int]);
            return false;
        }
        j += 1;
    }
    assert(tail.subrange(0, pattern@.len() as int) =~= pattern@);
    true
}

/// Replaces every occurrence of `pattern` in `text` by `with`, from left to
/// right and without overlap.  An empty pattern occurs nowhere.
pub fn replace_all(text: &str, pattern: &str, with: &str) -> (r: String)
    ensures
        r@ == replaced(text@, pattern@, with@),
{
    let chars = chars_of(text);
    let wanted = chars_of(pattern);
    if wanted.len() == 0 {
        return String::from_str(text);
    }
    let mut out = String::new();
    let mut at: usize = 0;
    proof {
        assert(chars@.subrange(0, chars@.len() as int) =~= chars@);
        assert(out@ + replaced(chars@, wanted@, with@) =~= replaced(chars@, wanted@, with@));
    }
    while at < chars.len()
        invariant
            at <= chars@.len(),
            chars@ == text@,
            wanted@ == pattern@,
            wanted@.len() > 0,
            out@ + replaced(chars@.subrange(at as int, chars@.len() as int), wanted@, with@)
                == replaced(chars@, wanted@, with@),
        decreases chars.len() - at,
    {
        let ghost tail = chars@.subrange(at as int, chars@.len() as int);
        let ghost before = out@;
        if occurs_at(&chars, at, &wanted) {
            out.append(with);
            proof {
                assert(tail.subrange(wanted@.len() as int, tail.len() as int) =~= chars@.subrange(
                    at + wanted@.len(),
                    chars@.len() as int,
                ));
                assert(out@ + replaced(
                    chars@.subrange(at + wanted@.len(), chars@.len() as int),
                    wanted@,
                    with@,
                ) =~= before + replaced(tail, wanted@, with@));
            }
            at += wanted.len();
        } else {
            out.append(text.substring_char(at, at + 1));
            proof {
                assert(tail.subrange(1, tail.len() as int) =~= chars@.subrange(
                    at + 1,
                    chars@.len() as int,
                ));
                assert(text@.subrange(at as int, at + 1) =~= seq![tail[0]]);
                assert(out@ + replaced(
                    chars@.subrange(at + 1, chars@.len() as int),
                    wanted@,
                    with@,
                ) =~= before + replaced(tail, wanted@, with@));
            }
            at += 1;
        }
    }
    proof {
        assert(chars@.subrange(at as int, chars@.len() as int) =~= Seq::<char>::empty());
        assert(out@ + Seq::<char>::empty() =~= out@);
    }
    out
}

/// Removes the whitespace at both ends of a text.
pub fn trim(text: &str) -> (r: &str)
    ensures
        r@ == trimmed(text@),
{
    let chars = chars_of(text);
    let mut start: usize = 0;
    assert(chars@.subrange(0, chars@.len() as int) =~= chars@);
    while start < chars.len() && is_space(chars[start])
        invariant
            start <= chars@.len(),
            trimmed_start(chars@.subrange(start as int, chars@.len() as int)) == trimmed_start(
                chars@,
            ),
        decreases chars.len() - start,
    {
        proof {
            let tail = chars@.subrange(start as int, chars@.len() as int);
            assert(tail.drop_first() =~= chars@.subrange(start + 1, chars@.len() as int));
        }
        start += 1;
    }
    let ghost middle = chars@.subrange(start as int, chars@.len() as int);
    assert(trimmed_start(chars@) == middle);
    let mut end: usize = chars.len();
    while end > start && is_space(chars[end - 1])
        invariant
            start <= end <= chars@.len(),
            middle == chars@.subrange(start as int, chars@.len() as int),
            trimmed_end(chars@.subrange(start as int, end as int)) == trimmed_end(middle),
        decreases end - start,
    {
        proof {
            let head = chars@.subrange(start as int, end as int);
            assert(head.drop_last() =~= chars@.subrange(start as int, end - 1));
        }
        end -= 1;
    }
    text.substring_char(start, end)
}

proof fn lemma_leading_whitespace_goes(space: Seq<char>, text: Seq<char>)
    requires
        all_whitespace(space),
    ensures
        trimmed_start(space + text) == trimmed_start(text),
    decreases space.len(),
{
    if space.len() > 0 {
        assert((space + text)[0] == space[0]);
        assert((space + text).drop_first() =~= space.drop_first() + text);
        assert forall|i: int| 0 <= i < space.drop_first().len() implies is_whitespace(
            #[trigger] space.drop_first()[i],
        ) by {
            assert(space.drop_first()[i] == space[i + 1]);
        }
        lemma_leading_whitespace_goes(space.drop_first(), text);
    } else {
        assert(space + text =~= text);
    }
}

proof fn lemma_trailing_whitespace_goes(text: Seq<char>, space: Seq<char>)
    requires
        all_whitespace(space),
    ensures
        trimmed_end(text + space) == trimmed_end(text),
    decreases space.len(),
{
    if space.len() > 0 {
        assert((text + space).last() == space.last());
        assert((text + space).drop_last() =~= text + space.drop_last());
        assert forall|i: int| 0 <= i < space.drop_last().len() implies is_whitespace(
            #[trigger] space.drop_last()[i],
        ) by {
            assert(space.drop_last()[i] == space[i]);
        }
        lemma_trailing_whitespace_goes(text, space.drop_last());
    } else {
        assert(text + space =~= text);
    }
}

/// Trimming removes the whitespace around a text that neither begins nor ends
/// with whitespace, and nothing else.
pub proof fn law_trimming_removes_what_surrounds(
    before: Seq<char>,
    text: Seq<char>,
    after: Seq<char>,
)
    requires
        all_whitespace(before),
        all_whitespace(after),
        is_trimmed(text),
    ensures
        trimmed(before + text + after) == text,
{
    assert(before + text + after =~= before + (text + after));
    lemma_leading_whitespace_goes(before, text + after);
    if text.len() > 0 {
        assert((text + after)[0] == text[0]);
        lemma_trailing_whitespace_goes(text, after);
    } else {
        assert(text + after =~= after + text);
        lemma_leading_whitespace_goes(after, text);
    }
}

} // verus!
