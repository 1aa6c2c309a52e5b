//! Reading the entities of the five special characters of HTML back.

use vstd::prelude::*;
use crate::escape::{entity_of, escaped, is_special};

verus! {

/// The number of `0` characters that `text` begins with.
pub open spec fn leading_zeros(text: Seq<char>) -> nat
    decreases text.len(),
{
    if text.len() > 0 && text[0] == '0' {
        1 + leading_zeros(text.drop_first())
    } else {
        0
    }
}

/// Whether `text` begins with a numeric reference to the apostrophe: `&#`,
/// any number of `0`, then `39;`.
pub open spec fn begins_with_apostrophe_reference(text: Seq<char>) -> bool {
    &&& seq!['&', '#'].is_prefix_of(text)
    &&& seq!['3', '9', ';'].is_prefix_of(text.skip(2 + leading_zeros(text.skip(2)) as int))
}

/// The entity that `text` begins with, as the character it stands for and the
/// number of characters it takes, or `None` where `text` begins with none.
pub open spec fn entity_at(text: Seq<char>) -> Option<(char, nat)> {
    if entity_of('&').is_prefix_of(text) {
        Some(('&', 5))
    } else if entity_of('<').is_prefix_of(text) {
        Some(('<', 4))
    } else if entity_of('>').is_prefix_of(text) {
        Some(('>', 4))
    } else if entity_of('"').is_prefix_of(text) {
        Some(('"', 6))
    } else if begins_with_apostrophe_reference(text) {
        Some(('\'', 5 + leading_zeros(text.skip(2))))
    } else {
        None
    }
}

/// The unescaped form of `text`, read once from left to right: where an
/// entity begins, the character it stands for, and the reading goes on
/// behind the entity; elsewhere the character that is there.
pub open spec fn unescaped(text: Seq<char>) -> Seq<char>
    decreases text.len(),
    via unescaped_terminates
{
    if text.len() == 0 {
        Seq::empty()
    } else {
        match entity_at(text) {
            Some((c, n)) => seq![c] + unescaped(text.skip(n as int)),
            None => seq![text[0]] + unescaped(text.drop_first()),
        }
    }
}

/// A text begins with no more zeros than it has characters.
pub proof fn lemma_leading_zeros_bound(text: Seq<char>)
    ensures
        leading_zeros(text) <= text.len(),
    decreases text.len(),
{
    if text.len() > 0 && text[0] == '0' {
        lemma_leading_zeros_bound(text.drop_first());
    }
}

/// An entity takes at least four characters and no more than the text has.
pub proof fn lemma_entity_length(text: Seq<char>)
    ensures
        match entity_at(text) {
            Some((c, n)) => 4 <= n <= text.len(),
            None => true,
        },
{
    if begins_with_apostrophe_reference(text) {
        lemma_leading_zeros_bound(text.skip(2));
    }
}

#[via_fn]
proof fn unescaped_terminates(text: Seq<char>) {
    lemma_entity_length(text);
}

/// The characters of `text`, in order.
fn chars_of(text: &str) -> (chars: Vec<char>)
    ensures
        chars@ == text@,
{
    let mut chars: Vec<char> = Vec::new();
    for c in it: text.chars()
        invariant
            it.seq() == text@,
            chars@ == text@.take(it.index() as int),
    {
        assert(text@.take(it.index() + 1) =~= text@.take(it.index() as int).push(c));
        chars.push(c);
    }
    assert(text@.take(text@.len() as int) =~= text@);
    chars
}

/// Whether `pattern` stands in `text` from index `at` on.
fn begins_with(text: &[char], at: usize, pattern: &[char]) -> (found: bool)
    requires
        at <= text.len(),
    ensures
        found == pattern@.is_prefix_of(text@.skip(at as int)),
{
    if pattern.len() > text.len() - at {
        return false;
    }
    let mut k: usize = 0;
    while k < pattern.len()
        invariant
            at <= text.len(),
            pattern.len() <= text.len() - at,
            k <= pattern.len(),
            forall|j: int| 0 <= j < k ==> pattern@[j] == text@[at + j],
        decreases pattern.len() - k,
    {
        if pattern[k] != text[at + k] {
            assert(text@.skip(at as int).subrange(0, pattern@.len() as int)[k as int] == text@[at
                + k]);
            return false;
        }
        k += 1;
    }
    assert(pattern@ =~= text@.skip(at as int).subrange(0, pattern@.len() as int));
    true
}

/// The number of `0` characters that stand in `text` from index `at` on.
fn count_zeros(text: &[char], at: usize) -> (zeros: usize)
    requires
        at <= text.len(),
    ensures
        zeros == leading_zeros(text@.skip(at as int)),
        at + zeros <= text.len(),
{
    let mut end: usize = at;
    while end < text.len() && text[end] == '0'
        invariant
            at <= end <= text.len(),
            leading_zeros(text@.skip(at as int)) == (end - at) + leading_zeros(
                text@.skip(end as int),
            ),
        decreases text.len() - end,
    {
        assert(text@.skip(end as int).drop_first() =~= text@.skip(end + 1));
        end += 1;
    }
    end - at
}

/// The entity that stands in `text` at index `at`, as the character it stands
/// for and the number of characters it takes.
fn entity_from(text: &[char], at: usize) -> (found: Option<(char, usize)>)
    requires
        at <= text.len(),
    ensures
        match found {
            Some((c, n)) => entity_at(text@.skip(at as int)) == Some((c, n as nat)),
            None => entity_at(text@.skip(at as int)) is None,
        },
{
    let ghost rest = text@.skip(at as int);
    if begins_with(text, at, &['&', 'a', 'm', 'p', ';']) {
        Some(('&', 5))
    } else if begins_with(text, at, &['&', 'l', 't', ';']) {
        Some(('<', 4))
    } else if begins_with(text, at, &['&', 'g', 't', ';']) {
        Some(('>', 4))
    } else if begins_with(text, at, &['&', 'q', 'u', 'o', 't', ';']) {
        Some(('"', 6))
    } else if begins_with(text, at, &['&', '#']) {
        let zeros: usize = count_zeros(text, at + 2);
        assert(rest.skip(2) =~= text@.skip(at + 2));
        assert(rest.skip(2 + zeros) =~= text@.skip(at + 2 + zeros));
        if begins_with(text, at + 2 + zeros, &['3', '9', ';']) {
            Some(('\'', 5 + zeros))
        } else {
            None
        }
    } else {
        None
    }
}

/// A text in which no entity begins anywhere is its own unescaped form.
pub proof fn lemma_unescaped_unchanged(text: Seq<char>)
    requires
        forall|i: int| 0 <= i < text.len() ==> entity_at(text.skip(i)) is None,
    ensures
        unescaped(text) == text,
    decreases text.len(),
{
    if text.len() > 0 {
        let rest = text.drop_first();
        assert(text.skip(0) =~= text);
        assert forall|i: int| 0 <= i < rest.len() implies entity_at(rest.skip(i)) is None by {
            assert(rest.skip(i) =~= text.skip(i + 1));
        }
        lemma_unescaped_unchanged(rest);
        assert(seq![text[0]] + rest =~= text);
    } else {
        assert(unescaped(text) =~= text);
    }
}

/// Converts the entities `&amp;`, `&lt;`, `&gt;`, `&quot;` and `&#39;` in
/// `value`, the last with any number of zeros before the `39`, to the
/// characters they stand for, in one reading from left to right. Nothing else
/// is changed.
pub fn unescape(value: &str) -> (result: String)
    ensures
        result@ == unescaped(value@),
        (forall|i: int| 0 <= i < value@.len() ==> entity_at(value@.skip(i)) is None) ==> result@
            == value@,
{
    proof {
        if forall|i: int| 0 <= i < value@.len() ==> entity_at(value@.skip(i)) is None {
            lemma_unescaped_unchanged(value@);
        }
    }
    let chars = chars_of(value);
    let mut result = String::new();
    let mut at: usize = 0;
    assert(value@.skip(0) =~= value@);
    while at < chars.len()
        invariant
            chars@ == value@,
            at <= chars.len(),
            unescaped(value@) == result@ + unescaped(value@.skip(at as int)),
        decreases chars.len() - at,
    {
        let ghost rest = value@.skip(at as int);
        proof {
            lemma_entity_length(rest);
        }
        match entity_from(chars.as_slice(), at) {
            Some((c, n)) => {
                assert(rest.skip(n as int) =~= value@.skip(at + n));
                result.push(c);
                at += n;
            },
            None => {
                assert(rest.drop_first() =~= value@.skip(at + 1));
                result.push(chars[at]);
                at += 1;
            },
        }
    }
    result
}

/// Unescaping as a method of the text itself.
pub trait Unescape<S: ?Sized>: View<V = Seq<char>> {
    /// Converts the entities `&amp;`, `&lt;`, `&gt;`, `&quot;` and `&#39;` in
    /// this text to the characters they stand for.
    fn unescape(&self) -> (result: String)
        ensures
            result@ == unescaped(self@),
    ;
}

impl Unescape<String> for String {
    fn unescape(&self) -> (result: String) {
        unescape(self.as_str())
    }
}

impl Unescape<str> for str {
    fn unescape(&self) -> (result: String) {
        unescape(self)
    }
}

/// Unescaping undoes escaping: for every text, the unescaped form of its
/// escaped form is the text itself.
pub proof fn lemma_unescape_inverts_escape(text: Seq<char>)
    ensures
        unescaped(escaped(text)) == text,
    decreases text.len(),
{
    if text.len() > 0 {
        let c = text[0];
        let rest = text.drop_first();
        let written = escaped(text);
        lemma_unescape_inverts_escape(rest);
        assert(written == entity_of(c) + escaped(rest));
        if is_special(c) {
            let n = entity_of(c).len();
            assert(entity_of(c) =~= written.subrange(0, n as int));
            assert(written.skip(n as int) =~= escaped(rest));
            if c == '\'' {
                assert(seq!['&', '#'] =~= written.subrange(0, 2));
                assert(written.skip(2)[0] == '3');
                assert(leading_zeros(written.skip(2)) == 0);
                assert(seq!['3', '9', ';'] =~= written.skip(2).subrange(0, 3));
            }
            assert(entity_at(written) == Some((c, n)));
            assert(seq![c] + rest =~= text);
        } else {
            assert(written[0] == c);
            assert(entity_at(written) is None);
            assert(written.drop_first() =~= escaped(rest));
            assert(seq![c] + rest =~= text);
        }
    } else {
        assert(unescaped(escaped(text)) =~= text);
    }
}

} // verus!
