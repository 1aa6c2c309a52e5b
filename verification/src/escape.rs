//! Writing the five special characters of HTML as entities.

use vstd::prelude::*;
use vstd::string::StringExecFns;

verus! {

/// `String::push` of std, which vstd leaves without a contract. Claimed, and
/// not proved: after the call the text is what it was with `c` as one more
/// character at its end.
pub assume_specification[ String::push ](text: &mut String, c: char)
    ensures
        final(text)@ == old(text)@.push(c),
;

/// Whether `c` is one of the five characters that HTML gives a meaning to.
pub open spec fn is_special(c: char) -> bool {
    c == '&' || c == '<' || c == '>' || c == '"' || c == '\''
}

/// The text that stands for `c` in escaped HTML: an entity for each of the
/// five special characters, and `c` itself for every other character.
pub open spec fn entity_of(c: char) -> Seq<char> {
    if c == '&' {
        seq!['&', 'a', 'm', 'p', ';']
    } else if c == '<' {
        seq!['&', 'l', 't', ';']
    } else if c == '>' {
        seq!['&', 'g', 't', ';']
    } else if c == '"' {
        seq!['&', 'q', 'u', 'o', 't', ';']
    } else if c == '\'' {
        seq!['&', '#', '3', '9', ';']
    } else {
        seq![c]
    }
}

/// The escaped form of `text`: each character replaced by what stands for it,
/// from left to right.
pub open spec fn escaped(text: Seq<char>) -> Seq<char>
    decreases text.len(),
{
    if text.len() == 0 {
        Seq::empty()
    } else {
        entity_of(text[0]) + escaped(text.drop_first())
    }
}

/// Appends to `out` what stands for `c` in escaped HTML.
fn push_escaped(out: &mut String, c: char)
    ensures
        final(out)@ == old(out)@ + entity_of(c),
{
    proof {
        reveal_strlit("&amp;");
        reveal_strlit("&lt;");
        reveal_strlit("&gt;");
        reveal_strlit("&quot;");
        reveal_strlit("&#39;");
    }
    if c == '&' {
        out.append("&amp;");
    } else if c == '<' {
        out.append("&lt;");
    } else if c == '>' {
        out.append("&gt;");
    } else if c == '"' {
        out.append("&quot;");
    } else if c == '\'' {
        out.append("&#39;");
    } else {
        out.push(c);
    }
}

/// A text without any of the five special characters is its own escaped
/// form.
pub proof fn lemma_escaped_unchanged(text: Seq<char>)
    requires
        forall|i: int| 0 <= i < text.len() ==> !is_special(text[i]),
    ensures
        escaped(text) == text,
    decreases text.len(),
{
    if text.len() > 0 {
        lemma_escaped_unchanged(text.drop_first());
        assert(seq![text[0]] + text.drop_first() =~= text);
    } else {
        assert(escaped(text) =~= text);
    }
}

/// Converts the characters `&`, `<`, `>`, `"` and `'` in `value` to their
/// HTML entities and leaves every other character as it is.
pub fn escape(value: &str) -> (result: String)
    ensures
        result@ == escaped(value@),
        (forall|i: int| 0 <= i < value@.len() ==> !is_special(value@[i])) ==> result@ == value@,
{
    proof {
        if forall|i: int| 0 <= i < value@.len() ==> !is_special(value@[i]) {
            lemma_escaped_unchanged(value@);
        }
    }
    let mut result = String::new();
    assert(result@ + escaped(value@.skip(0)) =~= escaped(value@)) by {
        assert(value@.skip(0) =~= value@);
    }
    for c in it: value.chars()
        invariant
            it.seq() == value@,
            escaped(value@) == result@ + escaped(value@.skip(it.index() as int)),
    {
        assert(value@.skip(it.index() as int).drop_first() =~= value@.skip(it.index() + 1));
        push_escaped(&mut result, c);
    }
    result
}

/// Escaping as a method of the text itself.
pub trait Escape<S: ?Sized>: View<V = Seq<char>> {
    /// Converts the characters `&`, `<`, `>`, `"` and `'` in this text to
    /// their HTML entities and leaves every other character as it is.
    fn escape(&self) -> (result: String)
        ensures
            result@ == escaped(self@),
    ;
}

impl Escape<String> for String {
    fn escape(&self) -> (result: String) {
        escape(self.as_str())
    }
}

impl Escape<str> for str {
    fn escape(&self) -> (result: String) {
        escape(self)
    }
}

} // verus!
