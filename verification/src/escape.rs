//! Escaping of text for HTML.

use vstd::prelude::*;
use crate::text::string_of;

verus! {

/// What stands for one character in HTML text: the entity of `&`, `<`,
/// `>`, `"` or `'`, and every other character itself.
pub open spec fn entity(c: char) -> Seq<char> {
    if c == '&' {
        seq!['&', 'a', 'm', 'p', ';']
    } else if c == '<' {
        seq!['&', 'l', 't', ';']
    } else if c == '>' {
        seq!['&', 'g', 't', ';']
    } else if c == '"' {
        seq!['&', 'q', 'u', 'o', 't', ';']
    } else if c == '\'' {
        seq!['&', '#', 'x', '2', '7', ';']
    } else {
        seq![c]
    }
}

/// The text with each of its characters replaced by what stands for it.
pub open spec fn escaped(s: Seq<char>) -> Seq<char>
    decreases s.len(),
{
    if s.len() == 0 {
        Seq::empty()
    } else {
        escaped(s.drop_last()) + entity(s.last())
    }
}

/// Escapes a text with `html_escape::encode_quoted_attribute`, which
/// replaces every `&` by `&amp;`, every `<` by `&lt;`, every `>` by `&gt;`,
/// every `"` by `&quot;` and every `'` by `&#x27;`, and copies all other
/// characters unchanged.
#[verifier::external_body]
pub(crate) fn encode_quoted(text: &str) -> (r: String)
    ensures
        r@ == escaped(text@),
{
    html_escape::encode_quoted_attribute(text).into_owned()
}

/// The escaped form of `src[from..to]`.
pub fn escape_range(src: &[char], from: usize, to: usize) -> (r: String)
    requires
        from <= to <= src@.len(),
    ensures
        r@ == escaped(src@.subrange(from as int, to as int)),
{
    let raw = string_of(src, from, to);
    encode_quoted(raw.as_str())
}

/// An `&` at index `i` of `h` starts one of the five entities.
pub open spec fn starts_entity(h: Seq<char>, i: int) -> bool {
    ||| i + 5 <= h.len() && h[i + 1] == 'a' && h[i + 2] == 'm' && h[i + 3] == 'p' && h[i + 4]
        == ';'
    ||| i + 4 <= h.len() && (h[i + 1] == 'l' || h[i + 1] == 'g') && h[i + 2] == 't' && h[i + 3]
        == ';'
    ||| i + 6 <= h.len() && h[i + 1] == 'q' && h[i + 2] == 'u' && h[i + 3] == 'o' && h[i + 4]
        == 't' && h[i + 5] == ';'
    ||| i + 6 <= h.len() && h[i + 1] == '#' && h[i + 2] == 'x' && h[i + 3] == '2' && h[i + 4]
        == '7' && h[i + 5] == ';'
}

/// A character that HTML reserves and that is no `&`: an angle bracket or a quote.
pub open spec fn is_reserved(c: char) -> bool {
    c == '<' || c == '>' || c == '"' || c == '\''
}

/// No character of `h` is an angle bracket or a quote, and every `&` in it
/// starts an entity.
pub open spec fn is_safe(h: Seq<char>) -> bool {
    forall|i: int|
        0 <= i < h.len() ==> !is_reserved(#[trigger] h[i]) && (h[i] == '&' ==> starts_entity(h, i))
}

/// Escaping is complete: whatever the text holds, its escaped form holds no
/// angle bracket and no quote, and an `&` only at the start of `&amp;`,
/// `&lt;`, `&gt;`, `&quot;` or `&#x27;`.
pub proof fn lemma_escaped_is_safe(s: Seq<char>)
    ensures
        is_safe(escaped(s)),
    decreases s.len(),
{
    if s.len() > 0 {
        let head = escaped(s.drop_last());
        let tail = entity(s.last());
        let h = escaped(s);
        lemma_escaped_is_safe(s.drop_last());
        assert forall|i: int| 0 <= i < h.len() implies !is_reserved(#[trigger] h[i]) && (h[i]
            == '&' ==> starts_entity(h, i)) by {
            if i < head.len() {
                assert(h[i] == head[i]);
                if h[i] == '&' {
                    assert(starts_entity(head, i));
                    assert(h[i + 1] == head[i + 1]);
                    assert(h[i + 2] == head[i + 2]);
                    assert(h[i + 3] == head[i + 3]);
                    if i + 5 <= head.len() {
                        assert(h[i + 4] == head[i + 4]);
                    }
                    if i + 6 <= head.len() {
                        assert(h[i + 5] == head[i + 5]);
                    }
                }
            } else {
                let k = i - head.len();
                assert(h[i] == tail[k]);
                if h[i] == '&' {
                    assert(k == 0);
                    assert(h[i + 1] == tail[1]);
                    assert(h[i + 2] == tail[2]);
                    assert(h[i + 3] == tail[3]);
                    if tail.len() >= 5 {
                        assert(h[i + 4] == tail[4]);
                    }
                    if tail.len() >= 6 {
                        assert(h[i + 5] == tail[5]);
                    }
                }
            }
        }
    }
}

/// Escaping works character by character: the escaped form of two texts
/// joined is the two escaped forms joined.
pub proof fn lemma_escaped_concat(a: Seq<char>, b: Seq<char>)
    ensures
        escaped(a + b) == escaped(a) + escaped(b),
    decreases b.len(),
{
    if b.len() == 0 {
        assert(a + b =~= a);
        assert(escaped(a) + escaped(b) =~= escaped(a));
    } else {
        assert((a + b).drop_last() =~= a + b.drop_last());
        lemma_escaped_concat(a, b.drop_last());
        assert(escaped(a + b) =~= escaped(a) + escaped(b));
    }
}

} // verus!
