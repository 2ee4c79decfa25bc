//! Copy-on-write text: a value that stays borrowed while it is only read,
//! and becomes an owned copy the one time its content has to change.
use std::borrow::Cow;
use vstd::prelude::*;

verus! {

/// `p` is an initial segment of `s`.
pub open spec fn has_prefix(s: Seq<char>, p: Seq<char>) -> bool {
    p.len() <= s.len() && s.subrange(0, p.len() as int) == p
}

/// The text set between a prepended prefix and the original content.
pub open spec fn separator() -> Seq<char> {
    seq![',', ' ']
}

/// The content that `ensure_prefix` gives for content `s` and prefix `p`.
pub open spec fn prefixed(s: Seq<char>, p: Seq<char>) -> Seq<char> {
    if has_prefix(s, p) {
        s
    } else {
        p + separator() + s
    }
}

/// The prefix that `ensure_hello` asks for.
pub open spec fn greeting() -> Seq<char> {
    seq!['h', 'e', 'l', 'l', 'o']
}

/// Reads the content of a value, whichever state it is in.
pub fn as_text<'b>(value: &'b Cow<'_, str>) -> (r: &'b str)
    ensures
        r@ == value@,
{
    match value {
        Cow::Borrowed(b) => b,
        Cow::Owned(o) => o.as_str(),
    }
}

/// Whether the content of `s` begins with the content of `p`.
pub fn starts_with(s: &str, p: &str) -> (r: bool)
    ensures
        r == has_prefix(s@, p@),
{
    let s_len = s.unicode_len();
    let p_len = p.unicode_len();
    if p_len > s_len {
        return false;
    }
    let mut i: usize = 0;
    while i < p_len
        invariant
            p_len == p@.len(),
            s_len == s@.len(),
            p_len <= s_len,
            i <= p_len,
            forall|j: int| 0 <= j < i ==> s@[j] == p@[j],
        decreases p_len - i,
    {
        if s.get_char(i) != p.get_char(i) {
            assert(s@.subrange(0, p@.len() as int)[i as int] != p@[i as int]);
            return false;
        }
        i += 1;
    }
    assert(s@.subrange(0, p@.len() as int) =~= p@);
    true
}

/// Returns `input` itself when its content already begins with `prefix`;
/// otherwise a new owned value holding `prefix`, a comma and a space, and the
/// content of `input`. The input's storage is never written.
pub fn ensure_prefix<'a>(input: Cow<'a, str>, prefix: &str) -> (r: Cow<'a, str>)
    ensures
        has_prefix(input@, prefix@) ==> r == input,
        !has_prefix(input@, prefix@) ==> r is Owned && r@ == prefix@ + separator() + input@,
        r@ == prefixed(input@, prefix@),
{
    if starts_with(as_text(&input), prefix) {
        input
    } else {
        let sep = ", ";
        proof {
            reveal_strlit(", ");
            assert(sep@ =~= separator());
        }
        let mut text = String::from_str(prefix);
        text.append(sep);
        text.append(as_text(&input));
        Cow::Owned(text)
    }
}

/// `ensure_prefix` with the prefix `"hello"`.
pub fn ensure_hello<'a>(input: Cow<'a, str>) -> (r: Cow<'a, str>)
    ensures
        has_prefix(input@, greeting()) ==> r == input,
        !has_prefix(input@, greeting()) ==> r is Owned && r@ == greeting() + separator() + input@,
        r@ == prefixed(input@, greeting()),
{
    let hello = "hello";
    proof {
        reveal_strlit("hello");
        assert(hello@ =~= greeting());
    }
    ensure_prefix(input, hello)
}

/// Prefixing is idempotent: the result already begins with the prefix, so a
/// second application leaves the content as it is.
pub proof fn lemma_prefixed_idempotent(s: Seq<char>, p: Seq<char>)
    ensures
        has_prefix(prefixed(s, p), p),
        prefixed(prefixed(s, p), p) == prefixed(s, p),
{
    if !has_prefix(s, p) {
        assert((p + separator() + s).subrange(0, p.len() as int) =~= p);
    }
}

} // verus!
