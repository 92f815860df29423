//! Home-directory placeholder expansion.

use vstd::prelude::*;

verus! {

/// The character that stands for the home directory in patterns and paths.
pub open spec fn placeholder() -> char {
    '~'
}

/// `text` with every occurrence of `from` replaced by `to`.
pub open spec fn substitute(text: Seq<char>, from: char, to: Seq<char>) -> Seq<char>
    decreases text.len(),
{
    if text.len() == 0 {
        Seq::empty()
    } else if text.last() == from {
        substitute(text.drop_last(), from, to) + to
    } else {
        substitute(text.drop_last(), from, to).push(text.last())
    }
}

/// `text` with every placeholder replaced by `home`.
pub open spec fn expand(text: Seq<char>, home: Seq<char>) -> Seq<char> {
    substitute(text, placeholder(), home)
}

/// Substitution works position by position: it distributes over concatenation.
pub proof fn lemma_substitute_concat(a: Seq<char>, b: Seq<char>, from: char, to: Seq<char>)
    ensures
        substitute(a + b, from, to) == substitute(a, from, to) + substitute(b, from, to),
    decreases b.len(),
{
    if b.len() == 0 {
        assert(a + b =~= a);
        assert(substitute(a, from, to) + substitute(b, from, to) =~= substitute(a, from, to));
    } else {
        let front = b.drop_last();
        assert((a + b).drop_last() =~= a + front);
        assert((a + b).last() == b.last());
        lemma_substitute_concat(a, front, from, to);
        if b.last() == from {
            assert((substitute(a, from, to) + substitute(front, from, to)) + to =~= substitute(
                a,
                from,
                to,
            ) + (substitute(front, from, to) + to));
        } else {
            assert((substitute(a, from, to) + substitute(front, from, to)).push(b.last())
                =~= substitute(a, from, to) + substitute(front, from, to).push(b.last()));
        }
    }
}

/// Every placeholder is replaced, wherever it stands and however many there
/// are: around any one placeholder the text before it and the text after it
/// are expanded too.
pub proof fn lemma_expand_replaces_every_placeholder(
    before: Seq<char>,
    after: Seq<char>,
    home: Seq<char>,
)
    ensures
        expand(before + seq![placeholder()] + after, home) == expand(before, home) + home + expand(
            after,
            home,
        ),
{
    let one = seq![placeholder()];
    lemma_substitute_concat(before + one, after, placeholder(), home);
    lemma_substitute_concat(before, one, placeholder(), home);
    assert(substitute(one, placeholder(), home) == home) by {
        assert(one.drop_last() =~= Seq::<char>::empty());
        assert(substitute(one.drop_last(), placeholder(), home) =~= Seq::<char>::empty());
        assert(Seq::<char>::empty() + home =~= home);
    }
}

/// Text without a placeholder is left as it is.
pub proof fn lemma_expand_keeps_plain_text(text: Seq<char>, home: Seq<char>)
    requires
        !text.contains(placeholder()),
    ensures
        expand(text, home) == text,
    decreases text.len(),
{
    if text.len() > 0 {
        let front = text.drop_last();
        assert(text.contains(text.last()));
        assert forall|c: char| front.contains(c) implies text.contains(c) by {
            let i = choose|i: int| 0 <= i < front.len() && front[i] == c;
            assert(text[i] == c);
        }
        lemma_expand_keeps_plain_text(front, home);
        assert(front.push(text.last()) =~= text);
    } else {
        assert(text =~= Seq::<char>::empty());
    }
}

/// No placeholder survives expansion, unless the home directory itself
/// holds one.
pub proof fn lemma_expand_leaves_no_placeholder(text: Seq<char>, home: Seq<char>)
    requires
        !home.contains(placeholder()),
    ensures
        !expand(text, home).contains(placeholder()),
    decreases text.len(),
{
    if text.len() > 0 {
        let front = expand(text.drop_last(), home);
        lemma_expand_leaves_no_placeholder(text.drop_last(), home);
        let whole = expand(text, home);
        if whole.contains(placeholder()) {
            let i = choose|i: int| 0 <= i < whole.len() && whole[i] == placeholder();
            if i < front.len() {
                assert(front[i] == placeholder());
                assert(front.contains(placeholder()));
            } else if text.last() == placeholder() {
                assert(home[i - front.len()] == placeholder());
                assert(home.contains(placeholder()));
            }
        }
    }
}

/// Expanding twice gives what expanding once gives, unless the home directory
/// itself holds a placeholder.
pub proof fn lemma_expand_idempotent(text: Seq<char>, home: Seq<char>)
    requires
        !home.contains(placeholder()),
    ensures
        expand(expand(text, home), home) == expand(text, home),
{
    lemma_expand_leaves_no_placeholder(text, home);
    lemma_expand_keeps_plain_text(expand(text, home), home);
}

/// Calls `str::replace` with a pattern of exactly one character. The standard
/// library documents that every match of the pattern is replaced; matches of a
/// one-character pattern are the occurrences of that character, so the result
/// is the position-wise substitution.
#[verifier::external_body]
fn replace_char(text: &str, from: &str, to: &str) -> (r: String)
    requires
        from@.len() == 1,
    ensures
        r@ == substitute(text@, from@[0], to@),
{
    text.replace(from, to)
}

/// Replaces every placeholder in `text` by `home`.
pub fn expand_home(text: &str, home: &str) -> (r: String)
    ensures
        r@ == expand(text@, home@),
{
    proof {
        reveal_strlit("~");
    }
    replace_char(text, "~", home)
}

} // verus!
