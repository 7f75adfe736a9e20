//! Splitting text into words at runs of Unicode whitespace.

use vstd::prelude::*;

verus! {

/// The Unicode `White_Space` property, which `char::is_whitespace` tests.
pub open spec fn is_white_space(c: char) -> bool {
    let u = c as u32;
    (0x9 <= u <= 0xd) || u == 0x20 || u == 0x85 || u == 0xa0 || u == 0x1680 || (0x2000 <= u
        <= 0x200a) || u == 0x2028 || u == 0x2029 || u == 0x202f || u == 0x205f || u == 0x3000
}

/// The words completed and the word still open after reading `s` from the left.
pub open spec fn scan(s: Seq<char>) -> (Seq<Seq<char>>, Seq<char>)
    decreases s.len(),
{
    if s.len() == 0 {
        (seq![], seq![])
    } else {
        let (done, open) = scan(s.drop_last());
        let c = s.last();
        if !is_white_space(c) {
            (done, open.push(c))
        } else if open.len() == 0 {
            (done, open)
        } else {
            (done.push(open), seq![])
        }
    }
}

/// The words of `s`: its maximal runs of non-whitespace characters, in order.
pub open spec fn words(s: Seq<char>) -> Seq<Seq<char>> {
    let (done, open) = scan(s);
    if open.len() == 0 {
        done
    } else {
        done.push(open)
    }
}

/// A word is non-empty and holds no whitespace.
pub open spec fn is_word(w: Seq<char>) -> bool {
    w.len() > 0 && forall|j: int| 0 <= j < w.len() ==> !is_white_space(#[trigger] w[j])
}

/// The character sequences of a sequence of strings.
pub open spec fn texts(v: Seq<String>) -> Seq<Seq<char>> {
    v.map_values(|s: String| s@)
}

proof fn lemma_scan_clean(s: Seq<char>)
    ensures
        forall|i: int| 0 <= i < scan(s).0.len() ==> is_word(#[trigger] scan(s).0[i]),
        forall|j: int| 0 <= j < scan(s).1.len() ==> !is_white_space(#[trigger] scan(s).1[j]),
    decreases s.len(),
{
    if s.len() > 0 {
        lemma_scan_clean(s.drop_last());
        let (done, open) = scan(s.drop_last());
        let c = s.last();
        if !is_white_space(c) {
            assert forall|j: int| 0 <= j < open.push(c).len() implies !is_white_space(
                #[trigger] open.push(c)[j],
            ) by {
                if j < open.len() {
                    assert(open.push(c)[j] == open[j]);
                }
            }
        } else if open.len() > 0 {
            assert forall|i: int| 0 <= i < done.push(open).len() implies is_word(
                #[trigger] done.push(open)[i],
            ) by {
                if i < done.len() {
                    assert(done.push(open)[i] == done[i]);
                }
            }
        }
    }
}

/// Every word of a text is non-empty and free of whitespace.
pub proof fn lemma_words_are_clean(s: Seq<char>)
    ensures
        forall|i: int| 0 <= i < words(s).len() ==> is_word(#[trigger] words(s)[i]),
{
    lemma_scan_clean(s);
}

/// Tests `char::is_whitespace`'s property on `c`.
pub fn is_white_space_char(c: char) -> (r: bool)
    ensures
        r == is_white_space(c),
{
    let u = c as u32;
    (0x9 <= u && u <= 0xd) || u == 0x20 || u == 0x85 || u == 0xa0 || u == 0x1680 || (0x2000 <= u
        && u <= 0x200a) || u == 0x2028 || u == 0x2029 || u == 0x202f || u == 0x205f || u == 0x3000
}

/// Relies on `String::push`: appends one character.
#[verifier::external_body]
fn push_char(s: &mut String, c: char)
    ensures
        final(s)@ == old(s)@.push(c),
{
    s.push(c)
}

/// Appends to `out` the words of `text`, in order.
pub fn push_words(text: &str, out: &mut Vec<String>)
    ensures
        texts(final(out)@) == texts(old(out)@) + words(text@),
{
    let ghost start = texts(out@);
    let mut open = String::new();
    for c in it: text.chars()
        invariant
            it.seq() == text@,
            texts(out@) == start + scan(text@.take(it.index() as int)).0,
            open@ == scan(text@.take(it.index() as int)).1,
    {
        let ghost before = text@.take(it.index() as int);
        assert(text@.take(it.index() + 1).drop_last() == before);
        if !is_white_space_char(c) {
            push_char(&mut open, c);
        } else if !open.as_str().is_empty() {
            let ghost w = open@;
            let ghost prev = out@;
            out.push(open);
            open = String::new();
            assert(texts(out@) =~= texts(prev).push(w));
            assert(texts(out@) =~= start + scan(before).0.push(w));
        }
    }
    assert(text@.take(text@.len() as int) == text@);
    if !open.as_str().is_empty() {
        let ghost w = open@;
        let ghost prev = out@;
        out.push(open);
        assert(texts(out@) =~= texts(prev).push(w));
        assert(texts(out@) =~= start + scan(text@).0.push(w));
    } else {
        assert(open@.len() == 0);
    }
}

} // verus!
