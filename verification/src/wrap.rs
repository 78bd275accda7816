//! A stateless greedy word-wrapper for plain text, independent of the
//! buffer: whitespace-delimited words are re-joined with single spaces and
//! packed onto lines of at most the given width.

use crate::push_char;
use vstd::prelude::*;
use vstd::string::{StrSliceExecFns, StringExecFns};

verus! {

/// Whether a character has the Unicode whitespace property.
pub uninterp spec fn is_unicode_whitespace(c: char) -> bool;

/// Relies on `char::is_whitespace`: whether the character has the Unicode
/// whitespace property. The result depends on the character alone; a space
/// and a newline are whitespace.
#[verifier::external_body]
fn is_whitespace_char(c: char) -> (r: bool)
    ensures
        r == is_unicode_whitespace(c),
        c == ' ' ==> r,
        c == '\n' ==> r,
{
    c.is_whitespace()
}

/// Relies on `String::pop`: removes the last character of a nonempty string.
#[verifier::external_body]
fn pop_char(s: &mut String) -> (r: Option<char>)
    requires
        old(s)@.len() > 0,
    ensures
        final(s)@ == old(s)@.drop_last(),
        r == Some(old(s)@.last()),
{
    s.pop()
}

/// The whitespace-delimited words of a text from position `i` on, in order,
/// with `cur` the word accumulated so far: whitespace closes the pending
/// word, any other character extends it.
pub open spec fn split_words(s: Seq<char>, i: int, cur: Seq<char>) -> Seq<Seq<char>>
    decreases s.len() - i,
{
    if i < 0 || i >= s.len() {
        if cur.len() > 0 {
            seq![cur]
        } else {
            Seq::empty()
        }
    } else if is_unicode_whitespace(s[i]) {
        if cur.len() > 0 {
            seq![cur] + split_words(s, i + 1, Seq::empty())
        } else {
            split_words(s, i + 1, Seq::empty())
        }
    } else {
        split_words(s, i + 1, cur.push(s[i]))
    }
}

/// The whitespace-delimited words of a text.
pub open spec fn words_of(s: Seq<char>) -> Seq<Seq<char>> {
    split_words(s, 0, Seq::empty())
}

/// The greedy packing of the words from index `k` on: a word that fits the
/// budget together with the running line width is appended with a trailing
/// space; one that does not starts a new line. `width` counts the characters
/// placed on the current line, each word with its following space.
pub open spec fn wrap_words(
    ws: Seq<Seq<char>>,
    k: int,
    budget: int,
    width: int,
    acc: Seq<char>,
) -> Seq<char>
    decreases ws.len() - k,
{
    if k < 0 || k >= ws.len() {
        acc
    } else {
        let word = ws[k];
        if width + word.len() <= budget {
            wrap_words(ws, k + 1, budget, width + word.len() + 1, acc + word + seq![' '])
        } else {
            wrap_words(ws, k + 1, budget, word.len() + 1 as int, acc + seq!['\n'] + word + seq![' '])
        }
    }
}

/// The wrapped text: the words packed greedily, with the one trailing space
/// dropped.
pub open spec fn wrap_view(s: Seq<char>, budget: int) -> Seq<char> {
    let body = wrap_words(words_of(s), 0, budget, 0, Seq::empty());
    if body.len() > 0 {
        body.drop_last()
    } else {
        body
    }
}

/// Wraps plain text greedily to the given width: whitespace-delimited words
/// are accumulated onto a line while they fit, re-joined with single spaces,
/// and a word that does not fit starts a new line. The two bounds asked of
/// the caller only keep the width arithmetic within the machine's integers.
pub fn prettify_text(input: String, window_width: usize) -> (r: Option<String>)
    requires
        input@.len() < usize::MAX,
        window_width < usize::MAX,
    ensures
        r is Some,
        r->0@ == wrap_view(input@, window_width as int),
{
    let s = input.as_str();
    let n = s.unicode_len();
    let mut words: Vec<Vec<char>> = Vec::new();
    let mut cur: Vec<char> = Vec::new();
    let mut i: usize = 0;
    while i < n
        invariant
            n == input@.len(),
            s@ == input@,
            i <= n,
            cur@.len() <= i,
            forall|w: int| 0 <= w < words@.len() ==> (#[trigger] words@[w])@.len() <= n,
            words_of(input@) == words@.map_values(|v: Vec<char>| v@) + split_words(
                input@,
                i as int,
                cur@,
            ),
        decreases n - i,
    {
        let c = s.get_char(i);
        let ghost pre_words = words@;
        let ghost pre_cur = cur@;
        if is_whitespace_char(c) {
            proof {
                if pre_cur.len() == 0 {
                    assert(pre_cur =~= Seq::<char>::empty());
                }
            }
            if cur.len() > 0 {
                words.push(cur);
                cur = Vec::new();
                proof {
                    assert(words@.map_values(|v: Vec<char>| v@) =~= pre_words.map_values(
                        |v: Vec<char>| v@,
                    ).push(pre_cur));
                    assert(pre_words.map_values(|v: Vec<char>| v@) + (seq![pre_cur] + split_words(
                        input@,
                        i + 1,
                        Seq::empty(),
                    )) =~= words@.map_values(|v: Vec<char>| v@) + split_words(
                        input@,
                        i + 1,
                        Seq::empty(),
                    ));
                }
            }
        } else {
            cur.push(c);
            proof {
                assert(cur@ =~= pre_cur.push(input@[i as int]));
            }
        }
        i = i + 1;
    }
    let ghost pre_words = words@;
    let ghost pre_cur = cur@;
    if cur.len() > 0 {
        words.push(cur);
        proof {
            assert(words@.map_values(|v: Vec<char>| v@) =~= pre_words.map_values(
                |v: Vec<char>| v@,
            ).push(pre_cur));
            assert(pre_words.map_values(|v: Vec<char>| v@) + seq![pre_cur] =~= words@.map_values(
                |v: Vec<char>| v@,
            ));
        }
    }
    let ghost wv = words@.map_values(|v: Vec<char>| v@);
    proof {
        assert(words_of(input@) + Seq::<Seq<char>>::empty() =~= words_of(input@));
        assert(wv =~= words_of(input@));
    }
    let mut out = String::new();
    let mut width: usize = 0;
    let mut k: usize = 0;
    while k < words.len()
        invariant
            wv == words_of(input@),
            wv == words@.map_values(|v: Vec<char>| v@),
            n == input@.len(),
            n < usize::MAX,
            window_width < usize::MAX,
            k <= words@.len(),
            forall|w: int| 0 <= w < words@.len() ==> (#[trigger] words@[w])@.len() <= n,
            wrap_words(wv, 0, window_width as int, 0, Seq::empty()) == wrap_words(
                wv,
                k as int,
                window_width as int,
                width as int,
                out@,
            ),
        decreases words@.len() - k,
    {
        let word = &words[k];
        let wl = word.len();
        let ghost out_pre = out@;
        let fits = width <= window_width && wl <= window_width - width;
        if !fits {
            push_char(&mut out, '\n');
        }
        let mut q: usize = 0;
        let ghost line_start = out@;
        while q < wl
            invariant
                q <= wl,
                wl == word@.len(),
                out@ == line_start + word@.take(q as int),
            decreases wl - q,
        {
            push_char(&mut out, word[q]);
            proof {
                assert(out@ =~= line_start + word@.take(q + 1));
            }
            q = q + 1;
        }
        push_char(&mut out, ' ');
        if fits {
            width = width + wl + 1;
            proof {
                assert(word@.take(wl as int) =~= word@);
                assert(out@ =~= out_pre + wv[k as int] + seq![' ']);
            }
        } else {
            width = wl + 1;
            proof {
                assert(word@.take(wl as int) =~= word@);
                assert(out@ =~= out_pre + seq!['\n'] + wv[k as int] + seq![' ']);
            }
        }
        k = k + 1;
    }
    if !out.as_str().is_empty() {
        pop_char(&mut out);
    }
    Some(out)
}

} // verus!
