//! The smallest unit of state: the whitespace run that precedes one typed
//! character, split into a typed part and a virtual (formatter-injected) part.

use crate::{push_char, GetString};
use vstd::prelude::*;

verus! {

/// One typed whitespace character.
#[derive(Clone, Copy, Debug)]
pub enum WhitespaceChar {
    Space,
    Newline,
}

/// The whitespace preceding one character: the typed characters in order,
/// plus the counts of whitespace the formatter wants at this position.
///
/// `virtual_newlines` counts newlines the formatter wants here; the rendering
/// only ever shows them beyond what was typed, never instead of it.
/// `virtual_spaces` counts the spaces the formatter wants on the last line of
/// the run.
#[derive(Clone, Debug)]
pub struct Whitespace {
    pub typed: Vec<WhitespaceChar>,
    pub virtual_newlines: usize,
    pub virtual_spaces: usize,
}

/// The character a typed whitespace symbol renders to.
pub open spec fn ws_char_view(c: WhitespaceChar) -> char {
    match c {
        WhitespaceChar::Space => ' ',
        WhitespaceChar::Newline => '\n',
    }
}

/// The text of a sequence of typed whitespace symbols.
pub open spec fn typed_view(t: Seq<WhitespaceChar>) -> Seq<char> {
    t.map_values(|c: WhitespaceChar| ws_char_view(c))
}

/// How many newlines a run of typed whitespace holds.
pub open spec fn count_newlines(t: Seq<WhitespaceChar>) -> nat
    decreases t.len(),
{
    if t.len() == 0 {
        0
    } else {
        count_newlines(t.drop_last()) + if t.last() is Newline {
            1nat
        } else {
            0nat
        }
    }
}

/// How many spaces stand after the last newline of a run of typed whitespace
/// (the whole run, if it holds no newline).
pub open spec fn spaces_last_line(t: Seq<WhitespaceChar>) -> nat
    decreases t.len(),
{
    if t.len() == 0 {
        0
    } else if t.last() is Newline {
        0
    } else {
        spaces_last_line(t.drop_last()) + 1
    }
}

/// The virtual extension of a run: the whitespace its rendering appends after
/// the typed characters. Virtual whitespace only ever extends what was typed:
/// missing newlines are appended, then the formatter's spaces for the last
/// line; when the newlines agree, only the shortfall in trailing spaces.
pub open spec fn ws_extension(w: Whitespace) -> Seq<WhitespaceChar> {
    let tn = count_newlines(w.typed@);
    let sll = spaces_last_line(w.typed@);
    if tn < w.virtual_newlines {
        Seq::new((w.virtual_newlines - tn) as nat, |i: int| WhitespaceChar::Newline) + Seq::new(
            w.virtual_spaces as nat,
            |i: int| WhitespaceChar::Space,
        )
    } else if tn == w.virtual_newlines && sll < w.virtual_spaces {
        Seq::new((w.virtual_spaces - sll) as nat, |i: int| WhitespaceChar::Space)
    } else {
        Seq::empty()
    }
}

/// The full rendering of a run: the typed whitespace followed by its virtual
/// extension.
pub open spec fn ws_view(w: Whitespace) -> Seq<char> {
    typed_view(w.typed@ + ws_extension(w))
}

/// Typed whitespace is preserved over virtual: a run's rendering never
/// suppresses or reorders what was typed, it is exactly the typed whitespace
/// followed by the run's virtual extension.
pub proof fn lemma_render_extends_typed(w: Whitespace)
    ensures
        ws_view(w).len() == w.typed@.len() + ws_extension(w).len(),
        ws_view(w).take(w.typed@.len() as int) == typed_view(w.typed@),
{
    assert(typed_view(w.typed@ + ws_extension(w)).take(w.typed@.len() as int) =~= typed_view(
        w.typed@,
    ));
}

impl WhitespaceChar {
    /// Whether this typed whitespace symbol is a newline.
    pub fn is_newline(&self) -> (r: bool)
        ensures
            r == (*self is Newline),
    {
        match self {
            WhitespaceChar::Newline => true,
            WhitespaceChar::Space => false,
        }
    }
}

impl Whitespace {
    /// The number of addressable caret positions in this run: one before the
    /// first typed character, one between each pair, and one after the last.
    /// Virtual whitespace contributes no addressable slots.
    pub fn get_num_cursor_positions(&self) -> (r: usize)
        requires
            self.typed@.len() < usize::MAX,
        ensures
            r == self.typed@.len() + 1,
    {
        self.typed.len() + 1
    }
}

/// Counts the newlines in a run of typed whitespace.
pub(crate) fn count_typed_newlines(t: &Vec<WhitespaceChar>) -> (r: usize)
    ensures
        r == count_newlines(t@),
{
    let mut r: usize = 0;
    let mut i: usize = 0;
    while i < t.len()
        invariant
            i <= t@.len(),
            r <= i,
            r == count_newlines(t@.take(i as int)),
        decreases t@.len() - i,
    {
        proof {
            assert(t@.take(i + 1).drop_last() =~= t@.take(i as int));
        }
        if t[i].is_newline() {
            r = r + 1;
        }
        i = i + 1;
    }
    proof {
        assert(t@.take(t@.len() as int) =~= t@);
    }
    r
}

/// Counts the spaces after the last newline in a run of typed whitespace.
pub(crate) fn count_spaces_last_line(t: &Vec<WhitespaceChar>) -> (r: usize)
    ensures
        r == spaces_last_line(t@),
{
    let mut r: usize = 0;
    let mut i: usize = 0;
    while i < t.len()
        invariant
            i <= t@.len(),
            r <= i,
            r == spaces_last_line(t@.take(i as int)),
        decreases t@.len() - i,
    {
        proof {
            assert(t@.take(i + 1).drop_last() =~= t@.take(i as int));
        }
        if t[i].is_newline() {
            r = 0;
        } else {
            r = r + 1;
        }
        i = i + 1;
    }
    proof {
        assert(t@.take(t@.len() as int) =~= t@);
    }
    r
}

impl GetString for WhitespaceChar {
    open spec fn string_view(&self) -> Seq<char> {
        seq![ws_char_view(*self)]
    }

    fn get_string(&self) -> (s: String) {
        let mut s = String::new();
        match self {
            WhitespaceChar::Space => push_char(&mut s, ' '),
            WhitespaceChar::Newline => push_char(&mut s, '\n'),
        }
        proof {
            assert(s@ =~= self.string_view());
        }
        s
    }
}

impl GetString for Whitespace {
    open spec fn string_view(&self) -> Seq<char> {
        ws_view(*self)
    }

    fn get_string(&self) -> (s: String) {
        let mut s = String::new();
        let mut newlines: usize = 0;
        let mut last_spaces: usize = 0;
        let mut i: usize = 0;
        while i < self.typed.len()
            invariant
                i <= self.typed@.len(),
                newlines <= i,
                last_spaces <= i,
                s@ == typed_view(self.typed@.take(i as int)),
                newlines == count_newlines(self.typed@.take(i as int)),
                last_spaces == spaces_last_line(self.typed@.take(i as int)),
            decreases self.typed@.len() - i,
        {
            proof {
                assert(self.typed@.take(i + 1).drop_last() =~= self.typed@.take(i as int));
                assert(self.typed@.take(i + 1).last() == self.typed@[i as int]);
            }
            match self.typed[i] {
                WhitespaceChar::Space => {
                    push_char(&mut s, ' ');
                    last_spaces = last_spaces + 1;
                },
                WhitespaceChar::Newline => {
                    push_char(&mut s, '\n');
                    newlines = newlines + 1;
                    last_spaces = 0;
                },
            }
            proof {
                assert(s@ =~= typed_view(self.typed@.take(i + 1)));
            }
            i = i + 1;
        }
        proof {
            assert(self.typed@.take(self.typed@.len() as int) =~= self.typed@);
        }
        let ghost base = typed_view(self.typed@);
        if newlines < self.virtual_newlines {
            let extra_newlines = self.virtual_newlines - newlines;
            let mut k: usize = 0;
            while k < extra_newlines
                invariant
                    k <= extra_newlines,
                    s@ == base + Seq::new(k as nat, |j: int| '\n'),
                decreases extra_newlines - k,
            {
                push_char(&mut s, '\n');
                proof {
                    assert(s@ =~= base + Seq::new((k + 1) as nat, |j: int| '\n'));
                }
                k = k + 1;
            }
            let ghost mid = s@;
            let mut m: usize = 0;
            while m < self.virtual_spaces
                invariant
                    m <= self.virtual_spaces,
                    s@ == mid + Seq::new(m as nat, |j: int| ' '),
                decreases self.virtual_spaces - m,
            {
                push_char(&mut s, ' ');
                proof {
                    assert(s@ =~= mid + Seq::new((m + 1) as nat, |j: int| ' '));
                }
                m = m + 1;
            }
            proof {
                assert(s@ =~= ws_view(*self));
            }
        } else if newlines == self.virtual_newlines && last_spaces < self.virtual_spaces {
            let extra_spaces = self.virtual_spaces - last_spaces;
            let mut m: usize = 0;
            while m < extra_spaces
                invariant
                    m <= extra_spaces,
                    s@ == base + Seq::new(m as nat, |j: int| ' '),
                decreases extra_spaces - m,
            {
                push_char(&mut s, ' ');
                proof {
                    assert(s@ =~= base + Seq::new((m + 1) as nat, |j: int| ' '));
                }
                m = m + 1;
            }
            proof {
                assert(s@ =~= ws_view(*self));
            }
        } else {
            proof {
                assert(s@ =~= ws_view(*self));
            }
        }
        s
    }
}

} // verus!
