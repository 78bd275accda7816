//! The buffer itself: an ordered sequence of elements — one typed character
//! each, preceded by its whitespace run — closed by a sentinel element that
//! carries only trailing whitespace, plus a single cursor address.

use crate::whitespace::{typed_view, ws_view, Whitespace, WhitespaceChar};
use crate::{push_char, GetString};
use vstd::prelude::*;
use vstd::string::{StrSliceExecFns, StringExecFns};

verus! {

/// One user-typed character (or the end-of-buffer sentinel, which carries no
/// character) paired with the whitespace run that precedes it.
#[derive(Clone, Debug)]
pub struct Elmt {
    /// The typed character; `None` marks the one trailing sentinel element.
    pub character: Option<char>,
    /// The whitespace preceding `character`.
    pub whitespace: Whitespace,
}

/// A visual cursor position: the pair of `(line, column)` positions where the
/// caret starts and where it ends. The two differ only when the caret sits at
/// the boundary where virtual whitespace begins (the split-caret case).
pub type CursorPos = ((usize, usize), (usize, usize));

/// The dual-representation buffer: elements in order, sentinel last, and one
/// cursor address `(element_index, offset)` into the typed whitespace slots
/// of the selected element's run.
#[derive(Debug)]
pub struct Content {
    pub elmts: Vec<Elmt>,
    pub cursor: (usize, usize),
}

/// Whether a character counts as typed whitespace for the buffer.
pub open spec fn is_ws_char(c: char) -> bool {
    c == ' ' || c == '\n'
}

/// The full rendering of one element: its whitespace run (typed and virtual)
/// followed by its character, if present.
pub open spec fn elmt_view(e: Elmt) -> Seq<char> {
    ws_view(e.whitespace) + match e.character {
        Some(c) => seq![c],
        None => Seq::<char>::empty(),
    }
}

/// The typed-only rendering of one element: its typed whitespace followed by
/// its character, with all virtual whitespace ignored.
pub open spec fn elmt_typed_view(e: Elmt) -> Seq<char> {
    typed_view(e.whitespace.typed@) + match e.character {
        Some(c) => seq![c],
        None => Seq::<char>::empty(),
    }
}

/// The full rendering of a sequence of elements, in order.
pub open spec fn elmts_view(es: Seq<Elmt>) -> Seq<char>
    decreases es.len(),
{
    if es.len() == 0 {
        Seq::empty()
    } else {
        elmts_view(es.drop_last()) + elmt_view(es.last())
    }
}

/// The typed-only rendering of a sequence of elements, in order.
pub open spec fn elmts_typed_view(es: Seq<Elmt>) -> Seq<char>
    decreases es.len(),
{
    if es.len() == 0 {
        Seq::empty()
    } else {
        elmts_typed_view(es.drop_last()) + elmt_typed_view(es.last())
    }
}

/// The sum of all virtual whitespace counts over a sequence of elements.
pub open spec fn virtual_total(es: Seq<Elmt>) -> nat
    decreases es.len(),
{
    if es.len() == 0 {
        0
    } else {
        (virtual_total(es.drop_last()) + es.last().whitespace.virtual_newlines
            + es.last().whitespace.virtual_spaces) as nat
    }
}

/// The shape of one element: its character and its typed whitespace run.
pub open spec fn elmt_model(e: Elmt) -> (Option<char>, Seq<WhitespaceChar>) {
    (e.character, e.whitespace.typed@)
}

/// The shape of a sequence of elements, in order.
pub open spec fn elmts_model(es: Seq<Elmt>) -> Seq<(Option<char>, Seq<WhitespaceChar>)> {
    es.map_values(|e: Elmt| elmt_model(e))
}

/// The elements a typed text parses to, scanning from position `i` with the
/// whitespace run `cur` accumulated so far: a space or newline extends the
/// pending run, any other character closes one element carrying it, and the
/// end of the text yields the sentinel with the trailing run.
pub open spec fn parse_elmts(s: Seq<char>, i: int, cur: Seq<WhitespaceChar>) -> Seq<
    (Option<char>, Seq<WhitespaceChar>),
>
    decreases s.len() - i,
{
    if i < 0 || i >= s.len() {
        seq![(None, cur)]
    } else if s[i] == ' ' {
        parse_elmts(s, i + 1, cur.push(WhitespaceChar::Space))
    } else if s[i] == '\n' {
        parse_elmts(s, i + 1, cur.push(WhitespaceChar::Newline))
    } else {
        seq![(Some(s[i]), cur)] + parse_elmts(s, i + 1, Seq::empty())
    }
}

/// Whether every element carries zero virtual whitespace.
pub open spec fn typed_only(es: Seq<Elmt>) -> bool {
    forall|i: int|
        0 <= i < es.len() ==> (#[trigger] es[i]).whitespace.virtual_newlines == 0
            && es[i].whitespace.virtual_spaces == 0
}

pub proof fn lemma_elmts_view_push(es: Seq<Elmt>, e: Elmt)
    ensures
        elmts_view(es.push(e)) == elmts_view(es) + elmt_view(e),
{
    assert(es.push(e).drop_last() =~= es);
    assert(es.push(e).last() == e);
}

pub proof fn lemma_elmts_typed_view_push(es: Seq<Elmt>, e: Elmt)
    ensures
        elmts_typed_view(es.push(e)) == elmts_typed_view(es) + elmt_typed_view(e),
{
    assert(es.push(e).drop_last() =~= es);
    assert(es.push(e).last() == e);
}

pub proof fn lemma_virtual_total_push(es: Seq<Elmt>, e: Elmt)
    ensures
        virtual_total(es.push(e)) == virtual_total(es) + e.whitespace.virtual_newlines
            + e.whitespace.virtual_spaces,
{
    assert(es.push(e).drop_last() =~= es);
    assert(es.push(e).last() == e);
}

/// Every element with zero virtual whitespace renders exactly its typed
/// content: the typed-only view and the full view agree.
pub proof fn lemma_typed_only_view(es: Seq<Elmt>)
    requires
        typed_only(es),
    ensures
        elmts_view(es) == elmts_typed_view(es),
    decreases es.len(),
{
    if es.len() > 0 {
        assert(typed_only(es.drop_last())) by {
            assert(forall|i: int|
                0 <= i < es.len() - 1 ==> #[trigger] es.drop_last()[i] == es[i]);
        }
        lemma_typed_only_view(es.drop_last());
        let e = es.last();
        assert(e.whitespace.virtual_newlines == 0 && e.whitespace.virtual_spaces == 0);
        assert(crate::whitespace::ws_extension(e.whitespace) =~= Seq::<WhitespaceChar>::empty());
        assert(e.whitespace.typed@ + crate::whitespace::ws_extension(e.whitespace)
            =~= e.whitespace.typed@);
        assert(elmt_view(e) == elmt_typed_view(e));
    }
}

impl Content {
    /// The buffer's structural invariant: at least one element, the sentinel
    /// (and only the sentinel) last, every other element holding one typed
    /// non-whitespace character; a cursor that addresses a typed whitespace
    /// slot of some element; and virtual whitespace that fits the machine's
    /// arithmetic.
    pub open spec fn wf(self) -> bool {
        &&& self.elmts@.len() >= 1
        &&& self.elmts@.last().character is None
        &&& (forall|i: int|
            0 <= i < self.elmts@.len() - 1 ==> (#[trigger] self.elmts@[i]).character is Some
                && !is_ws_char(self.elmts@[i].character->0))
        &&& self.cursor.0 < self.elmts@.len()
        &&& self.cursor.1 <= self.elmts@[self.cursor.0 as int].whitespace.typed@.len()
        &&& virtual_total(self.elmts@) <= usize::MAX
    }

    /// Builds a buffer from typed text alone: spaces and newlines accumulate
    /// into the whitespace run that precedes the next character; the trailing
    /// run is carried by the sentinel. All virtual counts start at zero, the
    /// cursor at the start of the buffer — and the buffer renders back
    /// exactly the typed text.
    pub fn from_string(input: &str) -> (c: Content)
        ensures
            c.wf(),
            typed_only(c.elmts@),
            elmts_view(c.elmts@) == input@,
            elmts_model(c.elmts@) == parse_elmts(input@, 0, Seq::empty()),
            c.cursor == (0usize, 0usize),
    {
        let n = input.unicode_len();
        let mut elmts: Vec<Elmt> = Vec::new();
        let mut current: Vec<WhitespaceChar> = Vec::new();
        let mut i: usize = 0;
        while i < n
            invariant
                n == input@.len(),
                i <= n,
                elmts_view(elmts@) + typed_view(current@) == input@.take(i as int),
                elmts_model(elmts@) + parse_elmts(input@, i as int, current@) == parse_elmts(
                    input@,
                    0,
                    Seq::empty(),
                ),
                typed_only(elmts@),
                virtual_total(elmts@) == 0,
                forall|k: int|
                    0 <= k < elmts@.len() ==> (#[trigger] elmts@[k]).character is Some
                        && !is_ws_char(elmts@[k].character->0),
            decreases n - i,
        {
            let c = input.get_char(i);
            let ghost pre_elmts = elmts@;
            let ghost pre_current = current@;
            proof {
                assert(input@.take(i + 1) =~= input@.take(i as int).push(input@[i as int]));
            }
            if c == ' ' {
                current.push(WhitespaceChar::Space);
                proof {
                    assert(typed_view(current@) =~= typed_view(pre_current).push(' '));
                    assert(elmts_view(elmts@) + typed_view(current@) =~= (elmts_view(pre_elmts)
                        + typed_view(pre_current)).push(' '));
                    assert(parse_elmts(input@, i as int, pre_current) == parse_elmts(
                        input@,
                        i + 1,
                        current@,
                    ));
                }
            } else if c == '\n' {
                current.push(WhitespaceChar::Newline);
                proof {
                    assert(typed_view(current@) =~= typed_view(pre_current).push('\n'));
                    assert(elmts_view(elmts@) + typed_view(current@) =~= (elmts_view(pre_elmts)
                        + typed_view(pre_current)).push('\n'));
                    assert(parse_elmts(input@, i as int, pre_current) == parse_elmts(
                        input@,
                        i + 1,
                        current@,
                    ));
                }
            } else {
                let w = Whitespace { typed: current, virtual_newlines: 0, virtual_spaces: 0 };
                let e = Elmt { character: Some(c), whitespace: w };
                elmts.push(e);
                current = Vec::new();
                proof {
                    lemma_elmts_view_push(pre_elmts, e);
                    lemma_virtual_total_push(pre_elmts, e);
                    assert(crate::whitespace::ws_extension(e.whitespace)
                        =~= Seq::<WhitespaceChar>::empty());
                    assert(e.whitespace.typed@ + crate::whitespace::ws_extension(e.whitespace)
                        =~= pre_current);
                    assert(elmt_view(e) =~= typed_view(pre_current).push(c));
                    assert(typed_view(current@) =~= Seq::<char>::empty());
                    assert(elmts_view(elmts@) + typed_view(current@) =~= (elmts_view(pre_elmts)
                        + typed_view(pre_current)).push(c));
                    assert(elmts_model(elmts@) =~= elmts_model(pre_elmts).push(elmt_model(e)));
                    assert(parse_elmts(input@, i as int, pre_current) == seq![
                        (Some(input@[i as int]), pre_current),
                    ] + parse_elmts(input@, i + 1, current@));
                    assert(elmts_model(elmts@) + parse_elmts(input@, i + 1, current@)
                        =~= elmts_model(pre_elmts) + parse_elmts(input@, i as int, pre_current));
                }
            }
            i = i + 1;
        }
        let ghost pre_elmts = elmts@;
        let w = Whitespace { typed: current, virtual_newlines: 0, virtual_spaces: 0 };
        let e = Elmt { character: None, whitespace: w };
        elmts.push(e);
        let c = Content { elmts, cursor: (0, 0) };
        proof {
            lemma_elmts_view_push(pre_elmts, e);
            lemma_virtual_total_push(pre_elmts, e);
            assert(crate::whitespace::ws_extension(e.whitespace)
                =~= Seq::<WhitespaceChar>::empty());
            assert(e.whitespace.typed@ + crate::whitespace::ws_extension(e.whitespace)
                =~= e.whitespace.typed@);
            assert(elmt_view(e) =~= typed_view(e.whitespace.typed@));
            assert(input@.take(n as int) =~= input@);
            assert(elmts_view(c.elmts@) =~= input@);
            assert(elmts_model(c.elmts@) =~= elmts_model(pre_elmts).push(elmt_model(e)));
            assert(elmts_model(c.elmts@) =~= elmts_model(pre_elmts) + parse_elmts(
                input@,
                n as int,
                e.whitespace.typed@,
            ));
        }
        c
    }

    /// The typed-only rendering of the whole buffer: what the user actually
    /// entered, with all virtual whitespace ignored. This is the text handed
    /// to a formatter.
    pub fn render_typed_only(&self) -> (s: String)
        ensures
            s@ == elmts_typed_view(self.elmts@),
    {
        let mut s = String::new();
        let mut i: usize = 0;
        while i < self.elmts.len()
            invariant
                i <= self.elmts@.len(),
                s@ == elmts_typed_view(self.elmts@.take(i as int)),
            decreases self.elmts@.len() - i,
        {
            let ghost pre = self.elmts@.take(i as int);
            let e = &self.elmts[i];
            let mut j: usize = 0;
            while j < e.whitespace.typed.len()
                invariant
                    j <= e.whitespace.typed@.len(),
                    s@ == elmts_typed_view(pre) + typed_view(e.whitespace.typed@.take(j as int)),
                decreases e.whitespace.typed@.len() - j,
            {
                let ghost tpre = e.whitespace.typed@.take(j as int);
                match e.whitespace.typed[j] {
                    WhitespaceChar::Space => push_char(&mut s, ' '),
                    WhitespaceChar::Newline => push_char(&mut s, '\n'),
                }
                proof {
                    assert(e.whitespace.typed@.take(j + 1) =~= tpre.push(e.whitespace.typed@[
                        j as int]));
                    assert(typed_view(e.whitespace.typed@.take(j + 1)) =~= typed_view(tpre).push(
                        crate::whitespace::ws_char_view(e.whitespace.typed@[j as int])));
                }
                j = j + 1;
            }
            proof {
                assert(e.whitespace.typed@.take(e.whitespace.typed@.len() as int)
                    =~= e.whitespace.typed@);
            }
            if let Some(ch) = e.character {
                push_char(&mut s, ch);
            }
            proof {
                assert(self.elmts@.take(i + 1) =~= pre.push(self.elmts@[i as int]));
                lemma_elmts_typed_view_push(pre, self.elmts@[i as int]);
                assert(s@ =~= elmts_typed_view(self.elmts@.take(i + 1)));
            }
            i = i + 1;
        }
        proof {
            assert(self.elmts@.take(self.elmts@.len() as int) =~= self.elmts@);
        }
        s
    }

    /// Resets every element's virtual whitespace to zero, leaving the typed
    /// content, the characters and the cursor untouched.
    pub fn clear_virtual_whitespace(&mut self)
        requires
            old(self).wf(),
        ensures
            final(self).wf(),
            final(self).elmts@.len() == old(self).elmts@.len(),
            forall|i: int|
                0 <= i < old(self).elmts@.len() ==> {
                    &&& (#[trigger] final(self).elmts@[i]).character == old(self).elmts@[i].character
                    &&& final(self).elmts@[i].whitespace.typed
                        == old(self).elmts@[i].whitespace.typed
                    &&& final(self).elmts@[i].whitespace.virtual_newlines == 0
                    &&& final(self).elmts@[i].whitespace.virtual_spaces == 0
                },
            final(self).cursor == old(self).cursor,
    {
        let mut i: usize = 0;
        while i < self.elmts.len()
            invariant
                i <= self.elmts@.len(),
                self.elmts@.len() == old(self).elmts@.len(),
                self.cursor == old(self).cursor,
                forall|k: int|
                    i <= k < self.elmts@.len() ==> #[trigger] self.elmts@[k]
                        == old(self).elmts@[k],
                forall|k: int|
                    0 <= k < i ==> {
                        &&& (#[trigger] self.elmts@[k]).character == old(self).elmts@[k].character
                        &&& self.elmts@[k].whitespace.typed
                            == old(self).elmts@[k].whitespace.typed
                        &&& self.elmts@[k].whitespace.virtual_newlines == 0
                        &&& self.elmts@[k].whitespace.virtual_spaces == 0
                    },
            decreases self.elmts@.len() - i,
        {
            let ghost pre = self.elmts@;
            let mut e = self.elmts.remove(i);
            e.whitespace.virtual_newlines = 0;
            e.whitespace.virtual_spaces = 0;
            self.elmts.insert(i, e);
            proof {
                assert(self.elmts@ =~= pre.update(i as int, e));
            }
            i = i + 1;
        }
        proof {
            lemma_virtual_total_zero(self.elmts@);
            let k0 = self.cursor.0 as int;
            assert(self.elmts@[k0].whitespace.typed == old(self).elmts@[k0].whitespace.typed);
        }
    }
}

/// A sequence of elements that all carry zero virtual whitespace sums to a
/// zero virtual total.
pub proof fn lemma_virtual_total_zero(es: Seq<Elmt>)
    requires
        typed_only(es),
    ensures
        virtual_total(es) == 0,
    decreases es.len(),
{
    if es.len() > 0 {
        assert(typed_only(es.drop_last())) by {
            assert(forall|i: int|
                0 <= i < es.len() - 1 ==> #[trigger] es.drop_last()[i] == es[i]);
        }
        lemma_virtual_total_zero(es.drop_last());
    }
}

/// Two element sequences with pointwise equal characters and typed runs have
/// the same typed-only rendering.
pub proof fn lemma_typed_view_congruent(a: Seq<Elmt>, b: Seq<Elmt>)
    requires
        a.len() == b.len(),
        forall|i: int|
            0 <= i < a.len() ==> (#[trigger] a[i]).character == b[i].character
                && a[i].whitespace.typed == b[i].whitespace.typed,
    ensures
        elmts_typed_view(a) == elmts_typed_view(b),
    decreases a.len(),
{
    if a.len() > 0 {
        assert(forall|i: int|
            0 <= i < a.len() - 1 ==> #[trigger] a.drop_last()[i] == a[i]
                && b.drop_last()[i] == b[i]);
        lemma_typed_view_congruent(a.drop_last(), b.drop_last());
        assert(elmt_typed_view(a.last()) == elmt_typed_view(b.last()));
    }
}

/// The virtual total of a concatenation is the sum of the virtual totals.
pub proof fn lemma_virtual_total_concat(a: Seq<Elmt>, b: Seq<Elmt>)
    ensures
        virtual_total(a + b) == virtual_total(a) + virtual_total(b),
    decreases b.len(),
{
    if b.len() == 0 {
        assert(a + b =~= a);
    } else {
        lemma_virtual_total_concat(a, b.drop_last());
        assert((a + b).drop_last() =~= a + b.drop_last());
        assert((a + b).last() == b.last());
    }
}

/// Two element sequences with pointwise equal virtual counts have the same
/// virtual total.
pub proof fn lemma_virtual_total_congruent(a: Seq<Elmt>, b: Seq<Elmt>)
    requires
        a.len() == b.len(),
        forall|i: int|
            0 <= i < a.len() ==> (#[trigger] a[i]).whitespace.virtual_newlines
                == b[i].whitespace.virtual_newlines && a[i].whitespace.virtual_spaces
                == b[i].whitespace.virtual_spaces,
    ensures
        virtual_total(a) == virtual_total(b),
    decreases a.len(),
{
    if a.len() > 0 {
        assert(forall|i: int|
            0 <= i < a.len() - 1 ==> #[trigger] a.drop_last()[i] == a[i]
                && b.drop_last()[i] == b[i]);
        lemma_virtual_total_congruent(a.drop_last(), b.drop_last());
    }
}

impl GetString for Elmt {
    open spec fn string_view(&self) -> Seq<char> {
        elmt_view(*self)
    }

    fn get_string(&self) -> (s: String) {
        let mut s = self.whitespace.get_string();
        if let Some(c) = self.character {
            push_char(&mut s, c);
        }
        proof {
            assert(s@ =~= elmt_view(*self));
        }
        s
    }
}

impl GetString for Content {
    open spec fn string_view(&self) -> Seq<char> {
        elmts_view(self.elmts@)
    }

    fn get_string(&self) -> (s: String) {
        let mut s = String::new();
        let mut i: usize = 0;
        while i < self.elmts.len()
            invariant
                i <= self.elmts@.len(),
                s@ == elmts_view(self.elmts@.take(i as int)),
            decreases self.elmts@.len() - i,
        {
            let ghost pre = self.elmts@.take(i as int);
            let piece = self.elmts[i].get_string();
            s.append(piece.as_str());
            proof {
                assert(self.elmts@.take(i + 1) =~= pre.push(self.elmts@[i as int]));
                lemma_elmts_view_push(pre, self.elmts@[i as int]);
            }
            i = i + 1;
        }
        proof {
            assert(self.elmts@.take(self.elmts@.len() as int) =~= self.elmts@);
        }
        s
    }
}

} // verus!

