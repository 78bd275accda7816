//! Translation of the internal cursor address into a visual line/column
//! position, with a second "virtual end" position so a caller can render a
//! split caret when the caret sits where virtual whitespace begins.

use crate::content::{elmts_view, Content, CursorPos};
use crate::whitespace::{typed_view, WhitespaceChar};
use crate::{push_char, GetString};
use vstd::prelude::*;
use vstd::string::{StrSliceExecFns, StringExecFns};

verus! {

/// How many newlines a text holds: the line a caret placed after it sits on.
pub open spec fn line_of(s: Seq<char>) -> nat
    decreases s.len(),
{
    if s.len() == 0 {
        0
    } else {
        line_of(s.drop_last()) + if s.last() == '\n' {
            1nat
        } else {
            0nat
        }
    }
}

/// The length of the text after its last newline: the column a caret placed
/// after it sits on.
pub open spec fn col_of(s: Seq<char>) -> nat
    decreases s.len(),
{
    if s.len() == 0 {
        0
    } else if s.last() == '\n' {
        0
    } else {
        col_of(s.drop_last()) + 1
    }
}

/// Strict lexicographic order on `(line, column)` positions.
pub open spec fn lex_lt(a: (int, int), b: (int, int)) -> bool {
    a.0 < b.0 || (a.0 == b.0 && a.1 < b.1)
}

impl Content {
    /// The rendered text of all elements strictly before the cursor's.
    pub open spec fn prefix_render(self) -> Seq<char> {
        elmts_view(self.elmts@.take(self.cursor.0 as int))
    }

    /// The displayed text up to the caret itself: the prefix plus the typed
    /// whitespace of the cursor's run up to the cursor offset.
    pub open spec fn start_render(self) -> Seq<char> {
        self.prefix_render() + typed_view(
            self.elmts@[self.cursor.0 as int].whitespace.typed@.take(self.cursor.1 as int),
        )
    }

    /// The caret's visual position.
    pub open spec fn cursor_start(self) -> (int, int) {
        (line_of(self.start_render()) as int, col_of(self.start_render()) as int)
    }

    /// Where the cursor element's virtual whitespace would put the caret:
    /// its virtual newlines below the prefix, and its virtual spaces on that
    /// last virtual line (or added to the prefix's column when the run has no
    /// virtual newline).
    pub open spec fn cursor_virtual_end(self) -> (int, int) {
        let w = self.elmts@[self.cursor.0 as int].whitespace;
        let p = self.prefix_render();
        (
            line_of(p) + w.virtual_newlines,
            if w.virtual_newlines > 0 {
                w.virtual_spaces as int
            } else {
                col_of(p) + w.virtual_spaces
            },
        )
    }

    /// Whether the caret sits at the last typed slot of its run, immediately
    /// adjacent to where virtual whitespace would appear.
    pub open spec fn at_last_slot(self) -> bool {
        self.cursor.1 == self.elmts@[self.cursor.0 as int].whitespace.typed@.len()
    }

    /// The second caret position: at the run's last slot it is the
    /// lexicographic maximum of the start and the virtual end, elsewhere the
    /// start itself.
    pub open spec fn cursor_end(self) -> (int, int) {
        if self.at_last_slot() && lex_lt(self.cursor_start(), self.cursor_virtual_end()) {
            self.cursor_virtual_end()
        } else {
            self.cursor_start()
        }
    }

    /// Translates the cursor into visual positions: where the caret starts,
    /// and where it ends once the cursor element's virtual whitespace is
    /// taken into account. The two bounds asked of the caller only keep the
    /// line and column arithmetic within the machine's integers.
    pub fn cursor_pos(&self) -> (r: CursorPos)
        requires
            self.wf(),
            line_of(self.prefix_render()) + self.elmts@[self.cursor.0 as int].whitespace.virtual_newlines
                <= usize::MAX,
            self.elmts@[self.cursor.0 as int].whitespace.virtual_newlines == 0 ==> col_of(
                self.prefix_render(),
            ) + self.elmts@[self.cursor.0 as int].whitespace.virtual_spaces <= usize::MAX,
        ensures
            r.0.0 == self.cursor_start().0,
            r.0.1 == self.cursor_start().1,
            r.1.0 == self.cursor_end().0,
            r.1.1 == self.cursor_end().1,
    {
        let k = self.cursor.0;
        let mut s = String::new();
        let mut i: usize = 0;
        while i < k
            invariant
                self.wf(),
                k == self.cursor.0,
                i <= k,
                k < self.elmts@.len(),
                s@ == elmts_view(self.elmts@.take(i as int)),
            decreases k - i,
        {
            let ghost pre = self.elmts@.take(i as int);
            let piece = self.elmts[i].get_string();
            s.append(piece.as_str());
            proof {
                assert(self.elmts@.take(i + 1) =~= pre.push(self.elmts@[i as int]));
                crate::content::lemma_elmts_view_push(pre, self.elmts@[i as int]);
            }
            i = i + 1;
        }
        let prefix_pos = count_line_col(s.as_str());
        let vnl = self.elmts[k].whitespace.virtual_newlines;
        let vsp = self.elmts[k].whitespace.virtual_spaces;
        let virtual_end: (usize, usize) = (
            prefix_pos.0 + vnl,
            if vnl == 0 {
                prefix_pos.1 + vsp
            } else {
                vsp
            },
        );
        let ghost prefix = s@;
        let mut j: usize = 0;
        while j < self.cursor.1
            invariant
                self.wf(),
                k == self.cursor.0,
                j <= self.cursor.1,
                prefix == self.prefix_render(),
                s@ == prefix + typed_view(
                    self.elmts@[k as int].whitespace.typed@.take(j as int),
                ),
            decreases self.cursor.1 - j,
        {
            let ghost t = self.elmts@[k as int].whitespace.typed@;
            match self.elmts[k].whitespace.typed[j] {
                WhitespaceChar::Space => push_char(&mut s, ' '),
                WhitespaceChar::Newline => push_char(&mut s, '\n'),
            }
            proof {
                assert(t.take(j + 1) =~= t.take(j as int).push(t[j as int]));
                assert(typed_view(t.take(j + 1)) =~= typed_view(t.take(j as int)).push(
                    crate::whitespace::ws_char_view(t[j as int]),
                ));
                assert(s@ =~= prefix + typed_view(t.take(j + 1)));
            }
            j = j + 1;
        }
        let start = count_line_col(s.as_str());
        let typed_len = self.elmts[k].whitespace.typed.len();
        let end = if self.cursor.1 == typed_len {
            if virtual_end.0 > start.0 || (virtual_end.0 == start.0 && virtual_end.1 > start.1) {
                virtual_end
            } else {
                start
            }
        } else {
            start
        };
        (start, end)
    }
}

/// Counts the line and column a caret sits on after the given text.
fn count_line_col(s: &str) -> (r: (usize, usize))
    ensures
        r.0 == line_of(s@),
        r.1 == col_of(s@),
{
    let n = s.unicode_len();
    let mut line: usize = 0;
    let mut col: usize = 0;
    let mut i: usize = 0;
    while i < n
        invariant
            n == s@.len(),
            i <= n,
            line <= i,
            col <= i,
            line == line_of(s@.take(i as int)),
            col == col_of(s@.take(i as int)),
        decreases n - i,
    {
        let c = s.get_char(i);
        proof {
            assert(s@.take(i + 1).drop_last() =~= s@.take(i as int));
            assert(s@.take(i + 1).last() == s@[i as int]);
        }
        if c == '\n' {
            line = line + 1;
            col = 0;
        } else {
            col = col + 1;
        }
        i = i + 1;
    }
    proof {
        assert(s@.take(n as int) =~= s@);
    }
    (line, col)
}

/// Appending text never moves the caret's line/column position
/// lexicographically backwards.
proof fn lemma_walk_monotone(p: Seq<char>, w: Seq<char>)
    ensures
        line_of(p + w) > line_of(p) || (line_of(p + w) == line_of(p) && col_of(p + w) >= col_of(
            p,
        )),
    decreases w.len(),
{
    if w.len() == 0 {
        assert(p + w =~= p);
    } else {
        lemma_walk_monotone(p, w.drop_last());
        assert((p + w).drop_last() =~= p + w.drop_last());
        assert((p + w).last() == w.last());
    }
}

/// Split-caret law: the caret's end position differs from its start only
/// when the caret sits at the last typed slot of its run, the run's virtual
/// counts are not both zero, and they place the virtual end strictly after
/// the start.
pub proof fn lemma_split_caret(c: Content)
    requires
        c.wf(),
    ensures
        c.cursor_end() != c.cursor_start() ==> {
            &&& c.cursor.1 == c.elmts@[c.cursor.0 as int].whitespace.typed@.len()
            &&& (c.elmts@[c.cursor.0 as int].whitespace.virtual_newlines > 0
                || c.elmts@[c.cursor.0 as int].whitespace.virtual_spaces > 0)
            &&& lex_lt(c.cursor_start(), c.cursor_virtual_end())
        },
{
    if c.cursor_end() != c.cursor_start() {
        let w = c.elmts@[c.cursor.0 as int].whitespace;
        if w.virtual_newlines == 0 && w.virtual_spaces == 0 {
            let p = c.prefix_render();
            let walked = typed_view(w.typed@.take(c.cursor.1 as int));
            lemma_walk_monotone(p, walked);
            assert(!lex_lt(c.cursor_start(), c.cursor_virtual_end()));
        }
    }
}

} // verus!
