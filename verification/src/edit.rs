//! Edit operations on the buffer: cursor movement, insertion of a character,
//! backspace, and forward delete.
//!
//! The cursor only ever addresses typed whitespace slots. Moving it walks
//! those slots; inserting a whitespace character extends the current run;
//! inserting any other character splits the current run around a new element;
//! backspace and delete remove one typed whitespace symbol or one character,
//! fusing the adjoining runs.

use crate::content::{
    is_ws_char, lemma_virtual_total_concat, lemma_virtual_total_congruent, virtual_total, Content,
    Elmt,
};
use crate::whitespace::{
    count_spaces_last_line, count_typed_newlines, ws_extension, Whitespace, WhitespaceChar,
};
use vstd::prelude::*;

verus! {

/// The virtual total of a one-element sequence is that element's own count.
proof fn lemma_virtual_total_singleton(e: Elmt)
    ensures
        virtual_total(seq![e]) == e.whitespace.virtual_newlines + e.whitespace.virtual_spaces,
{
    assert(seq![e].drop_last() =~= Seq::<Elmt>::empty());
    assert(virtual_total(Seq::<Elmt>::empty()) == 0);
}

/// Splits a sequence of elements around the element at `k`.
proof fn lemma_virtual_total_split(es: Seq<Elmt>, k: int)
    requires
        0 <= k < es.len(),
    ensures
        virtual_total(es) == virtual_total(es.take(k)) + es[k].whitespace.virtual_newlines
            + es[k].whitespace.virtual_spaces + virtual_total(es.skip(k + 1)),
{
    assert(es =~= es.take(k) + seq![es[k]] + es.skip(k + 1));
    lemma_virtual_total_concat(es.take(k) + seq![es[k]], es.skip(k + 1));
    lemma_virtual_total_concat(es.take(k), seq![es[k]]);
    lemma_virtual_total_singleton(es[k]);
}

impl Content {
    /// Moves the cursor one slot to the left: within the current run when
    /// possible, else to the last slot of the previous element's run; a
    /// no-op at the very start of the buffer.
    pub fn cursor_left(&mut self)
        requires
            old(self).wf(),
        ensures
            final(self).wf(),
            final(self).elmts == old(self).elmts,
            old(self).cursor.1 > 0 ==> final(self).cursor.0 == old(self).cursor.0
                && final(self).cursor.1 == old(self).cursor.1 - 1,
            old(self).cursor.1 == 0 && old(self).cursor.0 > 0 ==> final(self).cursor.0
                == old(self).cursor.0 - 1 && final(self).cursor.1 == old(self).elmts@[old(
                self,
            ).cursor.0 - 1].whitespace.typed@.len(),
            old(self).cursor.1 == 0 && old(self).cursor.0 == 0 ==> final(self).cursor == old(
                self,
            ).cursor,
    {
        if self.cursor.1 > 0 {
            self.cursor = (self.cursor.0, self.cursor.1 - 1);
        } else if self.cursor.0 > 0 {
            let prev_len = self.elmts[self.cursor.0 - 1].whitespace.typed.len();
            self.cursor = (self.cursor.0 - 1, prev_len);
        }
    }

    /// Moves the cursor one slot to the right: within the current run when
    /// possible, else to the first slot of the next element's run; a no-op
    /// at the last slot of the sentinel.
    pub fn cursor_right(&mut self)
        requires
            old(self).wf(),
        ensures
            final(self).wf(),
            final(self).elmts == old(self).elmts,
            ({
                let k = old(self).cursor.0 as int;
                let off = old(self).cursor.1 as int;
                let typed_len = old(self).elmts@[k].whitespace.typed@.len() as int;
                &&& off < typed_len ==> final(self).cursor.0 == k && final(self).cursor.1 == off
                    + 1
                &&& off == typed_len && k < old(self).elmts@.len() - 1 ==> final(self).cursor == (
                    (k + 1) as usize,
                    0usize,
                )
                &&& off == typed_len && k == old(self).elmts@.len() - 1 ==> final(self).cursor
                    == old(self).cursor
            }),
    {
        let typed_len = self.elmts[self.cursor.0].whitespace.typed.len();
        if self.cursor.1 < typed_len {
            self.cursor = (self.cursor.0, self.cursor.1 + 1);
        } else if self.cursor.0 < self.elmts.len() - 1 {
            self.cursor = (self.cursor.0 + 1, 0);
        }
    }

    /// Inserts one character at the cursor. A space or newline is added to
    /// the current run's typed whitespace and the cursor steps past it. Any
    /// other character splits the current run at the cursor: the left part
    /// moves to a brand-new element carrying the new character, the right
    /// part stays with the existing element, and the cursor lands on the
    /// first slot after the new character.
    pub fn insert(&mut self, c: char)
        requires
            old(self).wf(),
        ensures
            final(self).wf(),
            ({
                let k = old(self).cursor.0 as int;
                let off = old(self).cursor.1 as int;
                let n = old(self).elmts@.len() as int;
                let t = old(self).elmts@[k].whitespace.typed@;
                if is_ws_char(c) {
                    let wsc = if c == '\n' {
                        WhitespaceChar::Newline
                    } else {
                        WhitespaceChar::Space
                    };
                    &&& final(self).elmts@.len() == n
                    &&& (forall|i: int|
                        0 <= i < n && i != k ==> #[trigger] final(self).elmts@[i] == old(
                            self,
                        ).elmts@[i])
                    &&& final(self).elmts@[k].character == old(self).elmts@[k].character
                    &&& final(self).elmts@[k].whitespace.virtual_newlines == old(
                        self,
                    ).elmts@[k].whitespace.virtual_newlines
                    &&& final(self).elmts@[k].whitespace.virtual_spaces == old(
                        self,
                    ).elmts@[k].whitespace.virtual_spaces
                    &&& final(self).elmts@[k].whitespace.typed@ == t.insert(off, wsc)
                    &&& final(self).cursor.0 == k
                    &&& final(self).cursor.1 == off + 1
                } else {
                    &&& final(self).elmts@.len() == n + 1
                    &&& (forall|i: int|
                        0 <= i < k ==> #[trigger] final(self).elmts@[i] == old(self).elmts@[i])
                    &&& (forall|i: int|
                        k + 1 < i < n + 1 ==> #[trigger] final(self).elmts@[i] == old(
                            self,
                        ).elmts@[i - 1])
                    &&& final(self).elmts@[k].character == Some(c)
                    &&& final(self).elmts@[k].whitespace.typed@ == t.take(off)
                    &&& final(self).elmts@[k].whitespace.virtual_newlines == 0
                    &&& final(self).elmts@[k].whitespace.virtual_spaces == 0
                    &&& final(self).elmts@[k + 1].character == old(self).elmts@[k].character
                    &&& final(self).elmts@[k + 1].whitespace.typed@ == t.skip(off)
                    &&& final(self).elmts@[k + 1].whitespace.virtual_newlines == old(
                        self,
                    ).elmts@[k].whitespace.virtual_newlines
                    &&& final(self).elmts@[k + 1].whitespace.virtual_spaces == old(
                        self,
                    ).elmts@[k].whitespace.virtual_spaces
                    &&& final(self).cursor.0 == k + 1
                    &&& final(self).cursor.1 == 0
                }
            }),
    {
        let k = self.cursor.0;
        let off = self.cursor.1;
        if c == '\n' || c == ' ' {
            let ghost pre = self.elmts@;
            let mut e = self.elmts.remove(k);
            let wsc = if c == '\n' {
                WhitespaceChar::Newline
            } else {
                WhitespaceChar::Space
            };
            e.whitespace.typed.insert(off, wsc);
            let new_len = e.whitespace.typed.len();
            let ghost efinal = e;
            self.elmts.insert(k, e);
            self.cursor = (k, off + 1);
            proof {
                assert(self.elmts@ =~= pre.update(k as int, efinal));
                lemma_virtual_total_congruent(pre, self.elmts@);
            }
        } else {
            let n = self.elmts.len();
            proof {
                assert(k < n);
            }
            let ghost pre = self.elmts@;
            let old_e = self.elmts.remove(k);
            let ch = old_e.character;
            let Whitespace { typed: mut left_typed, virtual_newlines: vn, virtual_spaces: vs } =
                old_e.whitespace;
            let right_typed = left_typed.split_off(off);
            let new_e = Elmt {
                character: Some(c),
                whitespace: Whitespace { typed: left_typed, virtual_newlines: 0, virtual_spaces: 0 },
            };
            let rest_e = Elmt {
                character: ch,
                whitespace: Whitespace {
                    typed: right_typed,
                    virtual_newlines: vn,
                    virtual_spaces: vs,
                },
            };
            let ghost new_eg = new_e;
            let ghost rest_eg = rest_e;
            self.elmts.insert(k, rest_e);
            self.elmts.insert(k, new_e);
            self.cursor = (k + 1, 0);
            proof {
                assert(self.elmts@ =~= pre.take(k as int) + seq![new_eg, rest_eg] + pre.skip(
                    k as int + 1,
                ));
                lemma_virtual_total_split(pre, k as int);
                lemma_virtual_total_split(self.elmts@, k as int);
                lemma_virtual_total_split(self.elmts@.skip(k as int + 1), 0);
                assert(self.elmts@.take(k as int) =~= pre.take(k as int));
                assert(self.elmts@.skip(k as int + 1).skip(1) =~= pre.skip(k as int + 1));
                assert(self.elmts@.skip(k as int + 1).take(0) =~= Seq::<Elmt>::empty());
                assert(virtual_total(Seq::<Elmt>::empty()) == 0);
                assert(virtual_total(self.elmts@) == virtual_total(pre));
            }
        }
    }

    /// Deletes the symbol immediately before the cursor. Inside a run it
    /// removes one typed whitespace symbol; at a run's first slot it deletes
    /// the previous element's character and fuses the two adjoining runs,
    /// adding their virtual newline counts and combining virtual spaces only
    /// when no virtual newline stands between them. A no-op at the start of
    /// the buffer.
    #[verifier::rlimit(50)]
    pub fn backspace(&mut self)
        requires
            old(self).wf(),
        ensures
            final(self).wf(),
            ({
                let k = old(self).cursor.0 as int;
                let off = old(self).cursor.1 as int;
                let n = old(self).elmts@.len() as int;
                if off > 0 {
                    &&& final(self).elmts@.len() == n
                    &&& (forall|i: int|
                        0 <= i < n && i != k ==> #[trigger] final(self).elmts@[i] == old(
                            self,
                        ).elmts@[i])
                    &&& final(self).elmts@[k].character == old(self).elmts@[k].character
                    &&& final(self).elmts@[k].whitespace.virtual_newlines == old(
                        self,
                    ).elmts@[k].whitespace.virtual_newlines
                    &&& final(self).elmts@[k].whitespace.virtual_spaces == old(
                        self,
                    ).elmts@[k].whitespace.virtual_spaces
                    &&& final(self).elmts@[k].whitespace.typed@ == old(
                        self,
                    ).elmts@[k].whitespace.typed@.remove(off - 1)
                    &&& final(self).cursor.0 == k
                    &&& final(self).cursor.1 == off - 1
                } else if k > 0 {
                    let prev = old(self).elmts@[k - 1].whitespace;
                    let cur = old(self).elmts@[k].whitespace;
                    &&& final(self).elmts@.len() == n - 1
                    &&& (forall|i: int|
                        0 <= i < k - 1 ==> #[trigger] final(self).elmts@[i] == old(
                            self,
                        ).elmts@[i])
                    &&& (forall|i: int|
                        k - 1 < i < n - 1 ==> #[trigger] final(self).elmts@[i] == old(
                            self,
                        ).elmts@[i + 1])
                    &&& final(self).elmts@[k - 1].character == old(self).elmts@[k].character
                    &&& final(self).elmts@[k - 1].whitespace.typed@ == prev.typed@ + cur.typed@
                    &&& final(self).elmts@[k - 1].whitespace.virtual_newlines
                        == prev.virtual_newlines + cur.virtual_newlines
                    &&& final(self).elmts@[k - 1].whitespace.virtual_spaces == (
                    if cur.virtual_newlines == 0 {
                        prev.virtual_spaces + cur.virtual_spaces
                    } else {
                        cur.virtual_spaces as int
                    })
                    &&& final(self).cursor.0 == k - 1
                    &&& final(self).cursor.1 == prev.typed@.len()
                } else {
                    &&& final(self).elmts == old(self).elmts
                    &&& final(self).cursor == old(self).cursor
                }
            }),
    {
        let k = self.cursor.0;
        let off = self.cursor.1;
        if off > 0 {
            let ghost pre = self.elmts@;
            let mut e = self.elmts.remove(k);
            e.whitespace.typed.remove(off - 1);
            let ghost efinal = e;
            self.elmts.insert(k, e);
            self.cursor = (k, off - 1);
            proof {
                assert(self.elmts@ =~= pre.update(k as int, efinal));
                lemma_virtual_total_congruent(pre, self.elmts@);
            }
        } else if k > 0 {
            let ghost pre = self.elmts@;
            proof {
                lemma_virtual_total_split(pre, k - 1);
                lemma_virtual_total_split(pre.skip(k as int), 0);
                assert(pre.skip(k as int)[0] == pre[k as int]);
                assert(pre.skip(k as int).take(0) =~= Seq::<Elmt>::empty());
                assert(virtual_total(Seq::<Elmt>::empty()) == 0);
            }
            let prev = self.elmts.remove(k - 1);
            let cur = self.elmts.remove(k - 1);
            let new_off = prev.whitespace.typed.len();
            let pvn = prev.whitespace.virtual_newlines;
            let pvs = prev.whitespace.virtual_spaces;
            let cvn = cur.whitespace.virtual_newlines;
            let cvs = cur.whitespace.virtual_spaces;
            let mut merged_typed = prev.whitespace.typed;
            let mut right_typed = cur.whitespace.typed;
            merged_typed.append(&mut right_typed);
            let merged = Elmt {
                character: cur.character,
                whitespace: Whitespace {
                    typed: merged_typed,
                    virtual_newlines: pvn + cvn,
                    virtual_spaces: if cvn == 0 {
                        pvs + cvs
                    } else {
                        cvs
                    },
                },
            };
            let ghost mergedg = merged;
            self.elmts.insert(k - 1, merged);
            self.cursor = (k - 1, new_off);
            proof {
                assert(self.elmts@ =~= pre.take(k - 1) + seq![mergedg] + pre.skip(k as int + 1));
                lemma_virtual_total_split(self.elmts@, k - 1);
                assert(self.elmts@.take(k - 1) =~= pre.take(k - 1));
                assert(self.elmts@.skip(k as int) =~= pre.skip(k as int + 1));
                assert(pre.skip(k as int).skip(1) =~= pre.skip(k as int + 1));
                assert(virtual_total(self.elmts@) <= virtual_total(pre));
            }
        }
    }

    /// Deletes forward from the cursor, mirroring backspace. Inside a run it
    /// removes the typed whitespace symbol at the cursor. At a run's last
    /// slot, when the run's virtual extension is nonempty the caret first
    /// crosses it: the extension becomes typed whitespace (the rendering is
    /// unchanged) and the cursor moves past it. Otherwise the current
    /// element's character is deleted and its run fuses with the next
    /// element's run, under the same virtual-count rule as backspace, the
    /// cursor staying put. A no-op at the last slot of the sentinel.
    #[verifier::rlimit(50)]
    pub fn delete(&mut self)
        requires
            old(self).wf(),
        ensures
            final(self).wf(),
            ({
                let k = old(self).cursor.0 as int;
                let off = old(self).cursor.1 as int;
                let n = old(self).elmts@.len() as int;
                let t = old(self).elmts@[k].whitespace.typed@;
                let ext = ws_extension(old(self).elmts@[k].whitespace);
                if off < t.len() {
                    &&& final(self).elmts@.len() == n
                    &&& (forall|i: int|
                        0 <= i < n && i != k ==> #[trigger] final(self).elmts@[i] == old(
                            self,
                        ).elmts@[i])
                    &&& final(self).elmts@[k].character == old(self).elmts@[k].character
                    &&& final(self).elmts@[k].whitespace.virtual_newlines == old(
                        self,
                    ).elmts@[k].whitespace.virtual_newlines
                    &&& final(self).elmts@[k].whitespace.virtual_spaces == old(
                        self,
                    ).elmts@[k].whitespace.virtual_spaces
                    &&& final(self).elmts@[k].whitespace.typed@ == t.remove(off)
                    &&& final(self).cursor == old(self).cursor
                } else if k == n - 1 {
                    &&& final(self).elmts == old(self).elmts
                    &&& final(self).cursor == old(self).cursor
                } else if ext.len() > 0 {
                    &&& final(self).elmts@.len() == n
                    &&& (forall|i: int|
                        0 <= i < n && i != k ==> #[trigger] final(self).elmts@[i] == old(
                            self,
                        ).elmts@[i])
                    &&& final(self).elmts@[k].character == old(self).elmts@[k].character
                    &&& final(self).elmts@[k].whitespace.virtual_newlines == old(
                        self,
                    ).elmts@[k].whitespace.virtual_newlines
                    &&& final(self).elmts@[k].whitespace.virtual_spaces == old(
                        self,
                    ).elmts@[k].whitespace.virtual_spaces
                    &&& final(self).elmts@[k].whitespace.typed@ == t + ext
                    &&& final(self).cursor.0 == k
                    &&& final(self).cursor.1 == t.len() + ext.len()
                } else {
                    let cur = old(self).elmts@[k].whitespace;
                    let next = old(self).elmts@[k + 1].whitespace;
                    &&& final(self).elmts@.len() == n - 1
                    &&& (forall|i: int|
                        0 <= i < k ==> #[trigger] final(self).elmts@[i] == old(self).elmts@[i])
                    &&& (forall|i: int|
                        k < i < n - 1 ==> #[trigger] final(self).elmts@[i] == old(
                            self,
                        ).elmts@[i + 1])
                    &&& final(self).elmts@[k].character == old(self).elmts@[k + 1].character
                    &&& final(self).elmts@[k].whitespace.typed@ == cur.typed@ + next.typed@
                    &&& final(self).elmts@[k].whitespace.virtual_newlines == cur.virtual_newlines
                        + next.virtual_newlines
                    &&& final(self).elmts@[k].whitespace.virtual_spaces == (
                    if next.virtual_newlines == 0 {
                        cur.virtual_spaces + next.virtual_spaces
                    } else {
                        next.virtual_spaces as int
                    })
                    &&& final(self).cursor == old(self).cursor
                }
            }),
    {
        let k = self.cursor.0;
        let off = self.cursor.1;
        let n = self.elmts.len();
        let typed_len = self.elmts[k].whitespace.typed.len();
        if off < typed_len {
            let ghost pre = self.elmts@;
            let mut e = self.elmts.remove(k);
            e.whitespace.typed.remove(off);
            let ghost efinal = e;
            self.elmts.insert(k, e);
            proof {
                assert(self.elmts@ =~= pre.update(k as int, efinal));
                lemma_virtual_total_congruent(pre, self.elmts@);
            }
        } else if k == n - 1 {
            // The caret sits at the very end of the buffer: nothing follows.
        } else {
            let tn = count_typed_newlines(&self.elmts[k].whitespace.typed);
            let sll = count_spaces_last_line(&self.elmts[k].whitespace.typed);
            let vnl = self.elmts[k].whitespace.virtual_newlines;
            let vsp = self.elmts[k].whitespace.virtual_spaces;
            if tn < vnl {
                let ghost pre = self.elmts@;
                let mut e = self.elmts.remove(k);
                let ghost t0 = e.whitespace.typed@;
                let extra = vnl - tn;
                let mut j: usize = 0;
                while j < extra
                    invariant
                        j <= extra,
                        e.character == pre[k as int].character,
                        e.whitespace.virtual_newlines == pre[k as int].whitespace.virtual_newlines,
                        e.whitespace.virtual_spaces == pre[k as int].whitespace.virtual_spaces,
                        e.whitespace.typed@ == t0 + Seq::new(
                            j as nat,
                            |i: int| WhitespaceChar::Newline,
                        ),
                    decreases extra - j,
                {
                    e.whitespace.typed.push(WhitespaceChar::Newline);
                    proof {
                        assert(e.whitespace.typed@ =~= t0 + Seq::new(
                            (j + 1) as nat,
                            |i: int| WhitespaceChar::Newline,
                        ));
                    }
                    j = j + 1;
                }
                let ghost t1 = e.whitespace.typed@;
                let mut m: usize = 0;
                while m < vsp
                    invariant
                        m <= vsp,
                        e.character == pre[k as int].character,
                        e.whitespace.virtual_newlines == pre[k as int].whitespace.virtual_newlines,
                        e.whitespace.virtual_spaces == pre[k as int].whitespace.virtual_spaces,
                        e.whitespace.typed@ == t1 + Seq::new(
                            m as nat,
                            |i: int| WhitespaceChar::Space,
                        ),
                    decreases vsp - m,
                {
                    e.whitespace.typed.push(WhitespaceChar::Space);
                    proof {
                        assert(e.whitespace.typed@ =~= t1 + Seq::new(
                            (m + 1) as nat,
                            |i: int| WhitespaceChar::Space,
                        ));
                    }
                    m = m + 1;
                }
                let new_off = e.whitespace.typed.len();
                let ghost efinal = e;
                self.elmts.insert(k, e);
                self.cursor = (k, new_off);
                proof {
                    assert(efinal.whitespace.typed@ =~= t0 + ws_extension(pre[k as int].whitespace));
                    assert(self.elmts@ =~= pre.update(k as int, efinal));
                    lemma_virtual_total_congruent(pre, self.elmts@);
                }
            } else if tn == vnl && sll < vsp {
                let ghost pre = self.elmts@;
                let mut e = self.elmts.remove(k);
                let ghost t0 = e.whitespace.typed@;
                let extra = vsp - sll;
                let mut m: usize = 0;
                while m < extra
                    invariant
                        m <= extra,
                        e.character == pre[k as int].character,
                        e.whitespace.virtual_newlines == pre[k as int].whitespace.virtual_newlines,
                        e.whitespace.virtual_spaces == pre[k as int].whitespace.virtual_spaces,
                        e.whitespace.typed@ == t0 + Seq::new(
                            m as nat,
                            |i: int| WhitespaceChar::Space,
                        ),
                    decreases extra - m,
                {
                    e.whitespace.typed.push(WhitespaceChar::Space);
                    proof {
                        assert(e.whitespace.typed@ =~= t0 + Seq::new(
                            (m + 1) as nat,
                            |i: int| WhitespaceChar::Space,
                        ));
                    }
                    m = m + 1;
                }
                let new_off = e.whitespace.typed.len();
                let ghost efinal = e;
                self.elmts.insert(k, e);
                self.cursor = (k, new_off);
                proof {
                    assert(efinal.whitespace.typed@ =~= t0 + ws_extension(pre[k as int].whitespace));
                    assert(self.elmts@ =~= pre.update(k as int, efinal));
                    lemma_virtual_total_congruent(pre, self.elmts@);
                }
            } else {
                let ghost pre = self.elmts@;
                proof {
                    assert(ws_extension(pre[k as int].whitespace) =~= Seq::<WhitespaceChar>::empty());
                    lemma_virtual_total_split(pre, k as int);
                    lemma_virtual_total_split(pre.skip(k as int + 1), 0);
                    assert(pre.skip(k as int + 1)[0] == pre[k as int + 1]);
                    assert(pre.skip(k as int + 1).take(0) =~= Seq::<Elmt>::empty());
                    assert(virtual_total(Seq::<Elmt>::empty()) == 0);
                    assert(pre.skip(k as int + 1).skip(1) =~= pre.skip(k as int + 2));
                }
                let cur = self.elmts.remove(k);
                let next = self.elmts.remove(k);
                let cvn = cur.whitespace.virtual_newlines;
                let cvs = cur.whitespace.virtual_spaces;
                let nvn = next.whitespace.virtual_newlines;
                let nvs = next.whitespace.virtual_spaces;
                let mut merged_typed = cur.whitespace.typed;
                let mut right_typed = next.whitespace.typed;
                merged_typed.append(&mut right_typed);
                let merged = Elmt {
                    character: next.character,
                    whitespace: Whitespace {
                        typed: merged_typed,
                        virtual_newlines: cvn + nvn,
                        virtual_spaces: if nvn == 0 {
                            cvs + nvs
                        } else {
                            nvs
                        },
                    },
                };
                let ghost mergedg = merged;
                self.elmts.insert(k, merged);
                proof {
                    assert(self.elmts@ =~= pre.take(k as int) + seq![mergedg] + pre.skip(
                        k as int + 2,
                    ));
                    lemma_virtual_total_split(self.elmts@, k as int);
                    assert(self.elmts@.take(k as int) =~= pre.take(k as int));
                    assert(self.elmts@.skip(k as int + 1) =~= pre.skip(k as int + 2));
                    assert(virtual_total(self.elmts@) <= virtual_total(pre));
                }
            }
        }
    }
}

} // verus!
