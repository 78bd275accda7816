//! The reconciler: replays a formatter's output against the buffer to
//! refresh every element's virtual whitespace counts.
//!
//! For each element in order, a prefix of the remaining formatted text is
//! consumed: newlines and spaces accumulate into the element's virtual
//! counts, a comma is skipped as noise the formatter may have injected (or
//! the user omitted), the element's own character ends its scan consumed, and
//! any other character ends it unconsumed — a best-effort alignment that
//! leaves later elements under-reconciled rather than failing.

use crate::content::{
    elmts_model, elmts_typed_view, lemma_typed_only_view, parse_elmts, virtual_total, Content, Elmt,
};
use vstd::prelude::*;
use vstd::string::{StrSliceExecFns, StringExecFns};

verus! {

/// One element's scan over the formatted text `s`, starting at position `i`
/// with the counts gathered so far: a newline increments the newline count
/// and resets the space count (only the last line's spaces are kept), a space
/// increments the space count, a comma is skipped, the element's own
/// character is consumed and ends the scan, and any other character (or the
/// end of the text) ends it unconsumed. Returns the final counts and the
/// position where the next element's scan starts.
pub open spec fn scan_ws(ch: Option<char>, s: Seq<char>, i: int, nl: nat, sp: nat) -> (nat, nat, int)
    decreases s.len() - i,
{
    if i < 0 || i >= s.len() {
        (nl, sp, i)
    } else if s[i] == '\n' {
        scan_ws(ch, s, i + 1, nl + 1, 0)
    } else if s[i] == ' ' {
        scan_ws(ch, s, i + 1, nl, sp + 1)
    } else if ch is Some && s[i] == ch->0 {
        (nl, sp, i + 1)
    } else if s[i] == ',' {
        scan_ws(ch, s, i + 1, nl, sp)
    } else {
        (nl, sp, i)
    }
}

/// The characters of a sequence of elements, in order.
pub open spec fn chars_of(es: Seq<Elmt>) -> Seq<Option<char>> {
    es.map_values(|e: Elmt| e.character)
}

/// The virtual counts a reconciliation pass assigns to each element, in
/// order: each element's scan starts where the previous one stopped.
pub open spec fn reconcile_counts(cs: Seq<Option<char>>, s: Seq<char>, i: int) -> Seq<(nat, nat)>
    decreases cs.len(),
{
    if cs.len() == 0 {
        Seq::empty()
    } else {
        let r = scan_ws(cs[0], s, i, 0, 0);
        seq![(r.0, r.1)] + reconcile_counts(cs.drop_first(), s, r.2)
    }
}

/// A reconciliation pass assigns counts to exactly the elements given.
pub proof fn lemma_reconcile_counts_len(cs: Seq<Option<char>>, s: Seq<char>, i: int)
    ensures
        reconcile_counts(cs, s, i).len() == cs.len(),
    decreases cs.len(),
{
    if cs.len() > 0 {
        let r = scan_ws(cs[0], s, i, 0, 0);
        lemma_reconcile_counts_len(cs.drop_first(), s, r.2);
    }
}

impl Content {
    /// Walks the formatted text and overwrites every element's virtual
    /// whitespace counts with what the text shows at that element's position,
    /// leaving the typed content, the characters and the cursor untouched.
    /// Counts from an earlier reconciliation are overwritten wholesale.
    pub fn update_virtual_whitespace_2(&mut self, formatted_input: &str)
        requires
            old(self).wf(),
        ensures
            final(self).wf(),
            final(self).elmts@.len() == old(self).elmts@.len(),
            final(self).cursor == old(self).cursor,
            ({
                let counts = reconcile_counts(chars_of(old(self).elmts@), formatted_input@, 0);
                forall|i: int|
                    0 <= i < old(self).elmts@.len() ==> {
                        &&& (#[trigger] final(self).elmts@[i]).character == old(
                            self,
                        ).elmts@[i].character
                        &&& final(self).elmts@[i].whitespace.typed == old(
                            self,
                        ).elmts@[i].whitespace.typed
                        &&& final(self).elmts@[i].whitespace.virtual_newlines == counts[i].0
                        &&& final(self).elmts@[i].whitespace.virtual_spaces == counts[i].1
                    }
            }),
    {
        let ghost pre = self.elmts@;
        let ghost s = formatted_input@;
        let ghost full = reconcile_counts(chars_of(pre), s, 0);
        proof {
            lemma_reconcile_counts_len(chars_of(pre), s, 0);
            assert(chars_of(pre).skip(0) =~= chars_of(pre));
            assert(full.skip(0) =~= full);
            assert(self.elmts@.take(0) =~= Seq::<Elmt>::empty());
            assert(virtual_total(Seq::<Elmt>::empty()) == 0);
        }
        let n = formatted_input.unicode_len();
        let mut pos: usize = 0;
        let mut e_idx: usize = 0;
        while e_idx < self.elmts.len()
            invariant
                old(self).wf(),
                pre == old(self).elmts@,
                s == formatted_input@,
                full == reconcile_counts(chars_of(pre), s, 0),
                full.len() == pre.len(),
                n == s.len(),
                pos <= n,
                e_idx <= pre.len(),
                self.elmts@.len() == pre.len(),
                self.cursor == old(self).cursor,
                virtual_total(self.elmts@.take(e_idx as int)) <= pos,
                reconcile_counts(chars_of(pre).skip(e_idx as int), s, pos as int) == full.skip(
                    e_idx as int,
                ),
                forall|i: int| e_idx <= i < pre.len() ==> #[trigger] self.elmts@[i] == pre[i],
                forall|i: int|
                    0 <= i < e_idx ==> {
                        &&& (#[trigger] self.elmts@[i]).character == pre[i].character
                        &&& self.elmts@[i].whitespace.typed == pre[i].whitespace.typed
                        &&& self.elmts@[i].whitespace.virtual_newlines == full[i].0
                        &&& self.elmts@[i].whitespace.virtual_spaces == full[i].1
                    },
            decreases pre.len() - e_idx,
        {
            let ghost pos0 = pos;
            let ch = self.elmts[e_idx].character;
            proof {
                assert(chars_of(pre).skip(e_idx as int)[0] == pre[e_idx as int].character);
            }
            let mut nl: usize = 0;
            let mut sp: usize = 0;
            let mut stop = false;
            while !stop && pos < n
                invariant
                    s == formatted_input@,
                    n == s.len(),
                    pos0 <= pos <= n,
                    nl + sp <= pos - pos0,
                    ch == pre[e_idx as int].character,
                    e_idx < pre.len(),
                    !stop ==> scan_ws(ch, s, pos0 as int, 0, 0) == scan_ws(
                        ch,
                        s,
                        pos as int,
                        nl as nat,
                        sp as nat,
                    ),
                    stop ==> scan_ws(ch, s, pos0 as int, 0, 0) == (nl as nat, sp as nat, pos as int),
                decreases n - pos, (if stop { 0int } else { 1int }),
            {
                let c = formatted_input.get_char(pos);
                if c == '\n' {
                    nl = nl + 1;
                    sp = 0;
                    pos = pos + 1;
                } else if c == ' ' {
                    sp = sp + 1;
                    pos = pos + 1;
                } else {
                    let mut matched = false;
                    if let Some(cc) = ch {
                        if cc == c {
                            matched = true;
                        }
                    }
                    if matched {
                        pos = pos + 1;
                        stop = true;
                    } else if c == ',' {
                        pos = pos + 1;
                    } else {
                        stop = true;
                    }
                }
            }
            proof {
                if !stop {
                    assert(scan_ws(ch, s, pos as int, nl as nat, sp as nat) == (
                        nl as nat,
                        sp as nat,
                        pos as int,
                    ));
                }
                assert(scan_ws(ch, s, pos0 as int, 0, 0) == (nl as nat, sp as nat, pos as int));
            }
            let ghost mid = self.elmts@;
            let mut e = self.elmts.remove(e_idx);
            e.whitespace.virtual_newlines = nl;
            e.whitespace.virtual_spaces = sp;
            let ghost efinal = e;
            self.elmts.insert(e_idx, e);
            proof {
                assert(self.elmts@ =~= mid.update(e_idx as int, efinal));
                let rest = chars_of(pre).skip(e_idx as int);
                assert(rest.len() == pre.len() - e_idx);
                assert(rest.drop_first() =~= chars_of(pre).skip(e_idx as int + 1));
                assert(reconcile_counts(rest, s, pos0 as int) == seq![(nl as nat, sp as nat)]
                    + reconcile_counts(chars_of(pre).skip(e_idx as int + 1), s, pos as int));
                assert(full.skip(e_idx as int).drop_first() =~= full.skip(e_idx as int + 1));
                assert(full[e_idx as int] == full.skip(e_idx as int)[0]);
                assert(full[e_idx as int] == (nl as nat, sp as nat));
                assert(reconcile_counts(chars_of(pre).skip(e_idx as int + 1), s, pos as int)
                    == full.skip(e_idx as int + 1));
                assert(self.elmts@.take(e_idx as int + 1) =~= self.elmts@.take(e_idx as int).push(
                    efinal,
                ));
                assert(self.elmts@.take(e_idx as int) =~= mid.take(e_idx as int));
                crate::content::lemma_virtual_total_push(self.elmts@.take(e_idx as int), efinal);
            }
            e_idx = e_idx + 1;
        }
        proof {
            assert(self.elmts@.take(pre.len() as int) =~= self.elmts@);
            assert(chars_of(pre).skip(pre.len() as int) =~= Seq::<Option<char>>::empty());
            let k0 = self.cursor.0 as int;
            assert(self.elmts@[k0].whitespace.typed == pre[k0].whitespace.typed);
            assert(self.elmts@[pre.len() - 1].character == pre[pre.len() - 1].character);
        }
    }

    /// Applies a formatter's result to the buffer, all or nothing: given the
    /// formatted text, every element's virtual whitespace is recomputed
    /// against it and the text is handed back; given none (the formatter
    /// failed), the buffer is left untouched and the literal text `error` is
    /// returned. The caller renders the typed-only content, runs the
    /// formatter outside the buffer, and passes its result here.
    pub fn update_virtual_whitespace(&mut self, formatted: Option<&str>) -> (r: String)
        requires
            old(self).wf(),
        ensures
            final(self).wf(),
            final(self).cursor == old(self).cursor,
            (match formatted {
                Some(f) => {
                    let counts = reconcile_counts(chars_of(old(self).elmts@), f@, 0);
                    &&& r@ == f@
                    &&& final(self).elmts@.len() == old(self).elmts@.len()
                    &&& (forall|i: int|
                        0 <= i < old(self).elmts@.len() ==> {
                            &&& (#[trigger] final(self).elmts@[i]).character == old(
                                self,
                            ).elmts@[i].character
                            &&& final(self).elmts@[i].whitespace.typed == old(
                                self,
                            ).elmts@[i].whitespace.typed
                            &&& final(self).elmts@[i].whitespace.virtual_newlines == counts[i].0
                            &&& final(self).elmts@[i].whitespace.virtual_spaces == counts[i].1
                        })
                },
                None => {
                    &&& final(self).elmts == old(self).elmts
                    &&& r@ == "error"@
                },
            }),
    {
        match formatted {
            Some(f) => {
                self.update_virtual_whitespace_2(f);
                String::from_str(f)
            },
            None => String::from_str("error"),
        }
    }

    /// Builds a buffer from the typed text and reconciles it against the
    /// formatter's output in one step.
    pub fn from_strings(typed: &str, visible: &str) -> (c: Content)
        ensures
            c.wf(),
            elmts_typed_view(c.elmts@) == typed@,
            elmts_model(c.elmts@) == parse_elmts(typed@, 0, Seq::empty()),
            c.cursor == (0usize, 0usize),
            ({
                let counts = reconcile_counts(chars_of(c.elmts@), visible@, 0);
                forall|i: int|
                    0 <= i < c.elmts@.len() ==> (#[trigger] c.elmts@[i]).whitespace.virtual_newlines
                        == counts[i].0 && c.elmts@[i].whitespace.virtual_spaces == counts[i].1
            }),
    {
        let mut content = Content::from_string(typed);
        let ghost built = content.elmts@;
        proof {
            lemma_typed_only_view(built);
        }
        content.update_virtual_whitespace_2(visible);
        proof {
            assert(chars_of(content.elmts@) =~= chars_of(built));
            assert(elmts_model(content.elmts@) =~= elmts_model(built));
            crate::content::lemma_typed_view_congruent(content.elmts@, built);
        }
        content
    }
}

} // verus!
