//! The line cache and the diff engine that rewrites it.
//!
//! The cache mirrors a contiguous block of the remote document. Each
//! update message carries ordered diff operations; applying them builds a
//! new buffer from the old one front to back and recomputes how many
//! document lines before and after the block are currently unknown.

use crate::protocol::{line_models, op_models, Line, LineModel, OpModel, Operation, Update};
use vstd::prelude::*;
use vstd::string::*;

verus! {

/// A text with a single trailing newline removed; any other text is kept
/// as it is.
pub open spec fn trim_text(t: Seq<char>) -> Seq<char> {
    if t.len() > 0 && t.last() == '\n' {
        t.drop_last()
    } else {
        t
    }
}

/// A line with its text trimmed of a single trailing newline.
pub open spec fn trim_line(l: LineModel) -> LineModel {
    LineModel { text: trim_text(l.text), ..l }
}

/// An old line whose caret and style metadata were replaced by a
/// supplied line's, while its text is kept.
pub open spec fn merge_line(old_l: LineModel, repl: LineModel) -> LineModel {
    LineModel { text: old_l.text, cursor: repl.cursor, styles: repl.styles }
}

/// Removes exactly one trailing newline from `text`, if there is one.
pub fn trim_new_line(text: &mut String)
    ensures
        final(text)@ == trim_text(old(text)@),
{
    let n = text.as_str().unicode_len();
    if n > 0 {
        let c = text.as_str().get_char(n - 1);
        if c == '\n' {
            let t = text.as_str().substring_char(0, n - 1);
            *text = t.to_owned();
            proof {
                assert(text@ =~= trim_text(old(text)@));
            }
        }
    }
}

/// The state a diff application threads through its operations: what is
/// left of the old buffer, the new buffer built so far, and the two
/// invalid counters.
#[verifier::ext_equal]
pub struct CacheModel {
    pub old: Seq<LineModel>,
    pub new: Seq<LineModel>,
    pub invalid_before: u64,
    pub invalid_after: u64,
}

/// The state at the start of an update: the whole old buffer is still
/// unconsumed, nothing is built, and both counters are reset to zero.
pub open spec fn init_model(old: Seq<LineModel>) -> CacheModel {
    CacheModel { old, new: Seq::empty(), invalid_before: 0, invalid_after: 0 }
}

/// How many lines an operation asking for `n` may actually draw from the
/// `rem` still unconsumed: requests past the end are bounded by what is
/// available.
pub open spec fn capped(n: u64, rem: nat) -> nat {
    if n as nat <= rem {
        n as nat
    } else {
        rem
    }
}

/// One operation applied to the build state.
///
/// `Copy` moves the next lines over unchanged and `Skip` discards them,
/// both bounded by what is left of the old buffer. `Invalidate` sets the
/// leading counter while the new buffer is still empty and the trailing
/// counter afterwards; a later `Invalidate` overwrites, never accumulates.
/// `Insert` appends the supplied lines trimmed of one trailing newline.
/// `Update` consumes the next lines and appends them with their caret and
/// style metadata replaced by the supplied lines', pairing positionally
/// and stopping at the shorter side.
pub open spec fn apply_op(st: CacheModel, op: OpModel) -> CacheModel {
    match op {
        OpModel::Copy(n) => {
            let k = capped(n, st.old.len());
            CacheModel { old: st.old.skip(k as int), new: st.new + st.old.take(k as int), ..st }
        },
        OpModel::Skip(n) => {
            let k = capped(n, st.old.len());
            CacheModel { old: st.old.skip(k as int), ..st }
        },
        OpModel::Invalidate(n) => {
            if st.new.len() == 0 {
                CacheModel { invalid_before: n, ..st }
            } else {
                CacheModel { invalid_after: n, ..st }
            }
        },
        OpModel::Insert(ls) => {
            CacheModel { new: st.new + ls.map_values(|l: LineModel| trim_line(l)), ..st }
        },
        OpModel::Update(n, ls) => {
            let consumed = capped(n, st.old.len());
            let paired = if ls.len() <= consumed {
                ls.len()
            } else {
                consumed
            };
            CacheModel {
                old: st.old.skip(consumed as int),
                new: st.new + Seq::new(paired, |i: int| merge_line(st.old[i], ls[i])),
                ..st
            }
        },
    }
}

/// The operations of one update message applied in order.
pub open spec fn apply_ops(st: CacheModel, ops: Seq<OpModel>) -> CacheModel
    decreases ops.len(),
{
    if ops.len() == 0 {
        st
    } else {
        apply_ops(apply_op(st, ops[0]), ops.skip(1))
    }
}

/// The state an update message leaves behind, starting from a freshly
/// reset cache holding `old`.
pub open spec fn cache_after(old: Seq<LineModel>, ops: Seq<OpModel>) -> CacheModel {
    apply_ops(init_model(old), ops)
}

proof fn lemma_apply_ops_push(st: CacheModel, ops: Seq<OpModel>, op: OpModel)
    ensures
        apply_ops(st, ops.push(op)) == apply_op(apply_ops(st, ops), op),
    decreases ops.len(),
{
    if ops.len() == 0 {
        assert(ops.push(op)[0] == op);
        assert(ops.push(op).skip(1) =~= Seq::<OpModel>::empty());
        assert(apply_ops(apply_op(st, op), Seq::<OpModel>::empty()) == apply_op(st, op));
    } else {
        assert(ops.push(op)[0] == ops[0]);
        assert(ops.push(op).skip(1) =~= ops.skip(1).push(op));
        lemma_apply_ops_push(apply_op(st, ops[0]), ops.skip(1), op);
    }
}

proof fn lemma_apply_ops_take_succ(st: CacheModel, ops: Seq<OpModel>, i: int)
    requires
        0 <= i < ops.len(),
    ensures
        apply_ops(st, ops.take(i + 1)) == apply_op(apply_ops(st, ops.take(i)), ops[i]),
{
    assert(ops.take(i + 1) =~= ops.take(i).push(ops[i]));
    lemma_apply_ops_push(st, ops.take(i), ops[i]);
}

/// How many lines the operations leave in the rebuilt buffer when `rem`
/// old lines are available: `Copy` and `Update` contribute what they may
/// draw (bounded by availability, and for `Update` also by the supplied
/// lines), `Insert` contributes all its lines, `Skip` and `Invalidate`
/// contribute none.
pub open spec fn produced_count(rem: nat, ops: Seq<OpModel>) -> nat
    decreases ops.len(),
{
    if ops.len() == 0 {
        0
    } else {
        let rest = ops.skip(1);
        match ops[0] {
            OpModel::Copy(n) => {
                let k = capped(n, rem);
                k + produced_count((rem - k) as nat, rest)
            },
            OpModel::Skip(n) => {
                let k = capped(n, rem);
                produced_count((rem - k) as nat, rest)
            },
            OpModel::Invalidate(_) => produced_count(rem, rest),
            OpModel::Insert(ls) => ls.len() + produced_count(rem, rest),
            OpModel::Update(n, ls) => {
                let k = capped(n, rem);
                let p = if ls.len() <= k {
                    ls.len()
                } else {
                    k
                };
                p + produced_count((rem - k) as nat, rest)
            },
        }
    }
}

proof fn lemma_apply_ops_new_len(st: CacheModel, ops: Seq<OpModel>)
    ensures
        apply_ops(st, ops).new.len() == st.new.len() + produced_count(st.old.len(), ops),
    decreases ops.len(),
{
    if ops.len() > 0 {
        lemma_apply_ops_new_len(apply_op(st, ops[0]), ops.skip(1));
    }
}

/// Conservation law: an update leaves in the buffer exactly the lines
/// that `Copy` and `Update` drew over, bounded by availability, plus all
/// inserted lines; `Skip` and `Invalidate` never contribute a line.
pub proof fn lemma_update_conservation(old_lines: Seq<LineModel>, ops: Seq<OpModel>)
    ensures
        cache_after(old_lines, ops).new.len() == produced_count(old_lines.len(), ops),
{
    lemma_apply_ops_new_len(init_model(old_lines), ops);
}

proof fn lemma_apply_ops_keep_counters(st: CacheModel, ops: Seq<OpModel>)
    requires
        forall|i: int| 0 <= i < ops.len() ==> !(ops[i] is Invalidate),
    ensures
        apply_ops(st, ops).invalid_before == st.invalid_before,
        apply_ops(st, ops).invalid_after == st.invalid_after,
    decreases ops.len(),
{
    if ops.len() > 0 {
        assert(forall|i: int|
            0 <= i < ops.skip(1).len() ==> !(#[trigger] ops.skip(1)[i] is Invalidate));
        lemma_apply_ops_keep_counters(apply_op(st, ops[0]), ops.skip(1));
    }
}

/// Reset law: the counters describe only the most recent update, so one
/// whose operations hold no `Invalidate` leaves a fully valid state.
pub proof fn lemma_no_invalidate_fully_valid(old_lines: Seq<LineModel>, ops: Seq<OpModel>)
    requires
        forall|i: int| 0 <= i < ops.len() ==> !(ops[i] is Invalidate),
    ensures
        cache_after(old_lines, ops).invalid_before == 0,
        cache_after(old_lines, ops).invalid_after == 0,
{
    lemma_apply_ops_keep_counters(init_model(old_lines), ops);
}

/// Idempotent-prefix law: one `Copy` covering the whole buffer
/// reproduces its content, with both invalid counters zero.
pub proof fn lemma_copy_all_is_identity(old_lines: Seq<LineModel>, n: u64)
    requires
        n as nat == old_lines.len(),
    ensures
        cache_after(old_lines, seq![OpModel::Copy(n)]).new == old_lines,
        cache_after(old_lines, seq![OpModel::Copy(n)]).invalid_before == 0,
        cache_after(old_lines, seq![OpModel::Copy(n)]).invalid_after == 0,
{
    let ops = seq![OpModel::Copy(n)];
    let st0 = init_model(old_lines);
    let st1 = apply_op(st0, ops[0]);
    assert(ops.skip(1) =~= Seq::<OpModel>::empty());
    assert(apply_ops(st0, ops) == apply_ops(st1, ops.skip(1)));
    assert(apply_ops(st1, Seq::<OpModel>::empty()) == st1);
    assert(Seq::<LineModel>::empty() + old_lines.take(old_lines.len() as int) =~= old_lines);
}

/// Tie-break law: of two `Invalidate` runs separated by an insertion,
/// the one seen while the new buffer was still empty sets the leading
/// counter and the later one the trailing counter, whatever the prior
/// buffer held.
pub proof fn lemma_invalidate_tie_break(old_lines: Seq<LineModel>, l1: LineModel)
    ensures
        ({
            let res = cache_after(
                old_lines,
                seq![OpModel::Invalidate(3), OpModel::Insert(seq![l1]), OpModel::Invalidate(2)],
            );
            &&& res.invalid_before == 3
            &&& res.new == seq![trim_line(l1)]
            &&& res.invalid_after == 2
        }),
{
    let ops = seq![OpModel::Invalidate(3), OpModel::Insert(seq![l1]), OpModel::Invalidate(2)];
    let st0 = init_model(old_lines);
    let st1 = apply_op(st0, ops[0]);
    let st2 = apply_op(st1, ops[1]);
    let st3 = apply_op(st2, ops[2]);
    assert(ops.skip(1) =~= seq![OpModel::Insert(seq![l1]), OpModel::Invalidate(2)]);
    assert(ops.skip(1).skip(1) =~= seq![OpModel::Invalidate(2)]);
    assert(ops.skip(1).skip(1).skip(1) =~= Seq::<OpModel>::empty());
    assert(ops.skip(1)[0] == ops[1]);
    assert(ops.skip(1).skip(1)[0] == ops[2]);
    assert(apply_ops(st0, ops) == apply_ops(st1, ops.skip(1)));
    assert(apply_ops(st1, ops.skip(1)) == apply_ops(st2, ops.skip(1).skip(1)));
    assert(apply_ops(st2, ops.skip(1).skip(1)) == apply_ops(st3, ops.skip(1).skip(1).skip(1)));
    assert(apply_ops(st3, Seq::<OpModel>::empty()) == st3);
    assert(cache_after(old_lines, ops) == st3);
    assert(st2.new =~= seq![trim_line(l1)]) by {
        assert(seq![l1].map_values(|l: LineModel| trim_line(l)) =~= seq![trim_line(l1)]);
    }
}

/// Merge law: an `Update` of the buffer's first line keeps that line's
/// text and takes the supplied line's caret and style metadata.
pub proof fn lemma_update_merges_metadata(
    old_line: LineModel,
    rest: Seq<LineModel>,
    repl: LineModel,
)
    ensures
        cache_after(seq![old_line] + rest, seq![OpModel::Update(1, seq![repl])]).new == seq![
            LineModel { text: old_line.text, cursor: repl.cursor, styles: repl.styles },
        ],
{
    let ops = seq![OpModel::Update(1, seq![repl])];
    let st0 = init_model(seq![old_line] + rest);
    let st1 = apply_op(st0, ops[0]);
    assert(ops.skip(1) =~= Seq::<OpModel>::empty());
    assert((seq![old_line] + rest)[0] == old_line);
    assert(st1.new =~= seq![merge_line(old_line, repl)]);
    assert(apply_ops(st0, ops) == apply_ops(st1, ops.skip(1)));
    assert(apply_ops(st1, Seq::<OpModel>::empty()) == st1);
    assert(cache_after(seq![old_line] + rest, ops) == st1);
}

/// The local mirror of the visible block of the document: the known
/// lines, preceded by `invalid_before` and followed by `invalid_after`
/// document lines that are currently unknown.
pub struct LineCache {
    pub invalid_before: u64,
    pub lines: Vec<Line>,
    pub invalid_after: u64,
}

impl LineCache {
    /// An empty cache: no lines, nothing invalid.
    pub fn new() -> (c: LineCache)
        ensures
            c.invalid_before == 0,
            c.lines@.len() == 0,
            c.invalid_after == 0,
    {
        LineCache { invalid_before: 0, lines: Vec::new(), invalid_after: 0 }
    }

    /// Whether the cache holds no line at all.
    pub fn is_empty(&self) -> (r: bool)
        ensures
            r == (self.lines@.len() == 0),
    {
        self.lines.is_empty()
    }

    /// Applies one update message: the buffer is replaced by the result
    /// of the ordered operations and both invalid counters are recomputed
    /// from scratch, exactly as [`cache_after`] describes.
    pub fn update(&mut self, update: &Update)
        ensures
            ({
                let res = cache_after(line_models(old(self).lines@), op_models(update.operations@));
                &&& line_models(final(self).lines@) == res.new
                &&& final(self).invalid_before == res.invalid_before
                &&& final(self).invalid_after == res.invalid_after
            }),
    {
        let mut helper = UpdateHelper {
            old_lines: Vec::new(),
            pos: 0,
            new_lines: Vec::new(),
            invalid_before: 0,
            invalid_after: 0,
        };
        core::mem::swap(&mut helper.old_lines, &mut self.lines);
        let ghost ops_m: Seq<OpModel> = op_models(update.operations@);
        let ghost init: CacheModel = helper.model();
        proof {
            assert(init =~= init_model(line_models(old(self).lines@)));
            assert(ops_m.take(0) =~= Seq::<OpModel>::empty());
        }
        let n_ops = update.operations.len();
        let mut i: usize = 0;
        while i < n_ops
            invariant
                i <= n_ops,
                n_ops == update.operations@.len(),
                ops_m == op_models(update.operations@),
                helper.wf(),
                helper.model() == apply_ops(init, ops_m.take(i as int)),
                init == init_model(line_models(old(self).lines@)),
            decreases n_ops - i,
        {
            proof {
                lemma_apply_ops_take_succ(init, ops_m, i as int);
                assert(ops_m[i as int] == update.operations@[i as int]@);
            }
            let op = &update.operations[i];
            match op {
                Operation::Copy(n) => helper.apply_copy(*n),
                Operation::Skip(n) => helper.apply_skip(*n),
                Operation::Invalidate(n) => helper.apply_invalidate(*n),
                Operation::Insert(lines) => helper.apply_insert(lines),
                Operation::Update(n, lines) => helper.apply_update(*n, lines),
            }
            i += 1;
        }
        proof {
            assert(ops_m.take(n_ops as int) =~= ops_m);
        }
        self.lines = helper.new_lines;
        self.invalid_before = helper.invalid_before;
        self.invalid_after = helper.invalid_after;
    }
}

/// The build state of one update in flight: the old buffer with a
/// consumption mark, the new buffer grown so far, and the counters being
/// recomputed. Its methods each apply one operation and track
/// [`apply_op`] exactly.
struct UpdateHelper {
    old_lines: Vec<Line>,
    pos: usize,
    new_lines: Vec<Line>,
    invalid_before: u64,
    invalid_after: u64,
}

impl UpdateHelper {
    spec fn wf(&self) -> bool {
        self.pos <= self.old_lines@.len()
    }

    spec fn model(&self) -> CacheModel {
        CacheModel {
            old: line_models(self.old_lines@.skip(self.pos as int)),
            new: line_models(self.new_lines@),
            invalid_before: self.invalid_before,
            invalid_after: self.invalid_after,
        }
    }

    /// How many of the next `nb_lines` requested are actually there.
    fn available(&self, nb_lines: u64) -> (k: usize)
        requires
            self.wf(),
        ensures
            k as nat == capped(nb_lines, self.model().old.len()),
            self.pos + k <= self.old_lines@.len(),
            self.pos + k <= usize::MAX,
    {
        let rem = self.old_lines.len() - self.pos;
        if nb_lines <= rem as u64 {
            nb_lines as usize
        } else {
            rem
        }
    }

    /// Moves the next `nb_lines` old lines to the back of the new buffer,
    /// unchanged and bounded by what is left.
    #[verifier::loop_isolation(false)]
    fn apply_copy(&mut self, nb_lines: u64)
        requires
            old(self).wf(),
        ensures
            final(self).wf(),
            final(self).model() == apply_op(old(self).model(), OpModel::Copy(nb_lines)),
    {
        let k = self.available(nb_lines);
        let mut j: usize = 0;
        while j < k
            invariant
                j <= k,
                self.old_lines@ == old(self).old_lines@,
                self.pos == old(self).pos,
                self.invalid_before == old(self).invalid_before,
                self.invalid_after == old(self).invalid_after,
                line_models(self.new_lines@) =~= line_models(old(self).new_lines@) + line_models(
                    self.old_lines@.subrange(self.pos as int, self.pos + j as int),
                ),
            decreases k - j,
        {
            let ghost prev = self.new_lines@;
            let line = self.old_lines[self.pos + j].clone();
            self.new_lines.push(line);
            proof {
                assert(line_models(self.new_lines@) =~= line_models(prev).push(line@));
                assert(line_models(
                    self.old_lines@.subrange(self.pos as int, self.pos + (j + 1) as int),
                ) =~= line_models(
                    self.old_lines@.subrange(self.pos as int, self.pos + j as int),
                ).push(line@));
            }
            j += 1;
        }
        self.pos = self.pos + k;
        proof {
            assert(self.model() =~= apply_op(old(self).model(), OpModel::Copy(nb_lines)));
        }
    }

    /// Discards the next `nb_lines` old lines, bounded by what is left.
    fn apply_skip(&mut self, nb_lines: u64)
        requires
            old(self).wf(),
        ensures
            final(self).wf(),
            final(self).model() == apply_op(old(self).model(), OpModel::Skip(nb_lines)),
    {
        let k = self.available(nb_lines);
        self.pos = self.pos + k;
        proof {
            assert(self.model() =~= apply_op(old(self).model(), OpModel::Skip(nb_lines)));
        }
    }

    /// Records `nb_lines` unknown lines: before the content while the new
    /// buffer is still empty, after it otherwise.
    fn apply_invalidate(&mut self, nb_lines: u64)
        requires
            old(self).wf(),
        ensures
            final(self).wf(),
            final(self).model() == apply_op(old(self).model(), OpModel::Invalidate(nb_lines)),
    {
        if self.new_lines.is_empty() {
            self.invalid_before = nb_lines;
        } else {
            self.invalid_after = nb_lines;
        }
        proof {
            assert(self.model() =~= apply_op(old(self).model(), OpModel::Invalidate(nb_lines)));
        }
    }

    /// Appends brand-new lines, each trimmed of one trailing newline.
    #[verifier::loop_isolation(false)]
    fn apply_insert(&mut self, lines: &Vec<Line>)
        requires
            old(self).wf(),
        ensures
            final(self).wf(),
            final(self).model() == apply_op(old(self).model(), OpModel::Insert(line_models(lines@))),
    {
        let n = lines.len();
        let mut j: usize = 0;
        while j < n
            invariant
                j <= n,
                self.old_lines@ == old(self).old_lines@,
                self.pos == old(self).pos,
                self.invalid_before == old(self).invalid_before,
                self.invalid_after == old(self).invalid_after,
                line_models(self.new_lines@) =~= line_models(old(self).new_lines@) + line_models(
                    lines@,
                ).take(j as int).map_values(|l: LineModel| trim_line(l)),
            decreases n - j,
        {
            let ghost prev = self.new_lines@;
            let mut line = lines[j].clone();
            trim_new_line(&mut line.text);
            proof {
                assert(line@ =~= trim_line(lines@[j as int]@));
            }
            self.new_lines.push(line);
            proof {
                assert(line_models(self.new_lines@) =~= line_models(prev).push(line@));
                assert(line_models(lines@).take(j + 1 as int).map_values(
                    |l: LineModel| trim_line(l),
                ) =~= line_models(lines@).take(j as int).map_values(
                    |l: LineModel| trim_line(l),
                ).push(trim_line(lines@[j as int]@)));
            }
            j += 1;
        }
        proof {
            assert(line_models(lines@).take(n as int) =~= line_models(lines@));
            assert(self.model() =~= apply_op(
                old(self).model(),
                OpModel::Insert(line_models(lines@)),
            ));
        }
    }

    /// Consumes the next `nb_lines` old lines and appends them with their
    /// caret and style metadata replaced by the supplied lines',
    /// pairing positionally and stopping at the shorter side.
    #[verifier::loop_isolation(false)]
    fn apply_update(&mut self, nb_lines: u64, lines: &Vec<Line>)
        requires
            old(self).wf(),
        ensures
            final(self).wf(),
            final(self).model() == apply_op(
                old(self).model(),
                OpModel::Update(nb_lines, line_models(lines@)),
            ),
    {
        let consumed = self.available(nb_lines);
        let paired: usize = if lines.len() <= consumed {
            lines.len()
        } else {
            consumed
        };
        let mut j: usize = 0;
        while j < paired
            invariant
                j <= paired,
                self.old_lines@ == old(self).old_lines@,
                self.pos == old(self).pos,
                self.invalid_before == old(self).invalid_before,
                self.invalid_after == old(self).invalid_after,
                line_models(self.new_lines@) =~= line_models(old(self).new_lines@) + Seq::new(
                    j as nat,
                    |i: int| merge_line(old(self).model().old[i], line_models(lines@)[i]),
                ),
            decreases paired - j,
        {
            let ghost prev = self.new_lines@;
            let merged = Line {
                text: self.old_lines[self.pos + j].text.clone(),
                cursor: crate::protocol::copy_offsets(&lines[j].cursor),
                styles: crate::protocol::copy_styles(&lines[j].styles),
            };
            proof {
                assert(merged@ =~= merge_line(
                    old(self).model().old[j as int],
                    line_models(lines@)[j as int],
                ));
            }
            self.new_lines.push(merged);
            proof {
                assert(line_models(self.new_lines@) =~= line_models(prev).push(merged@));
                assert(Seq::new(
                    (j + 1) as nat,
                    |i: int| merge_line(old(self).model().old[i], line_models(lines@)[i]),
                ) =~= Seq::new(
                    j as nat,
                    |i: int| merge_line(old(self).model().old[i], line_models(lines@)[i]),
                ).push(merge_line(
                    old(self).model().old[j as int],
                    line_models(lines@)[j as int],
                )));
            }
            j += 1;
        }
        self.pos = self.pos + consumed;
        proof {
            assert(self.model() =~= apply_op(
                old(self).model(),
                OpModel::Update(nb_lines, line_models(lines@)),
            ));
        }
    }
}

} // verus!
