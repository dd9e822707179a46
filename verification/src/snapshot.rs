//! Snapshot builder: a stateful sink that the emulation engine visits once
//! per visible cell, in increasing row order and left to right within a
//! row, and that accumulates the cells into rows of attribute-coalesced
//! text runs, serialized afterwards as one JSON array of rows.

use vstd::prelude::*;

use crate::attr::{json_of_attr, spec_attr_new, Attribute, RawAttribute};
use crate::color::ColorResolutionError;
use crate::json::{chars_to_string, join_comma, json_string, lemma_join_comma_push, push_json_string};

verus! {

/// One run of consecutive cells sharing an attribute.
pub struct CellRun {
    /// The run's characters, left to right; never empty.
    pub text: Vec<char>,
    /// The attribute all the run's cells share.
    pub attr: Attribute,
}

/// Spec-level form of a run: its character sequence and attribute.
#[verifier::ext_equal]
pub struct RunModel {
    pub text: Seq<char>,
    pub attr: Attribute,
}

impl View for CellRun {
    type V = RunModel;

    open spec fn view(&self) -> RunModel {
        RunModel { text: self.text@, attr: self.attr }
    }
}

/// Spec-level form of one row of runs.
pub open spec fn row_view(row: Vec<CellRun>) -> Seq<RunModel> {
    Seq::new(row@.len(), |j: int| row@[j]@)
}

/// The run a single cell starts.
pub open spec fn spec_run(c: char, a: Attribute) -> RunModel {
    RunModel { text: seq![c], attr: a }
}

/// A well-formed row: at least one run, no empty run text, and no two
/// adjacent runs with equal attributes (maximal coalescing).
pub open spec fn wf_row(row: Seq<RunModel>) -> bool {
    &&& row.len() > 0
    &&& forall|j: int| 0 <= j < row.len() ==> (#[trigger] row[j]).text.len() > 0
    &&& forall|j: int| 0 < j < row.len() ==> (#[trigger] row[j]).attr != row[j - 1].attr
}

/// A well-formed snapshot: every row well formed.
pub open spec fn wf_snapshot(s: Seq<Seq<RunModel>>) -> bool {
    forall|i: int| 0 <= i < s.len() ==> wf_row(#[trigger] s[i])
}

/// The last run of the last row extended by one character.
pub open spec fn merge_last_run(s: Seq<Seq<RunModel>>, c: char) -> Seq<Seq<RunModel>>
    recommends
        s.len() > 0 && s.last().len() > 0,
{
    let row = s.last();
    let run = row.last();
    s.update(
        s.len() - 1,
        row.update(row.len() - 1, RunModel { text: run.text.push(c), attr: run.attr }),
    )
}

/// The last row extended by a fresh one-cell run.
pub open spec fn append_run(s: Seq<Seq<RunModel>>, c: char, a: Attribute) -> Seq<Seq<RunModel>>
    recommends
        s.len() > 0,
{
    s.update(s.len() - 1, s.last().push(spec_run(c, a)))
}

/// One cell delivered by the engine, placed into the snapshot: a cell whose
/// row index equals the number of rows built starts a new row; any other
/// cell lands in the last row, merged into its last run when the attributes
/// are equal and as a fresh run otherwise. The builder trusts the engine's
/// monotonic row-major delivery and never re-sorts.
pub open spec fn add_cell(s: Seq<Seq<RunModel>>, c: char, row: nat, a: Attribute) -> Seq<
    Seq<RunModel>,
>
    recommends
        row == s.len() || s.len() > 0,
{
    if row == s.len() {
        s.push(seq![spec_run(c, a)])
    } else if s.last().len() > 0 && s.last().last().attr == a {
        merge_last_run(s, c)
    } else {
        append_run(s, c, a)
    }
}

/// The builder's state: the rows accumulated so far, top to bottom.
pub struct State {
    /// Rows of coalesced runs, index-aligned with the engine's row
    /// coordinate.
    pub rendered: Vec<Vec<CellRun>>,
}

impl View for State {
    type V = Seq<Seq<RunModel>>;

    open spec fn view(&self) -> Seq<Seq<RunModel>> {
        Seq::new(self.rendered@.len(), |i: int| row_view(self.rendered@[i]))
    }
}

/// A codec failure while placing one cell: a character code outside the
/// Unicode scalar range, or a color that fails palette resolution. Both are
/// data-integrity errors in what the engine delivered.
#[derive(Clone, Copy, PartialEq, Eq, Structural, Debug)]
pub enum DrawError {
    InvalidCharCode(u32),
    Color(ColorResolutionError),
}

/// Whether a code point is a Unicode scalar value.
pub open spec fn is_unicode_scalar(code: u32) -> bool {
    code < 0xD800 || (0xE000 <= code && code <= 0x10FFFF)
}

/// The character a cell's code stands for: code 0 is a blank and maps to
/// the space character, any other code maps to the character it denotes,
/// and a code outside the scalar range maps to nothing.
pub open spec fn spec_decode_char(code: u32) -> Option<char> {
    if code == 0 {
        Some(' ')
    } else if is_unicode_scalar(code) {
        Some(code as char)
    } else {
        None
    }
}

/// Relies on `char::from_u32`: `Some` exactly on Unicode scalar values
/// (not a surrogate, at most 0x10FFFF), and the character carries the
/// given code.
pub assume_specification[ char::from_u32 ](code: u32) -> (r: Option<char>)
    ensures
        r is Some <==> is_unicode_scalar(code),
        r matches Some(c) ==> c as u32 == code,
;

/// Decodes a cell's character code, mapping the blank code 0 to a space.
pub fn decode_char(code: u32) -> (r: Option<char>)
    ensures
        r == spec_decode_char(code),
{
    if code == 0 {
        Some(' ')
    } else {
        let r = char::from_u32(code);
        proof {
            if is_unicode_scalar(code) {
                let c = r->Some_0;
                vstd::utf8::char_u32_cast(c, code);
            }
        }
        r
    }
}

/// What placing one cell returns and leaves behind, on every input: the
/// raw attribute is resolved first, then the character code decoded, and
/// only when both succeed is the cell added; a failure reports the reason
/// and leaves the snapshot unchanged.
pub open spec fn spec_draw(s: Seq<Seq<RunModel>>, ch: u32, row: nat, raw: RawAttribute) -> (
    Result<(), DrawError>,
    Seq<Seq<RunModel>>,
) {
    match spec_attr_new(raw) {
        Err(e) => (Err(DrawError::Color(e)), s),
        Ok(a) => match spec_decode_char(ch) {
            None => (Err(DrawError::InvalidCharCode(ch)), s),
            Some(c) => (Ok(()), add_cell(s, c, row, a)),
        },
    }
}

impl State {
    /// A builder with no rows yet; one is made fresh per snapshot request.
    pub fn new() -> (s: State)
        ensures
            s@ == Seq::<Seq<RunModel>>::empty(),
    {
        let s = State { rendered: Vec::new() };
        proof {
            assert(s@ =~= Seq::<Seq<RunModel>>::empty());
        }
        s
    }

    /// Appends the character to the last run of the last row when that
    /// run's attribute equals the cell's, and reports whether it did.
    pub fn push_if_same(&mut self, ch: char, attr: Attribute) -> (added: bool)
        requires
            old(self)@.len() > 0,
            old(self)@.last().len() > 0,
        ensures
            added == (old(self)@.last().last().attr == attr),
            added ==> final(self)@ == merge_last_run(old(self)@, ch),
            !added ==> final(self)@ == old(self)@,
    {
        let ghost s0 = self@;
        let mut row = self.rendered.pop().unwrap();
        let mut run = row.pop().unwrap();
        proof {
            assert(run@ == s0.last().last());
        }
        if run.attr == attr {
            run.text.push(ch);
            row.push(run);
            self.rendered.push(row);
            proof {
                assert(self@ =~~= merge_last_run(s0, ch));
            }
            true
        } else {
            row.push(run);
            self.rendered.push(row);
            proof {
                assert(self@ =~~= s0);
            }
            false
        }
    }

    /// Starts a fresh run holding just this cell at the end of the last
    /// row.
    pub fn push_new_cell(&mut self, ch: char, attr: Attribute)
        requires
            old(self)@.len() > 0,
        ensures
            final(self)@ == append_run(old(self)@, ch, attr),
    {
        let ghost s0 = self@;
        let mut row = self.rendered.pop().unwrap();
        let mut text: Vec<char> = Vec::new();
        text.push(ch);
        row.push(CellRun { text, attr });
        self.rendered.push(row);
        proof {
            assert(self@ =~~= append_run(s0, ch, attr));
        }
    }

    /// Starts a fresh row holding just this cell.
    fn push_new_row(&mut self, ch: char, attr: Attribute)
        ensures
            final(self)@ == old(self)@.push(seq![spec_run(ch, attr)]),
    {
        let ghost s0 = self@;
        let mut text: Vec<char> = Vec::new();
        text.push(ch);
        let mut row: Vec<CellRun> = Vec::new();
        row.push(CellRun { text, attr });
        self.rendered.push(row);
        proof {
            assert(self@ =~~= s0.push(seq![spec_run(ch, attr)]));
        }
    }

    /// Places one cell as the engine's enumeration delivers it: decodes the
    /// character code, resolves the raw attribute, and adds the cell to the
    /// snapshot. A codec failure leaves the state unchanged; it is malformed
    /// engine output, fatal to the snapshot pass.
    pub fn draw_cell(&mut self, ch: u32, posy: u32, attr: &RawAttribute) -> (res: Result<
        (),
        DrawError,
    >)
        requires
            posy as nat == old(self)@.len() || old(self)@.len() > 0,
            wf_snapshot(old(self)@),
        ensures
            res == spec_draw(old(self)@, ch, posy as nat, *attr).0,
            final(self)@ == spec_draw(old(self)@, ch, posy as nat, *attr).1,
            res is Ok ==> wf_snapshot(final(self)@),
    {
        let attribute = match Attribute::new(*attr) {
            Ok(a) => a,
            Err(e) => {
                return Err(DrawError::Color(e));
            },
        };
        let current_char = match decode_char(ch) {
            Some(c) => c,
            None => {
                return Err(DrawError::InvalidCharCode(ch));
            },
        };
        let rows = self.rendered.len();
        proof {
            assert(rows == self@.len());
        }
        if rows as u64 == posy as u64 {
            self.push_new_row(current_char, attribute);
            proof {
                lemma_add_row_preserves_wf(old(self)@, current_char, attribute);
            }
        } else {
            proof {
                assert(wf_row(old(self)@[old(self)@.len() - 1]));
            }
            let added = self.push_if_same(current_char, attribute);
            if !added {
                self.push_new_cell(current_char, attribute);
            }
            proof {
                lemma_add_to_last_row_preserves_wf(old(self)@, current_char, attribute);
                assert(final(self)@ == add_cell(old(self)@, current_char, posy as nat, attribute));
            }
        }
        Ok(())
    }
}

/// Starting a new row preserves snapshot well-formedness.
proof fn lemma_add_row_preserves_wf(s: Seq<Seq<RunModel>>, c: char, a: Attribute)
    requires
        wf_snapshot(s),
    ensures
        wf_snapshot(s.push(seq![spec_run(c, a)])),
{
    let s2 = s.push(seq![spec_run(c, a)]);
    assert forall|i: int| 0 <= i < s2.len() implies wf_row(#[trigger] s2[i]) by {
        if i < s.len() {
            assert(wf_row(s[i]));
        } else {
            assert(s2[i] == seq![spec_run(c, a)]);
        }
    }
}

/// Adding a cell to the last row — merged into the last run or as a fresh
/// run — preserves snapshot well-formedness.
proof fn lemma_add_to_last_row_preserves_wf(s: Seq<Seq<RunModel>>, c: char, a: Attribute)
    requires
        wf_snapshot(s),
        s.len() > 0,
    ensures
        s.last().last().attr == a ==> wf_snapshot(merge_last_run(s, c)),
        s.last().last().attr != a ==> wf_snapshot(append_run(s, c, a)),
{
    let row = s.last();
    assert(wf_row(row));
    if row.last().attr == a {
        let s2 = merge_last_run(s, c);
        let row2 = row.update(
            row.len() - 1,
            RunModel { text: row.last().text.push(c), attr: row.last().attr },
        );
        assert(wf_row(row2));
        assert forall|i: int| 0 <= i < s2.len() implies wf_row(#[trigger] s2[i]) by {
            if i < s.len() - 1 {
                assert(wf_row(s[i]));
            }
        }
    } else {
        let s2 = append_run(s, c, a);
        let row2 = row.push(spec_run(c, a));
        assert(wf_row(row2));
        assert forall|i: int| 0 <= i < s2.len() implies wf_row(#[trigger] s2[i]) by {
            if i < s.len() - 1 {
                assert(wf_row(s[i]));
            }
        }
    }
}

/// A cell placed by `add_cell` never leaves two adjacent runs with equal
/// attributes in any row: well-formedness, coalescing included, is
/// preserved for every cell the engine may deliver.
pub proof fn lemma_add_cell_preserves_wf(s: Seq<Seq<RunModel>>, c: char, row: nat, a: Attribute)
    requires
        wf_snapshot(s),
        row == s.len() || s.len() > 0,
    ensures
        wf_snapshot(add_cell(s, c, row, a)),
{
    if row == s.len() {
        lemma_add_row_preserves_wf(s, c, a);
    } else {
        lemma_add_to_last_row_preserves_wf(s, c, a);
    }
}

/// Feeding two adjacent cells of one row with identical attributes never
/// produces two separate runs: the second cell always merges into the run
/// the first one landed in, so the run count stays the same and only that
/// run's text grows.
pub proof fn lemma_equal_attr_merges(s: Seq<Seq<RunModel>>, c1: char, c2: char, row: nat, a: Attribute)
    requires
        wf_snapshot(s),
        row == s.len() || s.len() > 0,
    ensures
        ({
            let s1 = add_cell(s, c1, row, a);
            let s2 = add_cell(s1, c2, row, a);
            &&& s2.len() == s1.len()
            &&& s2.last().len() == s1.last().len()
            &&& s2.last().last().text == s1.last().last().text.push(c2)
        }),
{
    let s1 = add_cell(s, c1, row, a);
    lemma_add_cell_preserves_wf(s, c1, row, a);
    assert(s1.len() > 0);
    assert(s1.last().last().attr == a);
    assert(row != s1.len());
    let s2 = add_cell(s1, c2, row, a);
    assert(s2 == merge_last_run(s1, c2));
}


/// One run serialized as the pair `[text, attributes]`.
pub open spec fn json_of_run(r: RunModel) -> Seq<char> {
    seq!['['] + json_string(r.text) + seq![','] + json_of_attr(r.attr) + seq![']']
}

/// The serialized runs of one row, in order.
pub open spec fn runs_json(row: Seq<RunModel>) -> Seq<Seq<char>> {
    Seq::new(row.len(), |j: int| json_of_run(row[j]))
}

/// One row serialized as the array of its run pairs.
pub open spec fn json_of_row(row: Seq<RunModel>) -> Seq<char> {
    seq!['['] + join_comma(runs_json(row)) + seq![']']
}

/// The serialized rows of a snapshot, top to bottom.
pub open spec fn rows_json(s: Seq<Seq<RunModel>>) -> Seq<Seq<char>> {
    Seq::new(s.len(), |i: int| json_of_row(s[i]))
}

/// A snapshot serialized as the array of its rows.
pub open spec fn json_of_state(s: Seq<Seq<RunModel>>) -> Seq<char> {
    seq!['['] + join_comma(rows_json(s)) + seq![']']
}

/// Appends one run as `[text, attributes]`.
fn encode_run_into(out: &mut Vec<char>, run: &CellRun)
    ensures
        final(out)@ == old(out)@ + json_of_run(run@),
{
    out.push('[');
    push_json_string(out, &run.text);
    out.push(',');
    run.attr.encode_into(out);
    out.push(']');
    assert(out@ =~= old(out)@ + json_of_run(run@));
}

/// Appends one row as the array of its run pairs.
fn encode_row_into(out: &mut Vec<char>, row: &Vec<CellRun>)
    ensures
        final(out)@ == old(out)@ + json_of_row(row_view(*row)),
{
    let ghost rj = runs_json(row_view(*row));
    out.push('[');
    let mut j: usize = 0;
    while j < row.len()
        invariant
            j <= row.len(),
            rj == runs_json(row_view(*row)),
            rj.len() == row@.len(),
            out@ == old(out)@ + seq!['['] + join_comma(rj.subrange(0, j as int)),
        decreases row.len() - j,
    {
        let ghost prefix = rj.subrange(0, j as int);
        proof {
            lemma_join_comma_push(prefix, rj[j as int]);
            assert(rj.subrange(0, j + 1) =~= prefix.push(rj[j as int]));
            assert(rj[j as int] == json_of_run(row@[j as int]@));
        }
        if j > 0 {
            out.push(',');
        }
        encode_run_into(out, &row[j]);
        proof {
            assert(out@ =~= old(out)@ + seq!['['] + join_comma(rj.subrange(0, j + 1)));
        }
        j = j + 1;
    }
    proof {
        assert(rj.subrange(0, rj.len() as int) =~= rj);
    }
    out.push(']');
    assert(out@ =~= old(out)@ + json_of_row(row_view(*row)));
}

impl State {
    /// Serializes the completed snapshot as one JSON array of rows, each
    /// row an array of `[text, attributes]` pairs.
    pub fn encode(&self) -> (r: String)
        ensures
            r@ == json_of_state(self@),
    {
        let ghost rs = rows_json(self@);
        let mut out: Vec<char> = Vec::new();
        out.push('[');
        let mut i: usize = 0;
        while i < self.rendered.len()
            invariant
                i <= self.rendered.len(),
                rs == rows_json(self@),
                rs.len() == self.rendered@.len(),
                out@ == seq!['['] + join_comma(rs.subrange(0, i as int)),
            decreases self.rendered.len() - i,
        {
            let ghost prefix = rs.subrange(0, i as int);
            proof {
                lemma_join_comma_push(prefix, rs[i as int]);
                assert(rs.subrange(0, i + 1) =~= prefix.push(rs[i as int]));
                assert(rs[i as int] == json_of_row(self@[i as int]));
                assert(self@[i as int] == row_view(self.rendered@[i as int]));
            }
            if i > 0 {
                out.push(',');
            }
            encode_row_into(&mut out, &self.rendered[i]);
            proof {
                assert(out@ =~= seq!['['] + join_comma(rs.subrange(0, i + 1)));
            }
            i = i + 1;
        }
        proof {
            assert(rs.subrange(0, rs.len() as int) =~= rs);
        }
        out.push(']');
        assert(out@ =~= json_of_state(self@));
        chars_to_string(&out)
    }
}

} // verus!
