//! Value types the editing backend supplies: lines, styles, and the diff
//! operations of an update message. The transport that parses them off the
//! wire is outside this crate; here they are plain values.

use vstd::prelude::*;

verus! {

/// One style annotation of a line: a character offset (relative to the end
/// of the previous annotation, possibly negative), a length, and the
/// identifier of a registered style.
#[derive(Clone, Copy, PartialEq, Eq, Structural, Debug)]
pub struct StyleDef {
    pub offset: i64,
    pub length: u64,
    pub style_id: u64,
}

/// A style definition registered by the backend: an identifier and the
/// display attributes a renderer may apply.
#[derive(Clone, Copy, PartialEq, Eq, Structural, Debug)]
pub struct Style {
    pub id: u64,
    pub fg_color: Option<u32>,
    pub bg_color: Option<u32>,
    pub weight: Option<u32>,
    pub italic: Option<bool>,
    pub underline: Option<bool>,
}

/// One line of the document as the backend describes it: its text, the
/// column offsets of any carets sitting on it, and its style annotations.
/// Within the cache a line is only ever moved whole, merged with a
/// metadata replacement, or trimmed of one trailing newline.
pub struct Line {
    pub text: String,
    pub cursor: Vec<u64>,
    pub styles: Vec<StyleDef>,
}

/// Mathematical image of a [`Line`]: the same three fields as sequences.
#[verifier::ext_equal]
pub struct LineModel {
    pub text: Seq<char>,
    pub cursor: Seq<u64>,
    pub styles: Seq<StyleDef>,
}

impl View for Line {
    type V = LineModel;

    open spec fn view(&self) -> LineModel {
        LineModel { text: self.text@, cursor: self.cursor@, styles: self.styles@ }
    }
}

/// The image of a whole line buffer.
pub open spec fn line_models(s: Seq<Line>) -> Seq<LineModel> {
    s.map_values(|l: Line| l@)
}

/// One step of a backend-declared transformation of the line buffer.
pub enum Operation {
    /// Move the next `n` lines of the old buffer to the new one, unchanged.
    Copy(u64),
    /// Discard the next `n` lines of the old buffer.
    Skip(u64),
    /// Mark `n` lines as currently unknown, before or after the content.
    Invalidate(u64),
    /// Append brand-new lines, each trimmed of one trailing newline.
    Insert(Vec<Line>),
    /// Consume `n` old lines and replace their caret and style metadata
    /// with the supplied lines', keeping the old text.
    Update(u64, Vec<Line>),
}

/// Mathematical image of an [`Operation`].
pub enum OpModel {
    Copy(u64),
    Skip(u64),
    Invalidate(u64),
    Insert(Seq<LineModel>),
    Update(u64, Seq<LineModel>),
}

impl View for Operation {
    type V = OpModel;

    open spec fn view(&self) -> OpModel {
        match self {
            Operation::Copy(n) => OpModel::Copy(*n),
            Operation::Skip(n) => OpModel::Skip(*n),
            Operation::Invalidate(n) => OpModel::Invalidate(*n),
            Operation::Insert(lines) => OpModel::Insert(line_models(lines@)),
            Operation::Update(n, lines) => OpModel::Update(*n, line_models(lines@)),
        }
    }
}

/// The images of an operation sequence.
pub open spec fn op_models(s: Seq<Operation>) -> Seq<OpModel> {
    s.map_values(|op: Operation| op@)
}

/// One update message from the backend: the ordered operations that turn
/// the present line buffer into the next one.
pub struct Update {
    pub operations: Vec<Operation>,
}

/// Copies a caret-offset vector element by element.
pub fn copy_offsets(v: &Vec<u64>) -> (r: Vec<u64>)
    ensures
        r@ == v@,
{
    let mut r: Vec<u64> = Vec::new();
    let n = v.len();
    let mut i: usize = 0;
    while i < n
        invariant
            i <= n,
            n == v@.len(),
            r@ =~= v@.take(i as int),
        decreases n - i,
    {
        r.push(v[i]);
        i += 1;
    }
    proof {
        assert(r@ =~= v@);
    }
    r
}

/// Copies a style-annotation vector element by element.
pub fn copy_styles(v: &Vec<StyleDef>) -> (r: Vec<StyleDef>)
    ensures
        r@ == v@,
{
    let mut r: Vec<StyleDef> = Vec::new();
    let n = v.len();
    let mut i: usize = 0;
    while i < n
        invariant
            i <= n,
            n == v@.len(),
            r@ =~= v@.take(i as int),
        decreases n - i,
    {
        r.push(v[i]);
        i += 1;
    }
    proof {
        assert(r@ =~= v@);
    }
    r
}

impl Clone for Line {
    /// A clone carries the same text, carets and styles.
    fn clone(&self) -> (res: Line)
        ensures
            res@ == self@,
    {
        let res = Line {
            text: self.text.clone(),
            cursor: copy_offsets(&self.cursor),
            styles: copy_styles(&self.styles),
        };
        proof {
            assert(res@ =~= self@);
        }
        res
    }
}

} // verus!
