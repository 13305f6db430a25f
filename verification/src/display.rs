//! The drawing operations, to be executed on a terminal.
use crate::mission::HelpPage;
use crate::report::LineType;
use crate::scroll::Area;
use crate::tline::{TLine, TStringModel};
use vstd::prelude::*;

verus! {

/// The colors and styles of the status bar: the ansi values of the text, of
/// its background, and of the parts in italic (which are drawn bold).
#[derive(Clone, Copy)]
pub struct StatusSkin {
    pub paragraph_fg: u8,
    pub paragraph_bg: u8,
    pub italic_fg: u8,
}

/// The skin of the status bar.
pub open spec fn status_skin() -> StatusSkin {
    StatusSkin { paragraph_fg: 252, paragraph_bg: 239, italic_fg: 204 }
}

/// A part of a line of markdown, with its style.
pub struct Span {
    pub src: String,
    pub bold: bool,
    pub italic: bool,
    pub code: bool,
    pub strikeout: bool,
}

/// The content of a [`Span`].
#[verifier::ext_equal]
pub struct SpanModel {
    pub src: Seq<char>,
    pub bold: bool,
    pub italic: bool,
    pub code: bool,
    pub strikeout: bool,
}

impl View for Span {
    type V = SpanModel;

    open spec fn view(&self) -> SpanModel {
        SpanModel {
            src: self.src@,
            bold: self.bold,
            italic: self.italic,
            code: self.code,
            strikeout: self.strikeout,
        }
    }
}

/// The content of spans.
pub open spec fn spans_model(spans: Seq<Span>) -> Seq<SpanModel> {
    spans.map_values(|span: Span| span@)
}

/// The compounds `termimad::minimad::Composite::from_inline` makes of a line
/// of markdown.
pub uninterp spec fn inline_spans(markdown: Seq<char>) -> Seq<SpanModel>;

/// `termimad::minimad::Composite::from_inline`: the compounds of the line of
/// markdown, in order, each one with its source and its style. The style of
/// the composite itself, which is always the one of a paragraph, is left out.
#[verifier::external_body]
pub(crate) fn parse_inline(markdown: &str) -> (r: Vec<Span>)
    ensures
        spans_model(r@) == inline_spans(markdown@),
{
    termimad::minimad::Composite::from_inline(markdown)
        .compounds
        .iter()
        .map(|compound| Span {
            src: compound.src.to_string(),
            bold: compound.bold,
            italic: compound.italic,
            code: compound.code,
            strikeout: compound.strikeout,
        })
        .collect()
}

/// Something to do on the terminal.
pub enum DrawOp {
    /// go to the start of a row
    Goto(u16),
    /// clear the end of the row
    ClearLine,
    /// write spans, left aligned, filling the width with the skin
    Status { spans: Vec<Span>, width: u16, skin: StatusSkin },
    /// draw a line of badges in at most `width` columns
    Badges { badges: TLine, width: u16 },
    /// write some text as is
    Write(String),
    /// draw the marker of a line of a report or, when it isn't for the first
    /// row of the line, leave its place empty
    Marker { line_type: LineType, item_idx: usize, cols: usize, first: bool },
    /// draw a line in at most `cols` columns
    Text { content: TLine, cols: usize },
    /// draw the characters `start..end` of a line
    SubText { content: TLine, start: usize, end: usize },
    /// draw a part of the thumb of the scrollbar
    Thumb { x: u16, y: u16 },
    /// the report is wholly drawn: nothing to do on the terminal
    ReportDrawn,
    /// draw the help page
    HelpPage { page: HelpPage, area: Area },
    /// send to the terminal what has been written
    Flush,
}

/// The content of a [`DrawOp`].
#[verifier::ext_equal]
pub enum OpModel {
    Goto(u16),
    ClearLine,
    Status { spans: Seq<SpanModel>, width: u16, skin: StatusSkin },
    Badges { badges: Seq<TStringModel>, width: u16 },
    Write(Seq<char>),
    Marker { line_type: LineType, item_idx: usize, cols: usize, first: bool },
    Text { content: Seq<TStringModel>, cols: usize },
    SubText { content: Seq<TStringModel>, start: usize, end: usize },
    Thumb { x: u16, y: u16 },
    ReportDrawn,
    HelpPage { page: HelpPage, area: Area },
    Flush,
}

impl View for DrawOp {
    type V = OpModel;

    open spec fn view(&self) -> OpModel {
        match self {
            DrawOp::Goto(y) => OpModel::Goto(*y),
            DrawOp::ClearLine => OpModel::ClearLine,
            DrawOp::Status { spans, width, skin } => OpModel::Status {
                spans: spans_model(spans@),
                width: *width,
                skin: *skin,
            },
            DrawOp::Badges { badges, width } => OpModel::Badges { badges: badges@, width: *width },
            DrawOp::Write(text) => OpModel::Write(text@),
            DrawOp::Marker { line_type, item_idx, cols, first } => OpModel::Marker {
                line_type: *line_type,
                item_idx: *item_idx,
                cols: *cols,
                first: *first,
            },
            DrawOp::Text { content, cols } => OpModel::Text { content: content@, cols: *cols },
            DrawOp::SubText { content, start, end } => OpModel::SubText {
                content: content@,
                start: *start,
                end: *end,
            },
            DrawOp::Thumb { x, y } => OpModel::Thumb { x: *x, y: *y },
            DrawOp::ReportDrawn => OpModel::ReportDrawn,
            DrawOp::HelpPage { page, area } => OpModel::HelpPage { page: *page, area: *area },
            DrawOp::Flush => OpModel::Flush,
        }
    }
}

/// Where things are drawn: the operations to be executed, in order.
pub struct W {
    pub ops: Vec<DrawOp>,
}

impl View for W {
    type V = Seq<OpModel>;

    open spec fn view(&self) -> Seq<OpModel> {
        self.ops@.map_values(|op: DrawOp| op@)
    }
}

impl W {
    /// Builds a writer on which nothing is drawn yet.
    pub fn new() -> (r: W)
        ensures
            r@ == Seq::<OpModel>::empty(),
    {
        let r = W { ops: Vec::new() };
        assert(r@ =~= Seq::<OpModel>::empty());
        r
    }

    /// Adds an operation.
    pub fn push(&mut self, op: DrawOp)
        ensures
            final(self)@ == old(self)@.push(op@),
    {
        self.ops.push(op);
        assert(self@ =~= old(self)@.push(op@));
    }

    /// Writes some text as is.
    pub fn write(&mut self, text: &str)
        ensures
            final(self)@ == old(self)@.push(OpModel::Write(text@)),
    {
        self.push(DrawOp::Write(text.to_owned()));
    }
}

/// Goes to the start of a row.
pub fn goto(w: &mut W, y: u16)
    ensures
        final(w)@ == old(w)@.push(OpModel::Goto(y)),
{
    w.push(DrawOp::Goto(y));
}

/// Clears the end of the row.
pub fn clear_line(w: &mut W)
    ensures
        final(w)@ == old(w)@.push(OpModel::ClearLine),
{
    w.push(DrawOp::ClearLine);
}

} // verus!
