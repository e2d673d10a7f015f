//! Turning the events of a markdown body into the events of the published page.
//!
//! The transformation is one forward pass over the events with four modes. In
//! the default mode events pass through and their text is counted. A heading of
//! level 2 or 3, an image, and a fenced block whose language names a directive
//! are each captured: their events are withheld, and when the construct ends
//! one piece of HTML takes their place.

use vstd::prelude::*;
use crate::anchor::{anchor_for, anchors, distinct, lemma_anchor_fresh, unique_anchor};
use crate::post::{toc_view, TocEntry, TocModel};
use crate::text::{html_escape, html_escaped, str_eq};
use crate::words::{add_words, capped_sum, count_words, word_count};

verus! {

/// What `slug::slugify` returns for a text.
pub uninterp spec fn slug_of(text: Seq<char>) -> Seq<char>;

/// Calls `slug::slugify`, which turns a text into lower-case ASCII words joined by
/// `-`. The slug is a function of the text; it is named, not described.
#[verifier::external_body]
pub(crate) fn slugify(text: &str) -> (r: String)
    ensures
        r@ == slug_of(text@),
{
    slug::slugify(text)
}

/// A fenced block that is rendered as a figure, not as code.
#[derive(Clone, Copy, PartialEq, Eq, Structural, Debug)]
pub enum Directive {
    Graph,
    Chart,
    Plot3d,
}

impl Directive {
    /// The directive that the language tag of a fenced block names, if any.
    pub open spec fn of_tag(tag: Seq<char>) -> Option<Directive> {
        if tag == "graph"@ {
            Some(Directive::Graph)
        } else if tag == "chart"@ {
            Some(Directive::Chart)
        } else if tag == "plot3d"@ {
            Some(Directive::Plot3d)
        } else {
            None
        }
    }

    /// The class of the element that wraps the directive's content.
    pub open spec fn class(self) -> Seq<char> {
        match self {
            Directive::Graph => "graph-block"@,
            Directive::Chart => "chart-block"@,
            Directive::Plot3d => "plot3d-block"@,
        }
    }

    /// The directive that the language tag of a fenced block names, if any.
    pub fn from_tag(tag: &str) -> (r: Option<Directive>)
        ensures
            r == Directive::of_tag(tag@),
    {
        if str_eq(tag, "graph") {
            Some(Directive::Graph)
        } else if str_eq(tag, "chart") {
            Some(Directive::Chart)
        } else if str_eq(tag, "plot3d") {
            Some(Directive::Plot3d)
        } else {
            None
        }
    }

    /// The class of the element that wraps the directive's content.
    pub fn css_class(self) -> (r: &'static str)
        ensures
            r@ == self.class(),
    {
        match self {
            Directive::Graph => "graph-block",
            Directive::Chart => "chart-block",
            Directive::Plot3d => "plot3d-block",
        }
    }
}

/// What the transformation reads of one markdown event.
#[derive(Debug)]
pub enum MdToken {
    /// The start of a heading of the given level, 1 to 6.
    HeadingStart(u8),
    /// The end of a heading.
    HeadingEnd(u8),
    /// The start of an image with the given source.
    ImageStart(String),
    /// The end of an image.
    ImageEnd,
    /// The start of a fenced code block with the given language tag.
    FenceStart(String),
    /// The end of a code block.
    CodeBlockEnd,
    /// Text.
    Text(String),
    /// An inline code span.
    Code(String),
    /// Any other event.
    Other,
}

/// The model of an `MdToken`.
pub ghost enum TokenModel {
    HeadingStart(u8),
    HeadingEnd(u8),
    ImageStart(Seq<char>),
    ImageEnd,
    FenceStart(Seq<char>),
    CodeBlockEnd,
    Text(Seq<char>),
    Code(Seq<char>),
    Other,
}

impl View for MdToken {
    type V = TokenModel;

    open spec fn view(&self) -> TokenModel {
        match self {
            MdToken::HeadingStart(l) => TokenModel::HeadingStart(*l),
            MdToken::HeadingEnd(l) => TokenModel::HeadingEnd(*l),
            MdToken::ImageStart(s) => TokenModel::ImageStart(s@),
            MdToken::ImageEnd => TokenModel::ImageEnd,
            MdToken::FenceStart(s) => TokenModel::FenceStart(s@),
            MdToken::CodeBlockEnd => TokenModel::CodeBlockEnd,
            MdToken::Text(s) => TokenModel::Text(s@),
            MdToken::Code(s) => TokenModel::Code(s@),
            MdToken::Other => TokenModel::Other,
        }
    }
}

/// The model of a list of tokens.
pub open spec fn tokens_view(tokens: Seq<MdToken>) -> Seq<TokenModel> {
    tokens.map_values(|t: MdToken| t@)
}

/// What becomes of one event.
#[derive(Debug)]
pub enum Emit {
    /// The event passes through unchanged.
    Keep,
    /// The event is withheld.
    Drop,
    /// This HTML takes the place of the event.
    Html(String),
}

/// The model of an `Emit`.
pub ghost enum EmitModel {
    Keep,
    Drop,
    Html(Seq<char>),
}

impl View for Emit {
    type V = EmitModel;

    open spec fn view(&self) -> EmitModel {
        match self {
            Emit::Keep => EmitModel::Keep,
            Emit::Drop => EmitModel::Drop,
            Emit::Html(s) => EmitModel::Html(s@),
        }
    }
}

/// The model of a list of `Emit`s.
pub open spec fn emits_view(emits: Seq<Emit>) -> Seq<EmitModel> {
    emits.map_values(|e: Emit| e@)
}

/// The capture mode of the transformation.
#[derive(Clone, Copy, PartialEq, Eq, Structural, Debug)]
pub enum Mode {
    Default,
    InHeading(u8),
    InImage,
    InDirective(Directive),
}

/// The state of the transformation between two events.
#[derive(Debug)]
pub struct Transformer {
    pub mode: Mode,
    /// The text captured since the current construct began.
    pub buffer: String,
    /// The source of the image being captured.
    pub source: String,
    /// The headings of levels 2 and 3 seen so far.
    pub toc: Vec<TocEntry>,
    /// The words counted so far, at most `u32::MAX`.
    pub words: u32,
}

/// The model of a `Transformer`.
pub ghost struct TransformerModel {
    pub mode: Mode,
    pub buffer: Seq<char>,
    pub source: Seq<char>,
    pub toc: Seq<TocModel>,
    pub words: int,
}

impl View for Transformer {
    type V = TransformerModel;

    open spec fn view(&self) -> TransformerModel {
        TransformerModel {
            mode: self.mode,
            buffer: self.buffer@,
            source: self.source@,
            toc: toc_view(self.toc@),
            words: self.words as int,
        }
    }
}

/// The heading that replaces a captured heading.
pub open spec fn heading_html(level: u8, id: Seq<char>, text: Seq<char>) -> Seq<char> {
    (if level == 2 {
        "<h2 id=\""@
    } else {
        "<h3 id=\""@
    }) + html_escaped(id) + "\">"@ + html_escaped(text) + (if level == 2 {
        "</h2>\n"@
    } else {
        "</h3>\n"@
    })
}

/// The image that replaces a captured image.
pub open spec fn image_html(source: Seq<char>, alt: Seq<char>) -> Seq<char> {
    "<img src=\""@ + html_escaped(source) + "\" alt=\""@ + html_escaped(alt) + "\" loading=\"lazy\" />"@
}

/// The element that replaces a captured directive block.
pub open spec fn directive_html(directive: Directive, content: Seq<char>) -> Seq<char> {
    "<div class=\""@ + directive.class() + "\">"@ + html_escaped(content) + "</div>\n"@
}

/// The state before the first event.
pub open spec fn initial() -> TransformerModel {
    TransformerModel {
        mode: Mode::Default,
        buffer: Seq::<char>::empty(),
        source: Seq::<char>::empty(),
        toc: Seq::<TocModel>::empty(),
        words: 0,
    }
}

/// The state in which a construct has just begun to be captured.
pub open spec fn capturing(s: TransformerModel, mode: Mode, source: Seq<char>) -> TransformerModel {
    TransformerModel { mode, buffer: Seq::<char>::empty(), source, ..s }
}

/// The state with more text captured.
pub open spec fn captured(s: TransformerModel, text: Seq<char>) -> TransformerModel {
    TransformerModel { buffer: s.buffer + text, ..s }
}

/// The state with the words of a text counted.
pub open spec fn counted(s: TransformerModel, text: Seq<char>) -> TransformerModel {
    TransformerModel { words: capped_sum(s.words, word_count(text) as int), ..s }
}

/// The state after a captured construct has ended.
pub open spec fn released(s: TransformerModel) -> TransformerModel {
    TransformerModel { mode: Mode::Default, buffer: Seq::<char>::empty(), source: Seq::<char>::empty(), ..s }
}

/// The entry of the table of contents for the heading captured in `s`.
pub open spec fn heading_entry(s: TransformerModel, level: u8) -> TocModel {
    TocModel { level, text: s.buffer, id: anchor_for(slug_of(s.buffer), anchors(s.toc)) }
}

/// The state and the output after one event.
pub open spec fn step(s: TransformerModel, t: TokenModel) -> (TransformerModel, EmitModel) {
    match s.mode {
        Mode::Default => match t {
            TokenModel::HeadingStart(level) => if level == 2 || level == 3 {
                (capturing(s, Mode::InHeading(level), Seq::<char>::empty()), EmitModel::Drop)
            } else {
                (s, EmitModel::Keep)
            },
            TokenModel::ImageStart(source) => (capturing(s, Mode::InImage, source), EmitModel::Drop),
            TokenModel::FenceStart(tag) => match Directive::of_tag(tag) {
                Some(d) => (capturing(s, Mode::InDirective(d), Seq::<char>::empty()), EmitModel::Drop),
                None => (s, EmitModel::Keep),
            },
            TokenModel::Text(text) => (counted(s, text), EmitModel::Keep),
            TokenModel::Code(text) => (counted(s, text), EmitModel::Keep),
            _ => (s, EmitModel::Keep),
        },
        Mode::InHeading(level) => match t {
            TokenModel::Text(text) => (captured(s, text), EmitModel::Drop),
            TokenModel::Code(text) => (captured(s, text), EmitModel::Drop),
            TokenModel::HeadingEnd(_) => {
                let entry = heading_entry(s, level);
                (
                    TransformerModel { toc: s.toc.push(entry), ..released(s) },
                    EmitModel::Html(heading_html(level, entry.id, s.buffer)),
                )
            },
            _ => (s, EmitModel::Drop),
        },
        Mode::InImage => match t {
            TokenModel::Text(text) => (captured(s, text), EmitModel::Drop),
            TokenModel::Code(text) => (captured(s, text), EmitModel::Drop),
            TokenModel::ImageEnd => (released(s), EmitModel::Html(image_html(s.source, s.buffer))),
            _ => (s, EmitModel::Drop),
        },
        Mode::InDirective(d) => match t {
            TokenModel::Text(text) => (captured(s, text), EmitModel::Drop),
            TokenModel::CodeBlockEnd => (released(s), EmitModel::Html(directive_html(d, s.buffer))),
            _ => (s, EmitModel::Drop),
        },
    }
}

/// The state after all of `tokens`.
pub open spec fn state_after(tokens: Seq<TokenModel>) -> TransformerModel
    decreases tokens.len(),
{
    if tokens.len() == 0 {
        initial()
    } else {
        step(state_after(tokens.drop_last()), tokens.last()).0
    }
}

/// The output for each of `tokens`, in order.
pub open spec fn emits_of(tokens: Seq<TokenModel>) -> Seq<EmitModel> {
    Seq::new(tokens.len(), |i: int| step(state_after(tokens.take(i)), tokens[i]).1)
}

/// Whether every entry of a table of contents is a heading of level 2 or 3.
pub open spec fn levels_in_range(toc: Seq<TocModel>) -> bool {
    forall|i: int| 0 <= i < toc.len() ==> (#[trigger] toc[i]).level == 2 || toc[i].level == 3
}

/// Whether a state is one that the transformation can reach: a heading is
/// captured only at level 2 or 3, and only such headings are in the table of contents.
pub open spec fn well_formed(s: TransformerModel) -> bool {
    &&& levels_in_range(s.toc)
    &&& distinct(anchors(s.toc))
    &&& s.mode matches Mode::InHeading(level) ==> level == 2 || level == 3
}

/// One event leads from a well-formed state to a well-formed state.
pub proof fn lemma_step_keeps_well_formed(s: TransformerModel, t: TokenModel)
    requires
        well_formed(s),
    ensures
        well_formed(step(s, t).0),
{
    lemma_step_keeps_anchors_distinct(s, t);
    let after = step(s, t).0;
    if after.toc != s.toc {
        let level = s.mode->InHeading_0;
        let entry = heading_entry(s, level);
        assert(after.toc =~= s.toc.push(entry));
        assert forall|i: int| 0 <= i < after.toc.len() implies (#[trigger] after.toc[i]).level == 2
            || after.toc[i].level == 3 by {
            if i < s.toc.len() {
                assert(after.toc[i] == s.toc[i]);
            }
        }
    }
}

/// The table of contents holds headings of the levels 2 and 3 only, with distinct
/// anchors, whatever the events are.
pub proof fn lemma_table_of_contents(tokens: Seq<TokenModel>)
    ensures
        well_formed(state_after(tokens)),
    decreases tokens.len(),
{
    if tokens.len() > 0 {
        lemma_table_of_contents(tokens.drop_last());
        lemma_step_keeps_well_formed(state_after(tokens.drop_last()), tokens.last());
    }
}

/// One event never makes two headings share an anchor.
pub proof fn lemma_step_keeps_anchors_distinct(s: TransformerModel, t: TokenModel)
    requires
        distinct(anchors(s.toc)),
    ensures
        distinct(anchors(step(s, t).0.toc)),
{
    let after = step(s, t).0;
    if after.toc != s.toc {
        let level = s.mode->InHeading_0;
        let entry = heading_entry(s, level);
        lemma_anchor_fresh(slug_of(s.buffer), anchors(s.toc));
        assert(anchors(after.toc) =~= anchors(s.toc).push(entry.id));
        let ids = anchors(after.toc);
        assert forall|a: int, b: int| 0 <= a < b < ids.len() implies #[trigger] ids[a] != #[trigger] ids[b] by {
            if b < ids.len() - 1 {
                assert(ids[a] == anchors(s.toc)[a] && ids[b] == anchors(s.toc)[b]);
            } else {
                assert(ids[a] == anchors(s.toc)[a]);
                assert(anchors(s.toc).contains(ids[a]));
            }
        }
    }
}

/// The heading that replaces a captured heading.
fn heading_tag(level: u8, id: &str, text: &str) -> (r: String)
    ensures
        r@ == heading_html(level, id@, text@),
{
    let mut r = if level == 2 {
        "<h2 id=\"".to_owned()
    } else {
        "<h3 id=\"".to_owned()
    };
    r.append(html_escape(id).as_str());
    r.append("\">");
    r.append(html_escape(text).as_str());
    if level == 2 {
        r.append("</h2>\n");
    } else {
        r.append("</h3>\n");
    }
    r
}

/// The image that replaces a captured image.
fn image_tag(source: &str, alt: &str) -> (r: String)
    ensures
        r@ == image_html(source@, alt@),
{
    let mut r = "<img src=\"".to_owned();
    r.append(html_escape(source).as_str());
    r.append("\" alt=\"");
    r.append(html_escape(alt).as_str());
    r.append("\" loading=\"lazy\" />");
    r
}

/// The element that replaces a captured directive block.
fn directive_tag(directive: Directive, content: &str) -> (r: String)
    ensures
        r@ == directive_html(directive, content@),
{
    let mut r = "<div class=\"".to_owned();
    r.append(directive.css_class());
    r.append("\">");
    r.append(html_escape(content).as_str());
    r.append("</div>\n");
    r
}

impl Transformer {
    /// The state before the first event.
    pub fn new() -> (r: Transformer)
        ensures
            r@ == initial(),
            r.toc.len() == 0,
    {
        let r = Transformer {
            mode: Mode::Default,
            buffer: String::new(),
            source: String::new(),
            toc: Vec::new(),
            words: 0,
        };
        assert(toc_view(r.toc@) =~= Seq::<TocModel>::empty());
        r
    }

    /// Takes one event and says what becomes of it.
    pub fn feed(&mut self, token: &MdToken) -> (emit: Emit)
        requires
            old(self).toc.len() < usize::MAX,
        ensures
            (final(self)@, emit@) == step(old(self)@, token@),
            final(self).toc.len() <= old(self).toc.len() + 1,
    {
        match self.mode {
            Mode::Default => match token {
                MdToken::HeadingStart(level) => {
                    if *level == 2 || *level == 3 {
                        self.mode = Mode::InHeading(*level);
                        self.buffer = String::new();
                        self.source = String::new();
                        Emit::Drop
                    } else {
                        Emit::Keep
                    }
                },
                MdToken::ImageStart(source) => {
                    self.mode = Mode::InImage;
                    self.buffer = String::new();
                    self.source = source.clone();
                    Emit::Drop
                },
                MdToken::FenceStart(tag) => match Directive::from_tag(tag.as_str()) {
                    Some(d) => {
                        self.mode = Mode::InDirective(d);
                        self.buffer = String::new();
                        self.source = String::new();
                        Emit::Drop
                    },
                    None => Emit::Keep,
                },
                MdToken::Text(text) => {
                    self.words = add_words(self.words, count_words(text.as_str()));
                    Emit::Keep
                },
                MdToken::Code(text) => {
                    self.words = add_words(self.words, count_words(text.as_str()));
                    Emit::Keep
                },
                _ => Emit::Keep,
            },
            Mode::InHeading(level) => match token {
                MdToken::Text(text) => {
                    self.buffer.append(text.as_str());
                    Emit::Drop
                },
                MdToken::Code(text) => {
                    self.buffer.append(text.as_str());
                    Emit::Drop
                },
                MdToken::HeadingEnd(_) => {
                    let base = slugify(self.buffer.as_str());
                    let id = unique_anchor(base.as_str(), &self.toc);
                    let html = heading_tag(level, id.as_str(), self.buffer.as_str());
                    let ghost before = toc_view(self.toc@);
                    let entry = TocEntry { level, text: self.buffer.clone(), id };
                    self.toc.push(entry);
                    assert(toc_view(self.toc@) =~= before.push(entry@));
                    self.mode = Mode::Default;
                    self.buffer = String::new();
                    self.source = String::new();
                    Emit::Html(html)
                },
                _ => Emit::Drop,
            },
            Mode::InImage => match token {
                MdToken::Text(text) => {
                    self.buffer.append(text.as_str());
                    Emit::Drop
                },
                MdToken::Code(text) => {
                    self.buffer.append(text.as_str());
                    Emit::Drop
                },
                MdToken::ImageEnd => {
                    let html = image_tag(self.source.as_str(), self.buffer.as_str());
                    self.mode = Mode::Default;
                    self.buffer = String::new();
                    self.source = String::new();
                    Emit::Html(html)
                },
                _ => Emit::Drop,
            },
            Mode::InDirective(d) => match token {
                MdToken::Text(text) => {
                    self.buffer.append(text.as_str());
                    Emit::Drop
                },
                MdToken::CodeBlockEnd => {
                    let html = directive_tag(d, self.buffer.as_str());
                    self.mode = Mode::Default;
                    self.buffer = String::new();
                    self.source = String::new();
                    Emit::Html(html)
                },
                _ => Emit::Drop,
            },
        }
    }
}

/// What the transformation makes of the events of one body.
#[derive(Debug)]
pub struct Transformed {
    /// What becomes of each event, in order.
    pub emits: Vec<Emit>,
    /// The headings of levels 2 and 3, in order.
    pub toc: Vec<TocEntry>,
    /// The number of words outside captured constructs, at most `u32::MAX`.
    pub words: u32,
}

/// Runs the transformation over the events of one body.
pub fn transform(tokens: &Vec<MdToken>) -> (r: Transformed)
    ensures
        emits_view(r.emits@) == emits_of(tokens_view(tokens@)),
        toc_view(r.toc@) == state_after(tokens_view(tokens@)).toc,
        r.words as int == state_after(tokens_view(tokens@)).words,
        distinct(anchors(toc_view(r.toc@))),
        levels_in_range(toc_view(r.toc@)),
{
    let ghost model = tokens_view(tokens@);
    let mut state = Transformer::new();
    let mut emits: Vec<Emit> = Vec::new();
    let mut i: usize = 0;
    assert(model.take(0) =~= Seq::<TokenModel>::empty());
    while i < tokens.len()
        invariant
            i <= tokens.len(),
            model == tokens_view(tokens@),
            state@ == state_after(model.take(i as int)),
            state.toc.len() <= i,
            emits.len() == i,
            forall|j: int| 0 <= j < i ==> (#[trigger] emits[j])@ == emits_of(model)[j],
        decreases tokens.len() - i,
    {
        proof {
            assert(model.take(i + 1).drop_last() =~= model.take(i as int));
            assert(model.take(i + 1).last() == tokens[i as int]@);
        }
        let emit = state.feed(&tokens[i]);
        emits.push(emit);
        i += 1;
    }
    proof {
        assert(model.take(tokens.len() as int) =~= model);
        assert(emits_view(emits@) =~= emits_of(model));
        lemma_table_of_contents(model);
    }
    Transformed { emits, toc: state.toc, words: state.words }
}

} // verus!
