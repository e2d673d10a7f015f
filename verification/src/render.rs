//! Rendering a markdown body: parsing, transformation, and HTML output.
//!
//! Parsing and HTML output are the work of `pulldown_cmark`. Its events are
//! carried through unread; what the transformation needs of an event is its
//! token.

use vstd::prelude::*;
use pulldown_cmark::{CodeBlockKind, Event, Options, Parser, Tag, TagEnd};
use crate::anchor::{anchors, distinct};
use crate::markdown::{
    emits_of, emits_view, levels_in_range, state_after, tokens_view, transform, Emit, EmitModel, MdToken,
    TokenModel,
};
use crate::post::{toc_view, TocEntry, TocModel};
use crate::words::{reading_minutes, reading_time};

verus! {

/// `pulldown_cmark::Event`: one event of a parsed markdown text. Nothing is known of
/// what an event holds; events are only handed on.
#[verifier::external_type_specification]
#[verifier::external_body]
pub struct ExEvent<'a>(Event<'a>);

/// The events that `pulldown_cmark::Parser` yields for a body, with strikethrough enabled.
pub uninterp spec fn events_of(body: Seq<char>) -> Seq<Event<'static>>;

/// What `token_of` reads of an event: its kind, and the text, image source or
/// language tag it carries.
pub uninterp spec fn token_model(event: Event<'static>) -> TokenModel;

/// The event `Event::Html` that holds a piece of HTML.
pub uninterp spec fn html_event_of(html: Seq<char>) -> Event<'static>;

/// The HTML that `pulldown_cmark::html::push_html` writes for a list of events.
pub uninterp spec fn html_of(events: Seq<Event<'static>>) -> Seq<char>;

/// Calls `pulldown_cmark::Parser::new_ext` with `Options::ENABLE_STRIKETHROUGH` and
/// collects the events, each made independent of the body by `Event::into_static`.
/// The events are a function of the body; they are named, not described.
#[verifier::external_body]
fn parse_events(body: &str) -> (events: Vec<Event<'static>>)
    ensures
        events@ == events_of(body@),
{
    let mut options = Options::empty();
    options.insert(Options::ENABLE_STRIKETHROUGH);
    Parser::new_ext(body, options).map(|event| event.into_static()).collect()
}

/// Tells the variants of a `pulldown_cmark::Event` apart and copies out the text,
/// image source or language tag it carries. The token is a function of the event;
/// it is named, not described.
#[verifier::external_body]
fn token_of(event: &Event<'static>) -> (token: MdToken)
    ensures
        token@ == token_model(*event),
{
    match event {
        Event::Start(Tag::Heading { level, .. }) => MdToken::HeadingStart(*level as u8),
        Event::End(TagEnd::Heading(level)) => MdToken::HeadingEnd(*level as u8),
        Event::Start(Tag::Image { dest_url, .. }) => MdToken::ImageStart(dest_url.to_string()),
        Event::End(TagEnd::Image) => MdToken::ImageEnd,
        Event::Start(Tag::CodeBlock(CodeBlockKind::Fenced(tag))) => MdToken::FenceStart(tag.to_string()),
        Event::End(TagEnd::CodeBlock) => MdToken::CodeBlockEnd,
        Event::Text(text) => MdToken::Text(text.to_string()),
        Event::Code(text) => MdToken::Code(text.to_string()),
        _ => MdToken::Other,
    }
}

/// Makes the event `pulldown_cmark::Event::Html` that holds a piece of HTML. The
/// event is a function of the HTML; it is named, not described.
#[verifier::external_body]
fn html_event(html: &str) -> (event: Event<'static>)
    ensures
        event == html_event_of(html@),
{
    Event::Html(html.to_string().into())
}

/// Calls `Event::clone`: the copy is the same event.
#[verifier::external_body]
fn clone_event(event: &Event<'static>) -> (copy: Event<'static>)
    ensures
        copy == *event,
{
    event.clone()
}

/// Calls `pulldown_cmark::html::push_html` on an empty string. The HTML is a
/// function of the events; it is named, not described.
#[verifier::external_body]
fn events_to_html(events: Vec<Event<'static>>) -> (html: String)
    ensures
        html@ == html_of(events@),
{
    let mut html = String::new();
    pulldown_cmark::html::push_html(&mut html, events.into_iter());
    html
}

/// The tokens of a list of events.
pub open spec fn event_tokens(events: Seq<Event<'static>>) -> Seq<TokenModel> {
    events.map_values(|e: Event<'static>| token_model(e))
}

/// The events of the page: each event of the body kept, withheld or replaced as
/// `emits` says.
pub open spec fn assembled(events: Seq<Event<'static>>, emits: Seq<EmitModel>) -> Seq<Event<'static>>
    decreases events.len(),
{
    if events.len() == 0 || emits.len() != events.len() {
        Seq::<Event<'static>>::empty()
    } else {
        let front = assembled(events.drop_last(), emits.drop_last());
        match emits.last() {
            EmitModel::Keep => front.push(events.last()),
            EmitModel::Drop => front,
            EmitModel::Html(html) => front.push(html_event_of(html)),
        }
    }
}

/// The HTML of a rendered body.
pub open spec fn page_html(body: Seq<char>) -> Seq<char> {
    html_of(assembled(events_of(body), emits_of(event_tokens(events_of(body)))))
}

/// The table of contents of a body.
pub open spec fn page_toc(body: Seq<char>) -> Seq<TocModel> {
    state_after(event_tokens(events_of(body))).toc
}

/// The estimated reading time of a body, in minutes.
pub open spec fn page_minutes(body: Seq<char>) -> int {
    reading_minutes(state_after(event_tokens(events_of(body))).words)
}

/// A rendered body.
#[derive(Debug)]
pub struct Rendered {
    /// The HTML of the body.
    pub html: String,
    /// The headings of levels 2 and 3, in order.
    pub toc: Vec<TocEntry>,
    /// The estimated reading time in minutes, at least 1.
    pub reading_time_min: u32,
}

/// Renders a markdown body to HTML, with its table of contents and reading time.
pub fn render_markdown(body: &str) -> (r: Rendered)
    ensures
        r.html@ == page_html(body@),
        toc_view(r.toc@) == page_toc(body@),
        r.reading_time_min == page_minutes(body@),
        r.reading_time_min >= 1,
        distinct(anchors(toc_view(r.toc@))),
        levels_in_range(toc_view(r.toc@)),
{
    let events = parse_events(body);
    let mut tokens: Vec<MdToken> = Vec::new();
    let mut i: usize = 0;
    while i < events.len()
        invariant
            i <= events.len(),
            tokens.len() == i,
            forall|j: int| 0 <= j < i ==> (#[trigger] tokens[j])@ == token_model(events[j]),
        decreases events.len() - i,
    {
        tokens.push(token_of(&events[i]));
        i += 1;
    }
    assert(tokens_view(tokens@) =~= event_tokens(events@));
    let done = transform(&tokens);
    let ghost plan = emits_view(done.emits@);
    let mut page: Vec<Event<'static>> = Vec::new();
    let mut i: usize = 0;
    assert(events@.take(0) =~= Seq::<Event<'static>>::empty());
    while i < events.len()
        invariant
            i <= events.len(),
            plan == emits_view(done.emits@),
            plan.len() == events.len(),
            page@ == assembled(events@.take(i as int), plan.take(i as int)),
        decreases events.len() - i,
    {
        proof {
            assert(events@.take(i + 1).drop_last() =~= events@.take(i as int));
            assert(plan.take(i + 1).drop_last() =~= plan.take(i as int));
            assert(plan.take(i + 1).last() == done.emits[i as int]@);
        }
        match &done.emits[i] {
            Emit::Keep => {
                page.push(clone_event(&events[i]));
            },
            Emit::Drop => {},
            Emit::Html(html) => {
                page.push(html_event(html.as_str()));
            },
        }
        i += 1;
    }
    proof {
        assert(events@.take(events.len() as int) =~= events@);
        assert(plan.take(events.len() as int) =~= plan);
    }
    let html = events_to_html(page);
    Rendered { html, toc: done.toc, reading_time_min: reading_time(done.words) }
}

} // verus!
