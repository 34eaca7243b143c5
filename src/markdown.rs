use vstd::prelude::*;

use std::borrow::Cow;

use lol_html::html_content::Element;
use lol_html::{rewrite_str, ElementContentHandlers, HandlerResult, RewriteStrSettings, Selector};
use pulldown_cmark::{CowStr, Event, Options, Parser, Tag};

use crate::error::ConvError;
use crate::media::{lemma_rebase_idempotent, rebase_url, rebased};

verus! {

/// The kind of an event that refers to an image: its text is the image URL.
pub open spec fn image_kind() -> int {
    0
}

/// The kind of a raw HTML event: its text is the HTML fragment.
pub open spec fn html_kind() -> int {
    1
}

/// The kind of every other event; its text is empty.
pub open spec fn other_kind() -> int {
    2
}

/// The event stream of a markdown document, as pulldown-cmark parses it.
#[verifier::external_body]
pub struct MdEvents<'a> {
    events: Vec<Event<'a>>,
}

/// What an event stream holds: for each event its kind and its text.
pub uninterp spec fn events_of(e: MdEvents) -> Seq<(int, Seq<char>)>;

/// The markdown text that pulldown-cmark-to-cmark writes for an event stream.
pub uninterp spec fn written_md(e: MdEvents) -> Seq<char>;

/// What an event stream holds besides its image URLs and raw HTML fragments:
/// the text that pulldown-cmark-to-cmark writes for it once each of those is
/// emptied (alt text, titles, links, text, code, tables and the rest).
pub uninterp spec fn rest_of(e: MdEvents) -> Seq<char>;

/// What `rest_of` gives for the events that pulldown-cmark parses out of a
/// markdown text.
pub uninterp spec fn parsed_rest(text: Seq<char>) -> Seq<char>;

/// The events that pulldown-cmark parses out of a markdown text.
pub uninterp spec fn parsed_md(text: Seq<char>) -> Seq<(int, Seq<char>)>;

/// What lol_html makes of an HTML fragment when the `src` of each element
/// that `selector` matches is replaced by `new_src(dir, src)`.
pub uninterp spec fn html_rewritten(html: Seq<char>, selector: Seq<char>, dir: Seq<char>) -> Seq<
    char,
>;

/// lol_html fails to rewrite an HTML fragment as `html_rewritten` describes.
pub uninterp spec fn html_rewrite_fails(html: Seq<char>, selector: Seq<char>, dir: Seq<char>) -> bool;

/// The elements whose `src` is rebased: `img` elements that have one.
pub open spec fn img_selector() -> Seq<char> {
    "img[src]"@
}

/// The new `src` of an image: rebased into `dir`, or kept where it has no
/// file name.
pub open spec fn spec_new_src(dir: Seq<char>, src: Seq<char>) -> Seq<char> {
    match rebased(dir, src) {
        Some(u) => u,
        None => src,
    }
}

/// The new `src` of an image: rebased into `dir`, or kept where it has no
/// file name.
pub fn new_src(dir: &str, src: &str) -> (r: String)
    ensures
        r@ == spec_new_src(dir@, src@),
{
    match rebase_url(dir, src) {
        Some(u) => u,
        None => src.to_owned(),
    }
}

/// Relies on `pulldown_cmark::Parser::new_ext` with all extensions: the
/// events depend on the text alone.
#[verifier::external_body]
fn parse_md<'a>(text: &'a str) -> (r: MdEvents<'a>)
    ensures
        events_of(r) == parsed_md(text@),
        rest_of(r) == parsed_rest(text@),
{
    MdEvents { events: Parser::new_ext(text, Options::all()).collect() }
}

/// Relies on `Vec::len` of the held events.
#[verifier::external_body]
fn event_len(e: &MdEvents) -> (r: usize)
    ensures
        r == events_of(*e).len(),
{
    e.events.len()
}

/// Relies on pulldown-cmark's `Event` and `Tag` variants: the start or end of
/// an image carries its URL, raw HTML its fragment.
#[verifier::external_body]
fn event_at(e: &MdEvents, i: usize) -> (r: (u8, String))
    requires
        i < events_of(*e).len(),
    ensures
        r.0 as int == events_of(*e)[i as int].0,
        r.1@ == events_of(*e)[i as int].1,
{
    match &e.events[i] {
        Event::Start(Tag::Image(_, url, _)) => (0, url.to_string()),
        Event::End(Tag::Image(_, url, _)) => (0, url.to_string()),
        Event::Html(html) => (1, html.to_string()),
        _ => (2, String::new()),
    }
}

/// Relies on pulldown-cmark's `Event` and `Tag` variants: replaces the URL of
/// an image event or the fragment of a raw HTML event, and nothing else.
#[verifier::external_body]
fn set_text(e: &mut MdEvents, i: usize, t: String)
    requires
        i < events_of(*old(e)).len(),
        events_of(*old(e))[i as int].0 != other_kind(),
    ensures
        events_of(*final(e)) == events_of(*old(e)).update(
            i as int,
            (events_of(*old(e))[i as int].0, t@),
        ),
        rest_of(*final(e)) == rest_of(*old(e)),
{
    match &mut e.events[i] {
        Event::Start(Tag::Image(_, url, _)) => *url = CowStr::Boxed(t.into_boxed_str()),
        Event::End(Tag::Image(_, url, _)) => *url = CowStr::Boxed(t.into_boxed_str()),
        Event::Html(html) => *html = CowStr::Boxed(t.into_boxed_str()),
        _ => {},
    }
}

/// Relies on `lol_html::rewrite_str`, with one handler on the elements that
/// `selector` matches, which sets their `src` to `new_src(dir, src)`. An
/// error is returned as its message.
#[verifier::external_body]
fn rewrite_img_srcs(html: &str, selector: &str, dir: &str) -> (r: Result<String, String>)
    ensures
        r is Err <==> html_rewrite_fails(html@, selector@, dir@),
        r matches Ok(out) ==> out@ == html_rewritten(html@, selector@, dir@),
{
    let handlers = ElementContentHandlers::default().element(|el: &mut Element<'_, '_>| -> HandlerResult {
        if let Some(src) = el.get_attribute("src") {
            el.set_attribute("src", &new_src(dir, &src))?;
        }
        Ok(())
    });
    let selector: Selector = selector.parse().map_err(|e: lol_html::errors::SelectorError| e.to_string())?;
    let settings = RewriteStrSettings::new().append_element_content_handler((Cow::Owned(selector), handlers));
    rewrite_str(html, settings).map_err(|e| e.to_string())
}

/// Relies on `pulldown_cmark_to_cmark::cmark`: writes the events back as
/// markdown. It fails only where its formatter fails, which a `String`
/// never does.
#[verifier::external_body]
fn write_md(e: &MdEvents) -> (r: Result<String, String>)
    ensures
        r is Ok,
        r matches Ok(out) ==> out@ == written_md(*e),
{
    let mut out = String::new();
    pulldown_cmark_to_cmark::cmark(e.events.iter(), &mut out).map_err(|e| e.to_string())?;
    Ok(out)
}

/// An event once its media references are moved into `dir`.
pub open spec fn rewritten_event(e: (int, Seq<char>), dir: Seq<char>) -> (int, Seq<char>) {
    if e.0 == image_kind() {
        (e.0, spec_new_src(dir, e.1))
    } else if e.0 == html_kind() {
        (e.0, html_rewritten(e.1, img_selector(), dir))
    } else {
        e
    }
}

/// Rewriting an image event a second time leaves it as the first rewrite
/// left it.
pub proof fn lemma_image_event_rewrite_idempotent(e: (int, Seq<char>), dir: Seq<char>)
    requires
        e.0 == image_kind(),
    ensures
        rewritten_event(rewritten_event(e, dir), dir) == rewritten_event(e, dir),
{
    lemma_rebase_idempotent(dir, e.1);
}

/// `after` is `before` with every image URL rebased into `dir`, every raw
/// HTML fragment rewritten, and every other event unchanged.
pub open spec fn rewritten(
    before: Seq<(int, Seq<char>)>,
    after: Seq<(int, Seq<char>)>,
    dir: Seq<char>,
) -> bool {
    after.len() == before.len() && forall|i: int|
        0 <= i < before.len() ==> after[i] == rewritten_event(before[i], dir)
}

/// An event of the stream is a raw HTML fragment that lol_html cannot rewrite.
pub open spec fn some_html_fails(events: Seq<(int, Seq<char>)>, dir: Seq<char>) -> bool {
    exists|i: int|
        0 <= i < events.len() && events[i].0 == html_kind() && #[trigger] html_rewrite_fails(
            events[i].1,
            img_selector(),
            dir,
        )
}

/// Moves every media reference of an event stream into `dir`: image URLs
/// keep their file name, and so do the `src` of `img` elements in raw HTML.
/// Everything else in the stream is kept. Fails with `UnrenderableMarkup`
/// exactly where an HTML fragment cannot be rewritten.
pub fn rewrite_events(events: &mut MdEvents, dir: &str) -> (r: Result<(), ConvError>)
    ensures
        r is Err <==> some_html_fails(events_of(*old(events)), dir@),
        r is Ok ==> rewritten(events_of(*old(events)), events_of(*final(events)), dir@),
        r is Ok ==> rest_of(*final(events)) == rest_of(*old(events)),
        r is Err ==> r matches Err(ConvError::UnrenderableMarkup(_)),
{
    let ghost before = events_of(*events);
    let ghost rest = rest_of(*events);
    let n = event_len(events);
    let mut i: usize = 0;
    while i < n
        invariant
            n == before.len(),
            before == events_of(*old(events)),
            rest == rest_of(*old(events)),
            i <= n,
            events_of(*events).len() == n,
            rest_of(*events) == rest,
            forall|k: int| 0 <= k < i ==> events_of(*events)[k] == rewritten_event(before[k], dir@),
            forall|k: int| i <= k < n ==> events_of(*events)[k] == before[k],
            forall|k: int|
                0 <= k < i && before[k].0 == html_kind() ==> !html_rewrite_fails(
                    before[k].1,
                    img_selector(),
                    dir@,
                ),
        decreases n - i,
    {
        let (kind, text) = event_at(events, i);
        if kind == 0 {
            let u = new_src(dir, text.as_str());
            set_text(events, i, u);
        } else if kind == 1 {
            match rewrite_img_srcs(text.as_str(), "img[src]", dir) {
                Ok(h) => set_text(events, i, h),
                Err(m) => {
                    assert(before[i as int] == events_of(*events)[i as int]);
                    assert(before[i as int].0 == html_kind());
                    assert(text@ == before[i as int].1);
                    assert(html_rewrite_fails(before[i as int].1, img_selector(), dir@));
                    assert(some_html_fails(before, dir@));
                    return Err(ConvError::UnrenderableMarkup(m));
                },
            }
        }
        i = i + 1;
    }
    Ok(())
}

/// Rewrites the media references of a markdown body into `imgdir` and writes
/// it back as markdown. It succeeds exactly where every raw HTML fragment of
/// the body can be rewritten. The result is then the written form of an event
/// stream that holds what pulldown-cmark parses out of `text`, with every
/// image URL rebased, every raw HTML fragment rewritten, and all else kept.
pub fn map_img_ref(text: &str, imgdir: &str) -> (r: Result<String, ConvError>)
    ensures
        r is Ok <==> !some_html_fails(parsed_md(text@), imgdir@),
        r matches Ok(out) ==> exists|e: MdEvents|
            rewritten(parsed_md(text@), #[trigger] events_of(e), imgdir@) && rest_of(e)
                == parsed_rest(text@) && out@ == written_md(e),
        r is Err ==> r matches Err(ConvError::UnrenderableMarkup(_)),
{
    let mut events = parse_md(text);
    rewrite_events(&mut events, imgdir)?;
    let out = match write_md(&events) {
        Ok(out) => out,
        Err(m) => {
            return Err(ConvError::UnrenderableMarkup(m));
        },
    };
    assert(rewritten(parsed_md(text@), events_of(events), imgdir@) && rest_of(events)
        == parsed_rest(text@) && out@ == written_md(events));
    Ok(out)
}

} // verus!
