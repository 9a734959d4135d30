//! Reading the image references out of a slide's markdown.
//!
//! The markdown itself is read by `pulldown_cmark`. What the library takes
//! from it is, for each event of the parse that starts an image, the target
//! of the image and whether the image is written inline, `![alt](target)`.
//! Only images written inline count as image references. A target is remote
//! when it holds `://` and local otherwise; nothing else of it is looked at,
//! so that `//host/path` counts as local.

use pulldown_cmark::{html, Event, LinkType, Options, Parser, Tag};
use vstd::prelude::*;
use crate::seqs::{first_by_key, holds_key, lemma_first_by_key_push, opts_view, views};
use crate::text::{chars_of, contains_chars, contains_seq};

verus! {

/// The events that `pulldown_cmark::Parser`, with all its options on, reads
/// from `markdown`, each reduced to what it says of an image: for the start
/// of an image, whether the image is written inline, and its target; `None`
/// for every other event.
pub uninterp spec fn markdown_events(markdown: Seq<char>) -> Seq<Option<(bool, Seq<char>)>>;

/// The HTML that `pulldown_cmark::html::push_html` writes for the events of
/// `markdown`, after the image that the event at position `n` starts, if
/// it starts one, was given the target `targets[n]`, if there is one.
pub uninterp spec fn rendered_html(markdown: Seq<char>, targets: Seq<Option<Seq<char>>>) -> Seq<char>;

/// Runs `pulldown_cmark::Parser::new_ext` with `Options::all()` over
/// `markdown` and hands out one value per event: for the start of an image,
/// whether its link type is `LinkType::Inline`, and its target; `None` for
/// anything else.
#[verifier::external_body]
pub(crate) fn scan_markdown(markdown: &str) -> (events: Vec<Option<(bool, String)>>)
    ensures
        events_view(events@) == markdown_events(markdown@),
{
    Parser::new_ext(markdown, Options::all()).map(
        |event|
            match event {
                Event::Start(Tag::Image(kind, target, _)) => Some(
                    (matches!(kind, LinkType::Inline), target.to_string()),
                ),
                _ => None,
            },
    ).collect()
}

/// Runs `pulldown_cmark::Parser::new_ext` with `Options::all()` over
/// `markdown`, replaces the target of the image that event `n` starts by
/// `targets[n]` where `targets` holds a text there, and renders the events
/// with `pulldown_cmark::html::push_html`.
#[verifier::external_body]
pub(crate) fn render_markdown(markdown: &str, targets: &Vec<Option<String>>) -> (html: String)
    ensures
        html@ == rendered_html(markdown@, opts_view(targets@)),
{
    let mut replacements = targets.iter();
    let events = Parser::new_ext(markdown, Options::all()).map(
        |event|
            match (event, replacements.next()) {
                (Event::Start(Tag::Image(kind, _, title)), Some(Some(target))) => Event::Start(
                    Tag::Image(kind, target.clone().into(), title),
                ),
                (event, _) => event,
            },
    );
    let mut html = String::new();
    html::push_html(&mut html, events);
    html
}

/// What separates a scheme from the rest of a remote reference.
pub open spec fn scheme_separator() -> Seq<char> {
    seq![':', '/', '/']
}

/// `link` is remote: it holds the scheme separator.
pub open spec fn is_remote(link: Seq<char>) -> bool {
    contains_seq(link, scheme_separator())
}

/// The test for a local link.
pub open spec fn is_local() -> spec_fn(Seq<char>) -> bool {
    |link: Seq<char>| !is_remote(link)
}

/// The local links among `links`, in their order.
pub open spec fn local_links(links: Seq<Seq<char>>) -> Seq<Seq<char>> {
    links.filter(is_local())
}

/// The view of an event.
pub open spec fn event_view(event: Option<(bool, String)>) -> Option<(bool, Seq<char>)> {
    match event {
        Some(image) => Some((image.0, image.1@)),
        None => None,
    }
}

/// The views of events.
pub open spec fn events_view(events: Seq<Option<(bool, String)>>) -> Seq<
    Option<(bool, Seq<char>)>,
> {
    events.map_values(|event: Option<(bool, String)>| event_view(event))
}

/// The image reference that an event holds: the target of the image that it
/// starts, if it starts one that is written inline.
pub open spec fn inline_target(event: Option<(bool, Seq<char>)>) -> Option<Seq<char>> {
    match event {
        Some(image) => if image.0 {
            Some(image.1)
        } else {
            None
        },
        None => None,
    }
}

/// `inline_target` as a value.
pub open spec fn target_of() -> spec_fn(Option<(bool, Seq<char>)>) -> Option<Seq<char>> {
    |event: Option<(bool, Seq<char>)>| inline_target(event)
}

/// The targets of the inline images among `events`, in their order.
pub open spec fn image_targets(events: Seq<Option<(bool, Seq<char>)>>) -> Seq<Seq<char>> {
    events.filter_map(target_of())
}

/// Tells whether `link` is remote.
pub fn is_remote_link(link: &str) -> (r: bool)
    ensures
        r == is_remote(link@),
{
    let v = chars_of(link);
    let mut separator: Vec<char> = Vec::new();
    separator.push(':');
    separator.push('/');
    separator.push('/');
    assert(separator@ =~= scheme_separator());
    contains_chars(&v, &separator)
}

/// A link is told from other links by its text.
pub open spec fn link_text() -> spec_fn(Seq<char>) -> Seq<char> {
    |link: Seq<char>| link
}

/// `links` without repetitions: each link once, where it first appears.
pub open spec fn distinct(links: Seq<Seq<char>>) -> Seq<Seq<char>> {
    first_by_key(links, link_text())
}

/// The targets of the inline images among `events`, each once, in the order
/// in which they first appear.
pub open spec fn image_links(events: Seq<Option<(bool, Seq<char>)>>) -> Seq<Seq<char>> {
    distinct(image_targets(events))
}

/// Tells whether `link` is among `links`.
fn holds_link(links: &Vec<String>, link: &String) -> (r: bool)
    ensures
        r == holds_key(views(links@), link_text(), link@),
{
    let mut i: usize = 0;
    while i < links.len()
        invariant
            i <= links.len(),
            forall|j: int| 0 <= j < i ==> link_text()(#[trigger] views(links@)[j]) != link@,
        decreases links.len() - i,
    {
        assert(views(links@)[i as int] == links[i as int]@);
        if links[i] == *link {
            return true;
        }
        i += 1;
    }
    false
}

/// Leaves out of `links` every link that stands there already.
pub fn distinct_links(links: Vec<String>) -> (kept: Vec<String>)
    ensures
        views(kept@) == distinct(views(links@)),
{
    let ghost all = views(links@);
    let mut kept: Vec<String> = Vec::new();
    let mut i: usize = 0;
    while i < links.len()
        invariant
            i <= links.len(),
            all == views(links@),
            views(kept@) =~= distinct(all.take(i as int)),
        decreases links.len() - i,
    {
        proof {
            all.lemma_take_succ_push(i as int);
            lemma_first_by_key_push(all.take(i as int), link_text(), all[i as int]);
        }
        let ghost before = kept@;
        if !holds_link(&kept, &links[i]) {
            kept.push(links[i].clone());
            assert(views(kept@) =~= views(before).push(links[i as int]@));
        }
        i += 1;
    }
    assert(all.take(i as int) =~= all);
    kept
}

/// Picks the targets of the inline images out of `events`.
pub fn targets_of_events(events: &Vec<Option<(bool, String)>>) -> (links: Vec<String>)
    ensures
        views(links@) == image_targets(events_view(events@)),
{
    let ghost all = events_view(events@);
    let mut links: Vec<String> = Vec::new();
    let mut i: usize = 0;
    assert(all.take(0).filter_map(target_of()) =~= Seq::empty());
    while i < events.len()
        invariant
            i <= events.len(),
            all == events_view(events@),
            views(links@) =~= image_targets(all.take(i as int)),
        decreases events.len() - i,
    {
        proof {
            all.lemma_filter_map_take_succ(target_of(), i as int);
        }
        let ghost before = links@;
        assert(all[i as int] == event_view(events[i as int]));
        match &events[i] {
            Some(image) => {
                if image.0 {
                    links.push(image.1.clone());
                    assert(views(links@) =~= views(before).push(image.1@));
                }
            },
            None => {},
        }
        i += 1;
    }
    assert(all.take(i as int) =~= all);
    links
}

/// Parses some markdown contents and only pulls out the targets of the
/// images written inline: each target once, in the order in which they
/// first appear.
pub fn grab_image_links(md_contents: &str) -> (links: Vec<String>)
    ensures
        views(links@) == image_links(markdown_events(md_contents@)),
{
    let events = scan_markdown(md_contents);
    distinct_links(targets_of_events(&events))
}

/// Given some links, pulls out only the local ones, in their order.
pub fn get_local_links(links: Vec<String>) -> (local: Vec<String>)
    ensures
        views(local@) == local_links(views(links@)),
{
    let ghost all = views(links@);
    let mut local: Vec<String> = Vec::new();
    let mut i: usize = 0;
    proof {
        reveal(Seq::filter);
        assert(all.take(0).filter(is_local()) =~= Seq::empty());
    }
    while i < links.len()
        invariant
            i <= links.len(),
            all == views(links@),
            views(local@) =~= local_links(all.take(i as int)),
        decreases links.len() - i,
    {
        proof {
            all.lemma_take_succ_push(i as int);
            all.take(i as int).lemma_filter_push(all[i as int], is_local());
        }
        let ghost before = local@;
        if !is_remote_link(links[i].as_str()) {
            local.push(links[i].clone());
            assert(views(local@) =~= views(before).push(links[i as int]@));
        }
        i += 1;
    }
    assert(all.take(i as int) =~= all);
    local
}

} // verus!
