//! Markdown source as a sequence of events: the parser of `pulldown-cmark`
//! reads it, the text events are rewritten by the scanner, and
//! `pulldown-cmark-to-cmark` writes the events out as markdown again.

use crate::scanner::{rewrite_text, rewritten};
use pulldown_cmark::{CowStr, Event, Options, Parser, Tag, TagEnd};
use vstd::prelude::*;

verus! {

/// One event of `pulldown-cmark`'s parser. Nothing inside it is visible here.
#[verifier::external_type_specification]
#[verifier::external_body]
pub struct ExEvent<'a>(Event<'a>);

/// What an event means to the nesting that the serializer keeps track of.
#[derive(Clone, Copy, Debug, PartialEq, Eq, Structural)]
pub enum Role {
    OpensLink,
    ClosesLink,
    OpensImage,
    ClosesImage,
    OpensHeading,
    ClosesHeading,
    Plain,
}

/// The events that the parser, with every extension switched on, reads from
/// markdown source.
pub uninterp spec fn parsed_events(content: Seq<char>) -> Seq<Event<'static>>;

/// The role of an event.
pub uninterp spec fn event_role(event: Event<'static>) -> Role;

/// The text that a text event carries; `None` for every other event.
pub uninterp spec fn event_text(event: Event<'static>) -> Option<Seq<char>>;

/// The text event that carries the given text.
pub uninterp spec fn text_event_of(text: Seq<char>) -> Event<'static>;

/// The markdown source that the serializer, with its default options, writes
/// for a sequence of events; `None` where writing fails.
pub uninterp spec fn rendered_markdown(events: Seq<Event<'static>>) -> Option<Seq<char>>;

/// `Parser::new_ext` with `Options::all()`, collected: the events of the
/// source depend on the source alone.
#[verifier::external_body]
pub(crate) fn parse_events<'a>(content: &'a str) -> (events: Vec<Event<'a>>)
    ensures
        events@ == parsed_events(content@),
{
    Parser::new_ext(content, Options::all()).collect()
}

/// Tells the variants of `Event` apart: the start and end of a link, of an
/// image and of a heading have a role of their own, every other event is
/// plain.
#[verifier::external_body]
pub(crate) fn role_of<'a>(event: &Event<'a>) -> (role: Role)
    ensures
        role == event_role(*event),
{
    match event {
        Event::Start(Tag::Link { .. }) => Role::OpensLink,
        Event::End(TagEnd::Link) => Role::ClosesLink,
        Event::Start(Tag::Image { .. }) => Role::OpensImage,
        Event::End(TagEnd::Image) => Role::ClosesImage,
        Event::Start(Tag::Heading { .. }) => Role::OpensHeading,
        Event::End(TagEnd::Heading(_)) => Role::ClosesHeading,
        _ => Role::Plain,
    }
}

/// The payload of `Event::Text`, copied; `None` for any other variant. A text
/// event is plain.
#[verifier::external_body]
pub(crate) fn text_of<'a>(event: &Event<'a>) -> (text: Option<String>)
    ensures
        text matches Some(t) ==> event_text(*event) == Some(t@) && event_role(*event)
            == Role::Plain,
        text is None ==> event_text(*event) is None,
{
    match event {
        Event::Text(text) => Some(text.to_string()),
        _ => None,
    }
}

/// `Event::Text` around the given string: a plain event that carries it.
#[verifier::external_body]
pub(crate) fn text_event(text: String) -> (event: Event<'static>)
    ensures
        event == text_event_of(text@),
        event_text(event) == Some(text@),
        event_role(event) == Role::Plain,
{
    Event::Text(CowStr::from(text))
}

/// `cmark` of `pulldown-cmark-to-cmark`, writing into a fresh string. It
/// takes a link or an image off its stack at each end of one, and keeps one
/// open heading: the events must nest accordingly, or it does not return.
/// What it writes depends on the events alone.
#[verifier::external_body]
pub(crate) fn render_events<'a>(events: &Vec<Event<'a>>) -> (out: Option<String>)
    requires
        nests_well(roles_of(events@)),
    ensures
        out matches Some(s) ==> rendered_markdown(events@) == Some(s@),
        out is None ==> rendered_markdown(events@) is None,
{
    let mut out = String::new();
    match pulldown_cmark_to_cmark::cmark(events.iter(), &mut out) {
        Ok(_) => Some(out),
        Err(_) => None,
    }
}

/// The links and images that are open, and whether a heading is.
pub struct Nesting {
    pub links: nat,
    pub images: nat,
    pub heading: bool,
}

/// Nothing is open.
pub open spec fn nothing_open() -> Nesting {
    Nesting { links: 0, images: 0, heading: false }
}

/// An event of this role may follow: an end needs its start before it, and a
/// heading does not start inside a heading.
pub open spec fn may_follow(open: Nesting, role: Role) -> bool {
    match role {
        Role::ClosesLink => open.links > 0,
        Role::ClosesImage => open.images > 0,
        Role::OpensHeading => !open.heading,
        Role::ClosesHeading => open.heading,
        _ => true,
    }
}

/// What is open after an event of this role.
pub open spec fn after_role(open: Nesting, role: Role) -> Nesting {
    match role {
        Role::OpensLink => Nesting { links: open.links + 1, ..open },
        Role::ClosesLink => Nesting { links: (open.links - 1) as nat, ..open },
        Role::OpensImage => Nesting { images: open.images + 1, ..open },
        Role::ClosesImage => Nesting { images: (open.images - 1) as nat, ..open },
        Role::OpensHeading => Nesting { heading: true, ..open },
        Role::ClosesHeading => Nesting { heading: false, ..open },
        Role::Plain => open,
    }
}

/// The roles, read in order from the given state, never ask for an end
/// without its start.
pub open spec fn nests_from(roles: Seq<Role>, open: Nesting) -> bool
    decreases roles.len(),
{
    roles.len() == 0 || (may_follow(open, roles[0]) && nests_from(
        roles.drop_first(),
        after_role(open, roles[0]),
    ))
}

/// The roles nest well from the start of a document.
pub open spec fn nests_well(roles: Seq<Role>) -> bool {
    nests_from(roles, nothing_open())
}

/// The role of each event.
pub open spec fn roles_of(events: Seq<Event<'static>>) -> Seq<Role> {
    Seq::new(events.len(), |i: int| event_role(events[i]))
}

/// An event with its text rewritten: a text event carries the rewritten text,
/// any other event is kept.
pub open spec fn rewritten_event(event: Event<'static>) -> Event<'static> {
    match event_text(event) {
        Some(text) => text_event_of(rewritten(text)),
        None => event,
    }
}

/// The events with the text of each rewritten.
pub open spec fn rewritten_events(events: Seq<Event<'static>>) -> Seq<Event<'static>> {
    Seq::new(events.len(), |i: int| rewritten_event(events[i]))
}

/// What becomes of a sequence of events: the markdown written for them after
/// their text is rewritten, or `None` where they do not nest well or writing
/// fails.
pub open spec fn events_outcome(events: Seq<Event<'static>>) -> Option<Seq<char>> {
    if nests_well(roles_of(events)) {
        rendered_markdown(rewritten_events(events))
    } else {
        None
    }
}

/// What becomes of markdown source: it is parsed, the text of its events is
/// rewritten, and the events are written out again.
pub open spec fn markdown_outcome(content: Seq<char>) -> Option<Seq<char>> {
    events_outcome(parsed_events(content))
}

/// Why markdown source cannot be rewritten, if it cannot.
pub open spec fn markdown_failure(content: Seq<char>) -> Option<RewriteError> {
    if !nests_well(roles_of(parsed_events(content))) {
        Some(RewriteError::BadNesting)
    } else if markdown_outcome(content) is None {
        Some(RewriteError::Render)
    } else {
        None
    }
}

/// Why a chapter could not be rewritten.
#[derive(Clone, Copy, Debug, PartialEq, Eq, Structural)]
pub enum RewriteError {
    /// An end of a link, an image or a heading stands without its start, or a
    /// heading starts inside a heading.
    BadNesting,
    /// The events could not be written out as markdown.
    Render,
}

/// Whether the events nest well.
pub fn check_nesting<'a>(events: &Vec<Event<'a>>) -> (ok: bool)
    ensures
        ok == nests_well(roles_of(events@)),
{
    let ghost roles = roles_of(events@);
    let n: usize = events.len();
    let mut links: usize = 0;
    let mut images: usize = 0;
    let mut heading = false;
    let mut i: usize = 0;
    assert(roles.skip(0) =~= roles);
    while i < n
        invariant
            n == events@.len(),
            roles == roles_of(events@),
            i <= n,
            links <= i,
            images <= i,
            nests_well(roles) == nests_from(
                roles.skip(i as int),
                Nesting { links: links as nat, images: images as nat, heading },
            ),
        decreases n - i,
    {
        let role = role_of(&events[i]);
        proof {
            assert(roles.skip(i as int)[0] == role);
            assert(roles.skip(i as int).drop_first() =~= roles.skip(i + 1));
        }
        match role {
            Role::OpensLink => {
                links += 1;
            },
            Role::ClosesLink => {
                if links == 0 {
                    return false;
                }
                links -= 1;
            },
            Role::OpensImage => {
                images += 1;
            },
            Role::ClosesImage => {
                if images == 0 {
                    return false;
                }
                images -= 1;
            },
            Role::OpensHeading => {
                if heading {
                    return false;
                }
                heading = true;
            },
            Role::ClosesHeading => {
                if !heading {
                    return false;
                }
                heading = false;
            },
            Role::Plain => {},
        }
        i += 1;
    }
    true
}

/// Rewrites the text of each event, and keeps every other event.
pub fn rewrite_events<'a>(events: Vec<Event<'a>>) -> (out: Vec<Event<'a>>)
    ensures
        out@ == rewritten_events(events@),
        roles_of(out@) == roles_of(events@),
{
    let n: usize = events.len();
    let mut events = events;
    let ghost before = events@;
    let mut i: usize = 0;
    while i < n
        invariant
            n == before.len(),
            events@.len() == n,
            i <= n,
            forall|k: int| 0 <= k < i ==> events@[k] == rewritten_event(before[k]),
            forall|k: int| i <= k < n ==> events@[k] == before[k],
            forall|k: int| 0 <= k < n ==> event_role(events@[k]) == event_role(before[k]),
        decreases n - i,
    {
        let text = text_of(&events[i]);
        if let Some(text) = text {
            let rewritten = rewrite_text(text.as_str());
            events[i] = text_event(rewritten);
        }
        i += 1;
    }
    assert(events@ =~= rewritten_events(before));
    assert(roles_of(events@) =~= roles_of(before));
    events
}

/// Rewrites the text events of already parsed markdown and writes the events
/// out again.
pub fn rewrite_parsed<'a>(events: Vec<Event<'a>>) -> (out: Result<String, RewriteError>)
    ensures
        match out {
            Ok(s) => events_outcome(events@) == Some(s@),
            Err(RewriteError::BadNesting) => !nests_well(roles_of(events@)),
            Err(RewriteError::Render) => nests_well(roles_of(events@)) && events_outcome(events@)
                is None,
        },
{
    if !check_nesting(&events) {
        return Err(RewriteError::BadNesting);
    }
    let events = rewrite_events(events);
    match render_events(&events) {
        Some(s) => Ok(s),
        None => Err(RewriteError::Render),
    }
}

/// Rewrites markdown source: every span `==body==` in its text becomes
/// small-caps markup, and everything else is written out as the parser read
/// it.
pub fn rewrite_markdown(content: &str) -> (out: Result<String, RewriteError>)
    ensures
        match out {
            Ok(s) => markdown_outcome(content@) == Some(s@) && markdown_failure(content@) is None,
            Err(e) => markdown_failure(content@) == Some(e),
        },
{
    rewrite_parsed(parse_events(content))
}

} // verus!
