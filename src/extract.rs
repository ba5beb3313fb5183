use vstd::prelude::*;

use crate::lyrics::{
    joined_texts, join_part_texts, lines_view, paragraphs_view, parts_view, LineView, Lyrics, LyricsLine,
    LyricsLinePart, LyricsView, PartView,
};
use crate::timestamp::{parse_timestamp, timestamp_value};

verus! {

/// One structural event of the markup: an element's start (its local name),
/// one of its attributes (name and raw value), an element's closing tag (its
/// local name), a run of text, or anything else (the `>` that ends a start
/// tag, a self-closing `/>`, comments, declarations).
#[derive(Debug, Clone, PartialEq, Eq)]
pub enum Event {
    Open(String),
    Attribute(String, String),
    Close(String),
    Text(String),
    Other,
}

pub enum EventView {
    Open(Seq<char>),
    Attribute(Seq<char>, Seq<char>),
    Close(Seq<char>),
    Text(Seq<char>),
    Other,
}

impl View for Event {
    type V = EventView;

    open spec fn view(&self) -> EventView {
        match self {
            Event::Open(n) => EventView::Open(n@),
            Event::Attribute(n, v) => EventView::Attribute(n@, v@),
            Event::Close(n) => EventView::Close(n@),
            Event::Text(t) => EventView::Text(t@),
            Event::Other => EventView::Other,
        }
    }
}

/// Why extraction failed: the markup could not be tokenized (the tokenizer's
/// message), a `begin`/`end` value is no timestamp (the value), or a `p` or
/// `span` was closed that was not open (the element's name).
#[derive(Debug, Clone, PartialEq, Eq)]
pub enum LyricsError {
    Markup(String),
    Timestamp(String),
    UnexpectedClose(String),
}

pub enum ErrorView {
    Markup(Seq<char>),
    Timestamp(Seq<char>),
    UnexpectedClose(Seq<char>),
}

impl View for LyricsError {
    type V = ErrorView;

    open spec fn view(&self) -> ErrorView {
        match self {
            LyricsError::Markup(m) => ErrorView::Markup(m@),
            LyricsError::Timestamp(v) => ErrorView::Timestamp(v@),
            LyricsError::UnexpectedClose(n) => ErrorView::UnexpectedClose(n@),
        }
    }
}

/// Where the extraction stands: before the body, in the body between lines,
/// in a line (outside its parts), in a part of a line, or past the body's end.
pub enum Phase {
    Outside,
    InBody,
    InLine(LineView),
    InPart(LineView, PartView),
    Done,
}

/// The abstract state of an extraction: the phase, the finished paragraphs,
/// and the lines of the paragraph being read.
pub struct Progress {
    pub phase: Phase,
    pub paragraphs: Seq<Seq<LineView>>,
    pub paragraph: Seq<LineView>,
}

pub open spec fn initial_progress() -> Progress {
    Progress { phase: Phase::Outside, paragraphs: Seq::empty(), paragraph: Seq::empty() }
}

pub open spec fn empty_line() -> LineView {
    LineView { text: Seq::empty(), start: None, end: None, parts: Seq::empty() }
}

pub open spec fn empty_part() -> PartView {
    PartView { text: Seq::empty(), start: None, end: None }
}

/// A line as it is stored once closed: without text of its own it takes
/// the texts of its parts, joined by spaces.
pub open spec fn finished_line(l: LineView) -> LineView {
    if l.text.len() == 0 {
        LineView { text: joined_texts(l.parts), start: l.start, end: l.end, parts: l.parts }
    } else {
        l
    }
}

/// The effect of an attribute on a line's times.
pub open spec fn timed_line(l: LineView, name: Seq<char>, value: Seq<char>) -> Result<LineView, ErrorView> {
    if name == "begin"@ || name == "end"@ {
        match timestamp_value(value) {
            Some(t) => if name == "begin"@ {
                Ok(LineView { text: l.text, start: Some(t), end: l.end, parts: l.parts })
            } else {
                Ok(LineView { text: l.text, start: l.start, end: Some(t), parts: l.parts })
            },
            None => Err(ErrorView::Timestamp(value)),
        }
    } else {
        Ok(l)
    }
}

/// The effect of an attribute on a part's times.
pub open spec fn timed_part(q: PartView, name: Seq<char>, value: Seq<char>) -> Result<PartView, ErrorView> {
    if name == "begin"@ || name == "end"@ {
        match timestamp_value(value) {
            Some(t) => if name == "begin"@ {
                Ok(PartView { text: q.text, start: Some(t), end: q.end })
            } else {
                Ok(PartView { text: q.text, start: q.start, end: Some(t) })
            },
            None => Err(ErrorView::Timestamp(value)),
        }
    } else {
        Ok(q)
    }
}

pub open spec fn with_phase(p: Progress, phase: Phase) -> Progress {
    Progress { phase, paragraphs: p.paragraphs, paragraph: p.paragraph }
}

/// One transition of the extraction on one event.
pub open spec fn step(p: Progress, e: EventView) -> Result<Progress, ErrorView> {
    if p.phase is Done {
        Ok(p)
    } else if e == EventView::Close("body"@) {
        Ok(with_phase(p, Phase::Done))
    } else {
        match p.phase {
            Phase::Outside => if e == EventView::Open("body"@) {
                Ok(with_phase(p, Phase::InBody))
            } else {
                Ok(p)
            },
            Phase::InBody => match e {
                EventView::Open(n) => if n == "p"@ {
                    Ok(with_phase(p, Phase::InLine(empty_line())))
                } else {
                    Ok(p)
                },
                EventView::Close(n) => if n == "div"@ {
                    Ok(Progress { phase: Phase::InBody, paragraphs: p.paragraphs.push(p.paragraph), paragraph: Seq::empty() })
                } else if n == "p"@ || n == "span"@ {
                    Err(ErrorView::UnexpectedClose(n))
                } else {
                    Ok(p)
                },
                _ => Ok(p),
            },
            Phase::InLine(l) => match e {
                EventView::Open(n) => if n == "span"@ {
                    Ok(with_phase(p, Phase::InPart(l, empty_part())))
                } else {
                    Ok(p)
                },
                EventView::Attribute(n, v) => match timed_line(l, n, v) {
                    Ok(l2) => Ok(with_phase(p, Phase::InLine(l2))),
                    Err(x) => Err(x),
                },
                EventView::Text(t) => Ok(with_phase(p, Phase::InLine(
                    LineView { text: t, start: l.start, end: l.end, parts: l.parts }))),
                EventView::Close(n) => if n == "p"@ {
                    Ok(Progress { phase: Phase::InBody, paragraphs: p.paragraphs, paragraph: p.paragraph.push(finished_line(l)) })
                } else if n == "span"@ {
                    Err(ErrorView::UnexpectedClose(n))
                } else {
                    Ok(p)
                },
                EventView::Other => Ok(p),
            },
            Phase::InPart(l, q) => match e {
                EventView::Attribute(n, v) => match timed_part(q, n, v) {
                    Ok(q2) => Ok(with_phase(p, Phase::InPart(l, q2))),
                    Err(x) => Err(x),
                },
                EventView::Text(t) => Ok(with_phase(p, Phase::InPart(l, PartView { text: t, start: q.start, end: q.end }))),
                EventView::Close(n) => if n == "span"@ {
                    Ok(with_phase(p, Phase::InLine(
                        LineView { text: l.text, start: l.start, end: l.end, parts: l.parts.push(q) })))
                } else if n == "p"@ {
                    Err(ErrorView::UnexpectedClose(n))
                } else {
                    Ok(p)
                },
                _ => Ok(p),
            },
            Phase::Done => Ok(p),
        }
    }
}

/// The extraction over a whole sequence of events: the first error ends it.
pub open spec fn run(p: Progress, es: Seq<EventView>) -> Result<Progress, ErrorView>
    decreases es.len(),
{
    if es.len() == 0 {
        Ok(p)
    } else {
        match step(p, es[0]) {
            Ok(p2) => run(p2, es.drop_first()),
            Err(x) => Err(x),
        }
    }
}

/// The lyrics document that a sequence of events gives, or why it gives none.
pub open spec fn extraction(es: Seq<EventView>, language: Seq<char>) -> Result<LyricsView, ErrorView> {
    match run(initial_progress(), es) {
        Ok(p) => Ok(LyricsView { paragraphs: p.paragraphs, language }),
        Err(x) => Err(x),
    }
}

/// The exec counterpart of `Phase`, holding the line and part being read.
pub enum Scope {
    Outside,
    InBody,
    InLine(LyricsLine),
    InPart(LyricsLine, LyricsLinePart),
    Done,
}

impl View for Scope {
    type V = Phase;

    open spec fn view(&self) -> Phase {
        match self {
            Scope::Outside => Phase::Outside,
            Scope::InBody => Phase::InBody,
            Scope::InLine(l) => Phase::InLine(l@),
            Scope::InPart(l, q) => Phase::InPart(l@, q@),
            Scope::Done => Phase::Done,
        }
    }
}

/// A lyrics extraction in progress, fed one event at a time.
pub struct Extractor {
    pub scope: Scope,
    pub paragraphs: Vec<Vec<LyricsLine>>,
    pub paragraph: Vec<LyricsLine>,
}

impl View for Extractor {
    type V = Progress;

    open spec fn view(&self) -> Progress {
        Progress {
            phase: self.scope@,
            paragraphs: paragraphs_view(self.paragraphs@),
            paragraph: lines_view(self.paragraph@),
        }
    }
}

/// Whether an exec result is the one that a transition of the model gives.
pub open spec fn step_matches(r: Result<Extractor, LyricsError>, s: Result<Progress, ErrorView>) -> bool {
    match s {
        Ok(p) => r is Ok && r->Ok_0@ == p,
        Err(x) => r is Err && r->Err_0@ == x,
    }
}

fn is_name(n: &String, name: &str) -> (r: bool)
    ensures
        r == (n@ == name@),
{
    *n == name.to_owned()
}

fn new_line() -> (r: LyricsLine)
    ensures
        r@ == empty_line(),
{
    let r = LyricsLine { text: String::new(), start: None, end: None, parts: Vec::new() };
    assert(r@.parts =~= Seq::<PartView>::empty());
    r
}

fn time_line(l: LyricsLine, n: &String, v: &String) -> (r: Result<LyricsLine, LyricsError>)
    ensures
        match timed_line(l@, n@, v@) {
            Ok(x) => r is Ok && r->Ok_0@ == x,
            Err(x) => r is Err && r->Err_0@ == x,
        },
{
    let begin = is_name(n, "begin");
    let end = is_name(n, "end");
    if !begin && !end {
        return Ok(l);
    }
    match parse_timestamp(v.as_str()) {
        Some(t) => {
            let mut l = l;
            if begin {
                l.start = Some(t);
            } else {
                l.end = Some(t);
            }
            Ok(l)
        },
        None => Err(LyricsError::Timestamp(v.clone())),
    }
}

fn time_part(q: LyricsLinePart, n: &String, v: &String) -> (r: Result<LyricsLinePart, LyricsError>)
    ensures
        match timed_part(q@, n@, v@) {
            Ok(x) => r is Ok && r->Ok_0@ == x,
            Err(x) => r is Err && r->Err_0@ == x,
        },
{
    let begin = is_name(n, "begin");
    let end = is_name(n, "end");
    if !begin && !end {
        return Ok(q);
    }
    match parse_timestamp(v.as_str()) {
        Some(t) => {
            let mut q = q;
            if begin {
                q.start = Some(t);
            } else {
                q.end = Some(t);
            }
            Ok(q)
        },
        None => Err(LyricsError::Timestamp(v.clone())),
    }
}

fn finish_line(l: LyricsLine) -> (r: LyricsLine)
    ensures
        r@ == finished_line(l@),
{
    if l.text.as_str().is_empty() {
        let text = join_part_texts(&l.parts);
        LyricsLine { text, start: l.start, end: l.end, parts: l.parts }
    } else {
        l
    }
}

impl Extractor {
    /// An extraction that has seen no event yet.
    pub fn new() -> (r: Extractor)
        ensures
            r@ == initial_progress(),
    {
        let r = Extractor { scope: Scope::Outside, paragraphs: Vec::new(), paragraph: Vec::new() };
        assert(r@.paragraphs =~= Seq::<Seq<LineView>>::empty());
        assert(r@.paragraph =~= Seq::<LineView>::empty());
        r
    }

    /// Whether the body has been closed, after which no event changes anything.
    pub fn is_done(&self) -> (r: bool)
        ensures
            r == (self@.phase is Done),
    {
        match self.scope {
            Scope::Done => true,
            _ => false,
        }
    }

    /// The document built so far: the finished paragraphs, in `language`.
    pub fn finish(self, language: &str) -> (r: Lyrics)
        ensures
            r@ == (LyricsView { paragraphs: self@.paragraphs, language: language@ }),
    {
        Lyrics { paragraphs: self.paragraphs, language: language.to_owned() }
    }

    /// Takes one event.
    pub fn step(self, e: &Event) -> (r: Result<Extractor, LyricsError>)
        ensures
            step_matches(r, step(self@, e@)),
    {
        let ghost old_view = self@;
        let Extractor { scope, mut paragraphs, mut paragraph } = self;
        if let Scope::Done = scope {
            return Ok(Extractor { scope, paragraphs, paragraph });
        }
        let close_body = match &e {
            Event::Close(n) => is_name(n, "body"),
            _ => false,
        };
        if close_body {
            return Ok(Extractor { scope: Scope::Done, paragraphs, paragraph });
        }
        match scope {
            Scope::Outside => {
                let open_body = match &e {
                    Event::Open(n) => is_name(n, "body"),
                    _ => false,
                };
                let scope = if open_body {
                    Scope::InBody
                } else {
                    Scope::Outside
                };
                Ok(Extractor { scope, paragraphs, paragraph })
            },
            Scope::InBody => match e {
                Event::Open(n) => {
                    let scope = if is_name(n, "p") {
                        Scope::InLine(new_line())
                    } else {
                        Scope::InBody
                    };
                    Ok(Extractor { scope, paragraphs, paragraph })
                },
                Event::Close(n) => {
                    if is_name(n, "div") {
                        let ghost lines = paragraph@;
                        paragraphs.push(paragraph);
                        let r = Extractor { scope: Scope::InBody, paragraphs, paragraph: Vec::new() };
                        assert(r@.paragraphs =~= old_view.paragraphs.push(lines_view(lines)));
                        assert(r@.paragraph =~= Seq::<LineView>::empty());
                        Ok(r)
                    } else if is_name(n, "p") || is_name(n, "span") {
                        Err(LyricsError::UnexpectedClose(n.clone()))
                    } else {
                        Ok(Extractor { scope: Scope::InBody, paragraphs, paragraph })
                    }
                },
                _ => Ok(Extractor { scope: Scope::InBody, paragraphs, paragraph }),
            },
            Scope::InLine(l) => match e {
                Event::Open(n) => {
                    let scope = if is_name(n, "span") {
                        Scope::InPart(l, LyricsLinePart { text: String::new(), start: None, end: None })
                    } else {
                        Scope::InLine(l)
                    };
                    Ok(Extractor { scope, paragraphs, paragraph })
                },
                Event::Attribute(n, v) => match time_line(l, n, v) {
                    Ok(l2) => Ok(Extractor { scope: Scope::InLine(l2), paragraphs, paragraph }),
                    Err(x) => Err(x),
                },
                Event::Text(t) => {
                    let l2 = LyricsLine { text: t.clone(), start: l.start, end: l.end, parts: l.parts };
                    Ok(Extractor { scope: Scope::InLine(l2), paragraphs, paragraph })
                },
                Event::Close(n) => {
                    if is_name(n, "p") {
                        let line = finish_line(l);
                        let ghost lv = line@;
                        paragraph.push(line);
                        let r = Extractor { scope: Scope::InBody, paragraphs, paragraph };
                        assert(r@.paragraph =~= old_view.paragraph.push(lv));
                        Ok(r)
                    } else if is_name(n, "span") {
                        Err(LyricsError::UnexpectedClose(n.clone()))
                    } else {
                        Ok(Extractor { scope: Scope::InLine(l), paragraphs, paragraph })
                    }
                },
                Event::Other => Ok(Extractor { scope: Scope::InLine(l), paragraphs, paragraph }),
            },
            Scope::InPart(l, q) => match e {
                Event::Attribute(n, v) => match time_part(q, n, v) {
                    Ok(q2) => Ok(Extractor { scope: Scope::InPart(l, q2), paragraphs, paragraph }),
                    Err(x) => Err(x),
                },
                Event::Text(t) => {
                    let q2 = LyricsLinePart { text: t.clone(), start: q.start, end: q.end };
                    Ok(Extractor { scope: Scope::InPart(l, q2), paragraphs, paragraph })
                },
                Event::Close(n) => {
                    if is_name(n, "span") {
                        let ghost qv = q@;
                        let mut l = l;
                        let ghost old_parts = parts_view(l.parts@);
                        l.parts.push(q);
                        assert(parts_view(l.parts@) =~= old_parts.push(qv));
                        Ok(Extractor { scope: Scope::InLine(l), paragraphs, paragraph })
                    } else if is_name(n, "p") {
                        Err(LyricsError::UnexpectedClose(n.clone()))
                    } else {
                        Ok(Extractor { scope: Scope::InPart(l, q), paragraphs, paragraph })
                    }
                },
                _ => Ok(Extractor { scope: Scope::InPart(l, q), paragraphs, paragraph }),
            },
            Scope::Done => Ok(Extractor { scope: Scope::Done, paragraphs, paragraph }),
        }
    }
}

pub open spec fn events_view(es: Seq<Event>) -> Seq<EventView> {
    Seq::new(es.len(), |i: int| es[i]@)
}

/// Whether an exec result is the document, or the error, that the model gives.
pub open spec fn extraction_matches(r: Result<Lyrics, LyricsError>, s: Result<LyricsView, ErrorView>) -> bool {
    match s {
        Ok(v) => r is Ok && r->Ok_0@ == v,
        Err(x) => r is Err && r->Err_0@ == x,
    }
}

/// Once the body is closed, further events change nothing.
pub proof fn lemma_run_done(p: Progress, es: Seq<EventView>)
    requires
        p.phase is Done,
    ensures
        run(p, es) == Ok::<Progress, ErrorView>(p),
    decreases es.len(),
{
    if es.len() > 0 {
        lemma_run_done(p, es.drop_first());
    }
}

/// A token of the markup: an event, or the tokenizer's message where the
/// text is malformed.
pub open spec fn token_view(t: Result<Event, String>) -> Result<EventView, Seq<char>> {
    match t {
        Ok(e) => Ok(e@),
        Err(m) => Err(m@),
    }
}

/// The extraction over a sequence of tokens: it stops once the body is
/// closed, and a malformed token before that is a `Markup` error.
pub open spec fn run_tokens(p: Progress, ts: Seq<Result<EventView, Seq<char>>>) -> Result<Progress, ErrorView>
    decreases ts.len(),
{
    if ts.len() == 0 || p.phase is Done {
        Ok(p)
    } else {
        match ts[0] {
            Err(m) => Err(ErrorView::Markup(m)),
            Ok(e) => match step(p, e) {
                Ok(p2) => run_tokens(p2, ts.drop_first()),
                Err(x) => Err(x),
            },
        }
    }
}

/// The lyrics document that a sequence of tokens gives, or why it gives none.
pub open spec fn token_extraction(ts: Seq<Result<EventView, Seq<char>>>, language: Seq<char>) -> Result<LyricsView, ErrorView> {
    match run_tokens(initial_progress(), ts) {
        Ok(p) => Ok(LyricsView { paragraphs: p.paragraphs, language }),
        Err(x) => Err(x),
    }
}

/// Running over two sequences one after the other is running over their concatenation.
pub proof fn lemma_run_concat(p: Progress, a: Seq<EventView>, b: Seq<EventView>)
    ensures
        run(p, a + b) == (match run(p, a) {
            Ok(q) => run(q, b),
            Err(x) => Err(x),
        }),
    decreases a.len(),
{
    if a.len() == 0 {
        assert(a + b =~= b);
    } else {
        assert((a + b).drop_first() =~= a.drop_first() + b);
        match step(p, a[0]) {
            Ok(p2) => lemma_run_concat(p2, a.drop_first(), b),
            Err(x) => {},
        }
    }
}

/// Running over one more event is one more transition.
pub proof fn lemma_run_push(p: Progress, a: Seq<EventView>, e: EventView)
    ensures
        run(p, a.push(e)) == (match run(p, a) {
            Ok(q) => step(q, e),
            Err(x) => Err(x),
        }),
{
    assert(a.push(e) =~= a + seq![e]);
    lemma_run_concat(p, a, seq![e]);
    assert(seq![e].drop_first() =~= Seq::<EventView>::empty());
    if let Ok(q) = run(p, a) {
        if let Ok(q2) = step(q, e) {
            assert(run(q2, Seq::<EventView>::empty()) == Ok::<Progress, ErrorView>(q2));
        }
    }
}

/// Builds the lyrics document, in `language`, from a sequence of markup events.
pub fn extract(events: &Vec<Event>, language: &str) -> (r: Result<Lyrics, LyricsError>)
    ensures
        extraction_matches(r, extraction(events_view(events@), language@)),
{
    let ghost es = events_view(events@);
    let mut ex = Extractor::new();
    let mut i: usize = 0;
    assert(es.skip(0) =~= es);
    while i < events.len()
        invariant
            i <= events.len(),
            es == events_view(events@),
            run(initial_progress(), es) == run(ex@, es.skip(i as int)),
        ensures
            i == events.len() || ex@.phase is Done,
            run(initial_progress(), es) == run(ex@, es.skip(i as int)),
        decreases events.len() - i,
    {
        if ex.is_done() {
            break;
        }
        assert(es.skip(i as int).drop_first() =~= es.skip(i + 1));
        match ex.step(&events[i]) {
            Ok(next) => {
                ex = next;
            },
            Err(x) => {
                return Err(x);
            },
        }
        i = i + 1;
    }
    proof {
        if ex@.phase is Done {
            lemma_run_done(ex@, es.skip(i as int));
        } else {
            assert(es.skip(i as int) =~= Seq::<EventView>::empty());
        }
    }
    Ok(ex.finish(language))
}

} // verus!
