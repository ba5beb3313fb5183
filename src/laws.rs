use vstd::prelude::*;

use crate::extract::{
    run_tokens, token_extraction, extraction, lemma_run_concat, lemma_run_done, lemma_run_push, run, step, with_phase,
    initial_progress, ErrorView, EventView, Phase, Progress,
};
use crate::extract::finished_line;
use crate::lyrics::{joined_texts, LineView, LyricsView, PartView};
use crate::timestamp::timestamp_value;
use crate::ttml::ttml_tokens;

verus! {

/// The events of one `span` element per text, each holding only that text.
pub open spec fn span_events(texts: Seq<Seq<char>>) -> Seq<EventView>
    decreases texts.len(),
{
    if texts.len() == 0 {
        Seq::empty()
    } else {
        span_events(texts.drop_last()) + seq![
            EventView::Open("span"@),
            EventView::Text(texts.last()),
            EventView::Close("span"@),
        ]
    }
}

/// Untimed parts with the given texts.
pub open spec fn untimed_parts(texts: Seq<Seq<char>>) -> Seq<PartView> {
    Seq::new(texts.len(), |i: int| PartView { text: texts[i], start: None, end: None })
}

pub open spec fn plain_line(t: Seq<char>) -> LineView {
    LineView { text: t, start: None, end: None, parts: Seq::empty() }
}

/// The events of `<p>t</p>`.
pub open spec fn plain_line_events(t: Seq<char>) -> Seq<EventView> {
    seq![EventView::Open("p"@), EventView::Text(t), EventView::Close("p"@)]
}

proof fn lemma_names_distinct()
    ensures
        "span"@ != "body"@,
        "p"@ != "body"@,
        "div"@ != "body"@,
        "p"@ != "span"@,
        "div"@ != "p"@,
        "div"@ != "span"@,
        "begin"@ != "end"@,
{
    reveal_strlit("body");
    reveal_strlit("div");
    reveal_strlit("p");
    reveal_strlit("span");
    reveal_strlit("begin");
    reveal_strlit("end");
    assert("span"@[0] != "body"@[0]);
    assert("p"@.len() != "body"@.len());
    assert("div"@.len() != "body"@.len());
    assert("p"@.len() != "span"@.len());
    assert("div"@.len() != "p"@.len());
    assert("div"@.len() != "span"@.len());
    assert("begin"@.len() != "end"@.len());
}

/// A run whose every transition succeeds, through the given states.
proof fn lemma_run_trace(es: Seq<EventView>, ps: Seq<Progress>)
    requires
        ps.len() == es.len() + 1,
        forall|i: int| 0 <= i < es.len() ==> step(ps[i], #[trigger] es[i]) == Ok::<Progress, ErrorView>(ps[i + 1]),
    ensures
        run(ps[0], es) == Ok::<Progress, ErrorView>(ps.last()),
    decreases es.len(),
{
    if es.len() > 0 {
        assert(step(ps[0], es[0]) == Ok::<Progress, ErrorView>(ps[1]));
        let es2 = es.drop_first();
        let ps2 = ps.drop_first();
        assert forall|i: int| 0 <= i < es2.len() implies step(ps2[i], #[trigger] es2[i]) == Ok::<Progress, ErrorView>(ps2[i + 1]) by {
            assert(step(ps[i + 1], es[i + 1]) == Ok::<Progress, ErrorView>(ps[i + 2]));
        }
        lemma_run_trace(es2, ps2);
    }
}

proof fn lemma_spans(p: Progress, l: LineView, texts: Seq<Seq<char>>)
    requires
        p.phase == Phase::InLine(l),
    ensures
        run(p, span_events(texts)) == Ok::<Progress, ErrorView>(with_phase(p, Phase::InLine(
            LineView { text: l.text, start: l.start, end: l.end, parts: l.parts + untimed_parts(texts) }))),
    decreases texts.len(),
{
    lemma_names_distinct();
    if texts.len() == 0 {
        assert(l.parts + untimed_parts(texts) =~= l.parts);
        assert(run(p, Seq::<EventView>::empty()) == Ok::<Progress, ErrorView>(p));
    } else {
        let init = texts.drop_last();
        lemma_spans(p, l, init);
        let q = with_phase(p, Phase::InLine(
            LineView { text: l.text, start: l.start, end: l.end, parts: l.parts + untimed_parts(init) }));
        let tail = seq![EventView::Open("span"@), EventView::Text(texts.last()), EventView::Close("span"@)];
        lemma_run_concat(p, span_events(init), tail);
        let l1 = LineView { text: l.text, start: l.start, end: l.end, parts: l.parts + untimed_parts(init) };
        let part = PartView { text: texts.last(), start: None, end: None };
        let ps = seq![
            q,
            with_phase(p, Phase::InPart(l1, PartView { text: Seq::empty(), start: None, end: None })),
            with_phase(p, Phase::InPart(l1, part)),
            with_phase(p, Phase::InLine(
                LineView { text: l.text, start: l.start, end: l.end, parts: l1.parts.push(part) })),
        ];
        assert(step(ps[0], tail[0]) == Ok::<Progress, ErrorView>(ps[1]));
        assert(step(ps[1], tail[1]) == Ok::<Progress, ErrorView>(ps[2]));
        assert(step(ps[2], tail[2]) == Ok::<Progress, ErrorView>(ps[3]));
        lemma_run_trace(tail, ps);
        assert(l1.parts.push(part) =~= l.parts + untimed_parts(texts));
    }
}

/// A body holding one paragraph with one line of plain text gives one line
/// with exactly that text, no times and no parts.
pub proof fn law_plain_line(t: Seq<char>, language: Seq<char>)
    ensures
        extraction(
            seq![EventView::Open("body"@), EventView::Open("div"@)] + plain_line_events(t)
                + seq![EventView::Close("div"@), EventView::Close("body"@)],
            language,
        ) == Ok::<LyricsView, ErrorView>(LyricsView { paragraphs: seq![seq![plain_line(t)]], language }),
{
    lemma_names_distinct();
    let es = seq![EventView::Open("body"@), EventView::Open("div"@)] + plain_line_events(t)
        + seq![EventView::Close("div"@), EventView::Close("body"@)];
    assert(es =~= seq![EventView::Open("body"@), EventView::Open("div"@), EventView::Open("p"@),
        EventView::Text(t), EventView::Close("p"@), EventView::Close("div"@), EventView::Close("body"@)]);
    let body = with_phase(initial_progress(), Phase::InBody);
    let line = plain_line(t);
    let ps = seq![
        initial_progress(),
        body,
        body,
        with_phase(body, Phase::InLine(LineView { text: Seq::empty(), start: None, end: None, parts: Seq::empty() })),
        with_phase(body, Phase::InLine(line)),
        Progress { phase: Phase::InBody, paragraphs: Seq::empty(), paragraph: seq![line] },
        Progress { phase: Phase::InBody, paragraphs: seq![seq![line]], paragraph: Seq::empty() },
        Progress { phase: Phase::Done, paragraphs: seq![seq![line]], paragraph: Seq::empty() },
    ];
    assert(joined_texts(Seq::<PartView>::empty()) == Seq::<char>::empty());
    assert forall|i: int| 0 <= i < es.len() implies step(ps[i], #[trigger] es[i]) == Ok::<Progress, ErrorView>(ps[i + 1]) by {
        lemma_names_distinct();
        if i == 5 {
            assert(Seq::<Seq<LineView>>::empty().push(seq![line]) =~= seq![seq![line]]);
        } else if i == 4 {
            if t.len() == 0 {
                assert(t =~= Seq::<char>::empty());
            }
            assert(Seq::<LineView>::empty().push(line) =~= seq![line]);
        }
    }
    lemma_run_trace(es, ps);
}

/// A line without text of its own whose spans each hold one text gets one
/// untimed part per span, in order, and the part texts joined by single
/// spaces as its text.
pub proof fn law_spans_joined(texts: Seq<Seq<char>>, language: Seq<char>)
    requires
        forall|i: int| 0 <= i < texts.len() ==> (#[trigger] texts[i]).len() > 0,
    ensures
        extraction(
            seq![EventView::Open("body"@), EventView::Open("div"@), EventView::Open("p"@)] + span_events(texts)
                + seq![EventView::Close("p"@), EventView::Close("div"@), EventView::Close("body"@)],
            language,
        ) == Ok::<LyricsView, ErrorView>(LyricsView {
            paragraphs: seq![seq![LineView {
                text: joined_texts(untimed_parts(texts)),
                start: None,
                end: None,
                parts: untimed_parts(texts),
            }]],
            language,
        }),
        untimed_parts(texts).len() == texts.len(),
{
    lemma_names_distinct();
    let head = seq![EventView::Open("body"@), EventView::Open("div"@), EventView::Open("p"@)];
    let tail = seq![EventView::Close("p"@), EventView::Close("div"@), EventView::Close("body"@)];
    let body = with_phase(initial_progress(), Phase::InBody);
    let empty = LineView { text: Seq::empty(), start: None, end: None, parts: Seq::empty() };
    let in_line = with_phase(body, Phase::InLine(empty));
    let ps1 = seq![initial_progress(), body, body, in_line];
    assert forall|i: int| 0 <= i < head.len() implies step(ps1[i], #[trigger] head[i]) == Ok::<Progress, ErrorView>(ps1[i + 1]) by {
        lemma_names_distinct();
    }
    lemma_run_trace(head, ps1);
    lemma_spans(in_line, empty, texts);
    assert(empty.parts + untimed_parts(texts) =~= untimed_parts(texts));
    let line = LineView { text: Seq::empty(), start: None, end: None, parts: untimed_parts(texts) };
    let done_line = LineView { text: joined_texts(untimed_parts(texts)), start: None, end: None, parts: untimed_parts(texts) };
    let ps2 = seq![
        with_phase(body, Phase::InLine(line)),
        Progress { phase: Phase::InBody, paragraphs: Seq::empty(), paragraph: seq![done_line] },
        Progress { phase: Phase::InBody, paragraphs: seq![seq![done_line]], paragraph: Seq::empty() },
        Progress { phase: Phase::Done, paragraphs: seq![seq![done_line]], paragraph: Seq::empty() },
    ];
    assert forall|i: int| 0 <= i < tail.len() implies step(ps2[i], #[trigger] tail[i]) == Ok::<Progress, ErrorView>(ps2[i + 1]) by {
        lemma_names_distinct();
        assert(Seq::<LineView>::empty().push(done_line) =~= seq![done_line]);
        assert(Seq::<Seq<LineView>>::empty().push(seq![done_line]) =~= seq![seq![done_line]]);
    }
    lemma_run_trace(tail, ps2);
    lemma_run_concat(initial_progress(), head, span_events(texts));
    lemma_run_concat(initial_progress(), head + span_events(texts), tail);
}

/// The `begin` and `end` values of a line and of its part become their
/// times exactly as the timestamp reading gives them.
pub proof fn law_times_kept(
    line_begin: Seq<char>,
    line_end: Seq<char>,
    part_begin: Seq<char>,
    part_end: Seq<char>,
    t: Seq<char>,
    language: Seq<char>,
)
    requires
        timestamp_value(line_begin) is Some,
        timestamp_value(line_end) is Some,
        timestamp_value(part_begin) is Some,
        timestamp_value(part_end) is Some,
    ensures
        extraction(
            seq![
                EventView::Open("body"@),
                EventView::Open("div"@),
                EventView::Open("p"@),
                EventView::Attribute("begin"@, line_begin),
                EventView::Attribute("end"@, line_end),
                EventView::Open("span"@),
                EventView::Attribute("begin"@, part_begin),
                EventView::Attribute("end"@, part_end),
                EventView::Text(t),
                EventView::Close("span"@),
                EventView::Close("p"@),
                EventView::Close("div"@),
                EventView::Close("body"@),
            ],
            language,
        ) == Ok::<LyricsView, ErrorView>(LyricsView {
            paragraphs: seq![seq![LineView {
                text: t,
                start: timestamp_value(line_begin),
                end: timestamp_value(line_end),
                parts: seq![PartView { text: t, start: timestamp_value(part_begin), end: timestamp_value(part_end) }],
            }]],
            language,
        }),
{
    lemma_names_distinct();
    let es = seq![
        EventView::Open("body"@),
        EventView::Open("div"@),
        EventView::Open("p"@),
        EventView::Attribute("begin"@, line_begin),
        EventView::Attribute("end"@, line_end),
        EventView::Open("span"@),
        EventView::Attribute("begin"@, part_begin),
        EventView::Attribute("end"@, part_end),
        EventView::Text(t),
        EventView::Close("span"@),
        EventView::Close("p"@),
        EventView::Close("div"@),
        EventView::Close("body"@),
    ];
    let (lb, le, qb, qe) = (timestamp_value(line_begin), timestamp_value(line_end), timestamp_value(part_begin), timestamp_value(part_end));
    let body = with_phase(initial_progress(), Phase::InBody);
    let l0 = LineView { text: Seq::empty(), start: None, end: None, parts: Seq::empty() };
    let l1 = LineView { text: Seq::empty(), start: lb, end: None, parts: Seq::empty() };
    let l2 = LineView { text: Seq::empty(), start: lb, end: le, parts: Seq::empty() };
    let q0 = PartView { text: Seq::empty(), start: None, end: None };
    let q1 = PartView { text: Seq::empty(), start: qb, end: None };
    let q2 = PartView { text: Seq::empty(), start: qb, end: qe };
    let q3 = PartView { text: t, start: qb, end: qe };
    let l3 = LineView { text: Seq::empty(), start: lb, end: le, parts: seq![q3] };
    let l4 = LineView { text: t, start: lb, end: le, parts: seq![q3] };
    let ps = seq![
        initial_progress(),
        body,
        body,
        with_phase(body, Phase::InLine(l0)),
        with_phase(body, Phase::InLine(l1)),
        with_phase(body, Phase::InLine(l2)),
        with_phase(body, Phase::InPart(l2, q0)),
        with_phase(body, Phase::InPart(l2, q1)),
        with_phase(body, Phase::InPart(l2, q2)),
        with_phase(body, Phase::InPart(l2, q3)),
        with_phase(body, Phase::InLine(l3)),
        Progress { phase: Phase::InBody, paragraphs: Seq::empty(), paragraph: seq![l4] },
        Progress { phase: Phase::InBody, paragraphs: seq![seq![l4]], paragraph: Seq::empty() },
        Progress { phase: Phase::Done, paragraphs: seq![seq![l4]], paragraph: Seq::empty() },
    ];
    assert forall|i: int| 0 <= i < es.len() implies step(ps[i], #[trigger] es[i]) == Ok::<Progress, ErrorView>(ps[i + 1]) by {
        lemma_names_distinct();
        if i == 9 {
            assert(Seq::<PartView>::empty().push(q3) =~= seq![q3]);
        } else if i == 10 {
            assert(seq![q3].drop_last() =~= Seq::<PartView>::empty());
            if t.len() == 0 {
                assert(t =~= Seq::<char>::empty());
            }
            assert(finished_line(l3) == l4);
            assert(Seq::<LineView>::empty().push(l4) =~= seq![l4]);
        } else if i == 11 {
            assert(Seq::<Seq<LineView>>::empty().push(seq![l4]) =~= seq![seq![l4]]);
        }
    }
    lemma_run_trace(es, ps);
}

/// Two `div` blocks with one line each give two paragraphs of one line each,
/// in the order of the source.
pub proof fn law_paragraphs_kept(t1: Seq<char>, t2: Seq<char>, language: Seq<char>)
    ensures
        extraction(
            seq![EventView::Open("body"@), EventView::Open("div"@)] + plain_line_events(t1)
                + seq![EventView::Close("div"@), EventView::Open("div"@)] + plain_line_events(t2)
                + seq![EventView::Close("div"@), EventView::Close("body"@)],
            language,
        ) == Ok::<LyricsView, ErrorView>(LyricsView {
            paragraphs: seq![seq![plain_line(t1)], seq![plain_line(t2)]],
            language,
        }),
{
    let es = seq![EventView::Open("body"@), EventView::Open("div"@)] + plain_line_events(t1)
        + seq![EventView::Close("div"@), EventView::Open("div"@)] + plain_line_events(t2)
        + seq![EventView::Close("div"@), EventView::Close("body"@)];
    assert(es =~= seq![
        EventView::Open("body"@), EventView::Open("div"@),
        EventView::Open("p"@), EventView::Text(t1), EventView::Close("p"@),
        EventView::Close("div"@), EventView::Open("div"@),
        EventView::Open("p"@), EventView::Text(t2), EventView::Close("p"@),
        EventView::Close("div"@), EventView::Close("body"@),
    ]);
    let (a, b) = (plain_line(t1), plain_line(t2));
    let body = with_phase(initial_progress(), Phase::InBody);
    let empty = LineView { text: Seq::empty(), start: None, end: None, parts: Seq::empty() };
    let one = seq![seq![a]];
    let two = seq![seq![a], seq![b]];
    let ps = seq![
        initial_progress(),
        body,
        body,
        with_phase(body, Phase::InLine(empty)),
        with_phase(body, Phase::InLine(a)),
        Progress { phase: Phase::InBody, paragraphs: Seq::empty(), paragraph: seq![a] },
        Progress { phase: Phase::InBody, paragraphs: one, paragraph: Seq::empty() },
        Progress { phase: Phase::InBody, paragraphs: one, paragraph: Seq::empty() },
        Progress { phase: Phase::InLine(empty), paragraphs: one, paragraph: Seq::empty() },
        Progress { phase: Phase::InLine(b), paragraphs: one, paragraph: Seq::empty() },
        Progress { phase: Phase::InBody, paragraphs: one, paragraph: seq![b] },
        Progress { phase: Phase::InBody, paragraphs: two, paragraph: Seq::empty() },
        Progress { phase: Phase::Done, paragraphs: two, paragraph: Seq::empty() },
    ];
    assert forall|i: int| 0 <= i < es.len() implies step(ps[i], #[trigger] es[i]) == Ok::<Progress, ErrorView>(ps[i + 1]) by {
        lemma_names_distinct();
        if t1.len() == 0 {
            assert(t1 =~= Seq::<char>::empty());
        }
        if t2.len() == 0 {
            assert(t2 =~= Seq::<char>::empty());
        }
        assert(joined_texts(Seq::<PartView>::empty()) == Seq::<char>::empty());
        assert(Seq::<LineView>::empty().push(a) =~= seq![a]);
        assert(Seq::<LineView>::empty().push(b) =~= seq![b]);
        assert(Seq::<Seq<LineView>>::empty().push(seq![a]) =~= one);
        assert(one.push(seq![b]) =~= two);
    }
    lemma_run_trace(es, ps);
}

/// Extraction is a function of the events: the same events give the same
/// document, or the same error.
pub proof fn law_deterministic(a: Seq<EventView>, b: Seq<EventView>, language: Seq<char>)
    requires
        a == b,
    ensures
        extraction(a, language) == extraction(b, language),
{
}

/// Nothing after the body's closing tag is read: events that follow it
/// change neither the document nor the error.
pub proof fn law_after_body_ignored(a: Seq<EventView>, b: Seq<EventView>, language: Seq<char>)
    requires
        a.len() > 0,
        a.last() == EventView::Close("body"@),
    ensures
        extraction(a + b, language) == extraction(a, language),
{
    lemma_run_concat(initial_progress(), a, b);
    assert(a.drop_last().push(a.last()) =~= a);
    lemma_run_push(initial_progress(), a.drop_last(), a.last());
    if let Ok(q) = run(initial_progress(), a) {
        lemma_run_done(q, b);
    }
}

/// Tokens that are all well formed, with the given events.
pub open spec fn as_tokens(es: Seq<EventView>) -> Seq<Result<EventView, Seq<char>>> {
    Seq::new(es.len(), |i: int| Ok(es[i]))
}

proof fn lemma_run_tokens_events(p: Progress, es: Seq<EventView>)
    ensures
        run_tokens(p, as_tokens(es)) == run(p, es),
    decreases es.len(),
{
    if es.len() > 0 {
        if p.phase is Done {
            lemma_run_done(p, es);
        } else {
            assert(as_tokens(es).drop_first() =~= as_tokens(es.drop_first()));
            if let Ok(p2) = step(p, es[0]) {
                lemma_run_tokens_events(p2, es.drop_first());
            }
        }
    }
}

proof fn lemma_run_tokens_concat(p: Progress, a: Seq<Result<EventView, Seq<char>>>, b: Seq<Result<EventView, Seq<char>>>)
    ensures
        run_tokens(p, a + b) == (match run_tokens(p, a) {
            Ok(q) => run_tokens(q, b),
            Err(x) => Err(x),
        }),
    decreases a.len(),
{
    if a.len() == 0 {
        assert(a + b =~= b);
    } else if p.phase is Done {
        if b.len() > 0 {
            assert((a + b).len() > 0);
        }
    } else {
        assert((a + b).drop_first() =~= a.drop_first() + b);
        assert((a + b)[0] == a[0]);
        if let Ok(e) = a[0] {
            if let Ok(p2) = step(p, e) {
                lemma_run_tokens_concat(p2, a.drop_first(), b);
            }
        }
    }
}

proof fn lemma_run_tokens_body_closed(p: Progress, a: Seq<Result<EventView, Seq<char>>>)
    requires
        a.len() > 0,
        a.last() == Ok::<EventView, Seq<char>>(EventView::Close("body"@)),
    ensures
        run_tokens(p, a) matches Ok(q) ==> q.phase is Done,
    decreases a.len(),
{
    if !(p.phase is Done) {
        if let Ok(e) = a[0] {
            if let Ok(p2) = step(p, e) {
                if a.len() == 1 {
                    assert(run_tokens(p2, a.drop_first()) == Ok::<Progress, ErrorView>(p2));
                } else {
                    assert(a.drop_first().last() == a.last());
                    lemma_run_tokens_body_closed(p2, a.drop_first());
                }
            }
        }
    }
}

/// Markup whose tokens are all well formed gives exactly the extraction of
/// their events; with this, every law above over events holds of the
/// markup's lyrics.
pub proof fn law_markup_as_events(ttml: Seq<char>, es: Seq<EventView>, language: Seq<char>)
    requires
        ttml_tokens(ttml) == as_tokens(es),
    ensures
        token_extraction(ttml_tokens(ttml), language) == extraction(es, language),
{
    lemma_run_tokens_events(initial_progress(), es);
}

/// Markup with one paragraph holding one line of plain text gives one line
/// with exactly that text, no times and no parts.
pub proof fn law_markup_plain_line(ttml: Seq<char>, t: Seq<char>, language: Seq<char>)
    requires
        ttml_tokens(ttml) == as_tokens(seq![EventView::Open("body"@), EventView::Open("div"@)] + plain_line_events(t)
            + seq![EventView::Close("div"@), EventView::Close("body"@)]),
    ensures
        token_extraction(ttml_tokens(ttml), language)
            == Ok::<LyricsView, ErrorView>(LyricsView { paragraphs: seq![seq![plain_line(t)]], language }),
{
    law_markup_as_events(ttml, seq![EventView::Open("body"@), EventView::Open("div"@)] + plain_line_events(t)
        + seq![EventView::Close("div"@), EventView::Close("body"@)], language);
    law_plain_line(t, language);
}

/// Markup with one line built of spans gives one part per span, in order,
/// and the span texts joined by single spaces as the line's text.
pub proof fn law_markup_spans_joined(ttml: Seq<char>, texts: Seq<Seq<char>>, language: Seq<char>)
    requires
        forall|i: int| 0 <= i < texts.len() ==> (#[trigger] texts[i]).len() > 0,
        ttml_tokens(ttml) == as_tokens(seq![EventView::Open("body"@), EventView::Open("div"@), EventView::Open("p"@)]
            + span_events(texts) + seq![EventView::Close("p"@), EventView::Close("div"@), EventView::Close("body"@)]),
    ensures
        token_extraction(ttml_tokens(ttml), language) == Ok::<LyricsView, ErrorView>(LyricsView {
            paragraphs: seq![seq![LineView {
                text: joined_texts(untimed_parts(texts)),
                start: None,
                end: None,
                parts: untimed_parts(texts),
            }]],
            language,
        }),
{
    law_markup_as_events(ttml, seq![EventView::Open("body"@), EventView::Open("div"@), EventView::Open("p"@)]
        + span_events(texts) + seq![EventView::Close("p"@), EventView::Close("div"@), EventView::Close("body"@)], language);
    law_spans_joined(texts, language);
}

/// Markup with two `div` blocks of one line each gives two paragraphs of one
/// line each, in order.
pub proof fn law_markup_paragraphs_kept(ttml: Seq<char>, t1: Seq<char>, t2: Seq<char>, language: Seq<char>)
    requires
        ttml_tokens(ttml) == as_tokens(seq![EventView::Open("body"@), EventView::Open("div"@)] + plain_line_events(t1)
            + seq![EventView::Close("div"@), EventView::Open("div"@)] + plain_line_events(t2)
            + seq![EventView::Close("div"@), EventView::Close("body"@)]),
    ensures
        token_extraction(ttml_tokens(ttml), language) == Ok::<LyricsView, ErrorView>(LyricsView {
            paragraphs: seq![seq![plain_line(t1)], seq![plain_line(t2)]],
            language,
        }),
{
    law_markup_as_events(ttml, seq![EventView::Open("body"@), EventView::Open("div"@)] + plain_line_events(t1)
        + seq![EventView::Close("div"@), EventView::Open("div"@)] + plain_line_events(t2)
        + seq![EventView::Close("div"@), EventView::Close("body"@)], language);
    law_paragraphs_kept(t1, t2, language);
}

/// In markup, the `begin` and `end` values of a line and of its part become
/// their times exactly as the timestamp reading gives them.
pub proof fn law_markup_times_kept(
    ttml: Seq<char>,
    line_begin: Seq<char>,
    line_end: Seq<char>,
    part_begin: Seq<char>,
    part_end: Seq<char>,
    t: Seq<char>,
    language: Seq<char>,
)
    requires
        timestamp_value(line_begin) is Some,
        timestamp_value(line_end) is Some,
        timestamp_value(part_begin) is Some,
        timestamp_value(part_end) is Some,
        ttml_tokens(ttml) == as_tokens(seq![
                EventView::Open("body"@),
                EventView::Open("div"@),
                EventView::Open("p"@),
                EventView::Attribute("begin"@, line_begin),
                EventView::Attribute("end"@, line_end),
                EventView::Open("span"@),
                EventView::Attribute("begin"@, part_begin),
                EventView::Attribute("end"@, part_end),
                EventView::Text(t),
                EventView::Close("span"@),
                EventView::Close("p"@),
                EventView::Close("div"@),
                EventView::Close("body"@),
            ]),
    ensures
        token_extraction(ttml_tokens(ttml), language) == Ok::<LyricsView, ErrorView>(LyricsView {
            paragraphs: seq![seq![LineView {
                text: t,
                start: timestamp_value(line_begin),
                end: timestamp_value(line_end),
                parts: seq![PartView { text: t, start: timestamp_value(part_begin), end: timestamp_value(part_end) }],
            }]],
            language,
        }),
{
    law_markup_as_events(ttml, seq![
                EventView::Open("body"@),
                EventView::Open("div"@),
                EventView::Open("p"@),
                EventView::Attribute("begin"@, line_begin),
                EventView::Attribute("end"@, line_end),
                EventView::Open("span"@),
                EventView::Attribute("begin"@, part_begin),
                EventView::Attribute("end"@, part_end),
                EventView::Text(t),
                EventView::Close("span"@),
                EventView::Close("p"@),
                EventView::Close("div"@),
                EventView::Close("body"@),
            ], language);
    law_times_kept(line_begin, line_end, part_begin, part_end, t, language);
}

/// Tokens after the body's closing tag, malformed ones included, change
/// neither the document nor the error.
pub proof fn law_tokens_after_body_ignored(
    a: Seq<Result<EventView, Seq<char>>>,
    b: Seq<Result<EventView, Seq<char>>>,
    language: Seq<char>,
)
    requires
        a.len() > 0,
        a.last() == Ok::<EventView, Seq<char>>(EventView::Close("body"@)),
    ensures
        token_extraction(a + b, language) == token_extraction(a, language),
{
    lemma_run_tokens_concat(initial_progress(), a, b);
    lemma_run_tokens_body_closed(initial_progress(), a);
    if let Ok(q) = run_tokens(initial_progress(), a) {
        if b.len() > 0 {
            assert(run_tokens(q, b) == Ok::<Progress, ErrorView>(q));
        }
    }
}

/// A malformed token before the body is closed ends the extraction with the
/// tokenizer's message, whatever follows.
pub proof fn law_markup_error(
    es: Seq<EventView>,
    m: Seq<char>,
    rest: Seq<Result<EventView, Seq<char>>>,
    language: Seq<char>,
)
    requires
        run(initial_progress(), es) matches Ok(q) && !(q.phase is Done),
    ensures
        token_extraction(as_tokens(es) + seq![Err(m)] + rest, language)
            == Err::<LyricsView, ErrorView>(ErrorView::Markup(m)),
{
    lemma_run_tokens_events(initial_progress(), es);
    lemma_run_tokens_concat(initial_progress(), as_tokens(es), seq![Err(m)] + rest);
    assert(as_tokens(es) + seq![Err(m)] + rest =~= as_tokens(es) + (seq![Err(m)] + rest));
    assert((seq![Err(m)] + rest)[0] == Err::<EventView, Seq<char>>(m));
}

/// A `begin` or `end` value that is no timestamp ends the extraction with
/// that value, whatever follows.
pub proof fn law_bad_timestamp(ttml: Seq<char>, name: Seq<char>, v: Seq<char>, rest: Seq<EventView>, language: Seq<char>)
    requires
        name == "begin"@ || name == "end"@,
        timestamp_value(v) is None,
        ttml_tokens(ttml) == as_tokens(seq![EventView::Open("body"@), EventView::Open("p"@), EventView::Attribute(name, v)] + rest),
    ensures
        token_extraction(ttml_tokens(ttml), language) == Err::<LyricsView, ErrorView>(ErrorView::Timestamp(v)),
{
    lemma_names_distinct();
    let es = seq![EventView::Open("body"@), EventView::Open("p"@), EventView::Attribute(name, v)] + rest;
    law_markup_as_events(ttml, es, language);
    assert(es.drop_first().drop_first().drop_first() =~= rest);
    reveal_with_fuel(run, 4);
    assert(es.drop_first()[0] == EventView::Open("p"@));
    assert(es.drop_first().drop_first()[0] == EventView::Attribute(name, v));
}

/// A `p` closed in the body while none is open is a structural error, as in
/// `<body></p></body>`.
pub proof fn law_stray_close(ttml: Seq<char>, language: Seq<char>)
    requires
        ttml_tokens(ttml) == as_tokens(seq![EventView::Open("body"@), EventView::Close("p"@), EventView::Close("body"@)]),
    ensures
        token_extraction(ttml_tokens(ttml), language) == Err::<LyricsView, ErrorView>(ErrorView::UnexpectedClose("p"@)),
{
    lemma_names_distinct();
    let es = seq![EventView::Open("body"@), EventView::Close("p"@), EventView::Close("body"@)];
    law_markup_as_events(ttml, es, language);
    reveal_with_fuel(run, 3);
    assert(es.drop_first()[0] == EventView::Close("p"@));
}

/// The lyrics of a markup text are a function of the text: the same text
/// gives the same document, or the same error.
pub proof fn law_markup_deterministic(a: Seq<char>, b: Seq<char>, language: Seq<char>)
    requires
        a == b,
    ensures
        token_extraction(ttml_tokens(a), language) == token_extraction(ttml_tokens(b), language),
{
}

} // verus!
