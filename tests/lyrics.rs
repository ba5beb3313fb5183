use apple_music::{extract, parse_timestamp, parse_ttml, Event, Extractor, LyricsError, LyricsLine, LyricsLinePart};

fn open(n: &str) -> Event {
    Event::Open(n.to_string())
}

fn close(n: &str) -> Event {
    Event::Close(n.to_string())
}

fn text(t: &str) -> Event {
    Event::Text(t.to_string())
}

fn attr(n: &str, v: &str) -> Event {
    Event::Attribute(n.to_string(), v.to_string())
}

#[test]
fn synced_line_with_two_words() {
    let ttml = "<body><div><p begin=\"0:01.000\" end=\"0:02.000\"><span begin=\"0:01.000\" end=\"0:01.500\">Hello</span><span begin=\"0:01.500\" end=\"0:02.000\">world</span></p></div></body>";
    let lyrics = parse_ttml(ttml, "en").unwrap();
    assert_eq!(lyrics.language, "en");
    assert_eq!(lyrics.paragraphs.len(), 1);
    assert_eq!(lyrics.paragraphs[0].len(), 1);
    let line = &lyrics.paragraphs[0][0];
    assert_eq!(line.text, "Hello world");
    assert_eq!(line.start, Some(1000));
    assert_eq!(line.end, Some(2000));
    assert_eq!(
        line.parts,
        vec![
            LyricsLinePart { text: "Hello".to_string(), start: Some(1000), end: Some(1500) },
            LyricsLinePart { text: "world".to_string(), start: Some(1500), end: Some(2000) },
        ]
    );
}

#[test]
fn plain_line_without_spans() {
    let lyrics = parse_ttml("<tt><body><div><p>Plain line text</p></div></body></tt>", "en").unwrap();
    assert_eq!(
        lyrics.paragraphs,
        vec![vec![LyricsLine { text: "Plain line text".to_string(), start: None, end: None, parts: vec![] }]]
    );
}

#[test]
fn plain_line_from_events() {
    let es = vec![open("body"), open("div"), open("p"), text("Only text"), close("p"), close("div"), close("body")];
    let lyrics = extract(&es, "de").unwrap();
    assert_eq!(lyrics.language, "de");
    assert_eq!(lyrics.paragraphs.len(), 1);
    assert_eq!(lyrics.paragraphs[0][0].text, "Only text");
    assert!(lyrics.paragraphs[0][0].parts.is_empty());
}

#[test]
fn span_texts_are_joined() {
    let lyrics = parse_ttml(
        "<body><div><p><span>one</span><span>two</span><span>three</span></p></div></body>",
        "en",
    )
    .unwrap();
    let line = &lyrics.paragraphs[0][0];
    assert_eq!(line.text, "one two three");
    assert_eq!(line.parts.len(), 3);
    assert_eq!(line.parts[2].text, "three");
}

#[test]
fn direct_text_wins_over_parts() {
    let es = vec![open("body"), open("p"), open("span"), text("a"), close("span"), text("whole"), close("p"), close("div")];
    let lyrics = extract(&es, "en").unwrap();
    assert_eq!(lyrics.paragraphs[0][0].text, "whole");
    assert_eq!(lyrics.paragraphs[0][0].parts.len(), 1);
}

#[test]
fn times_of_line_and_part() {
    let es = vec![
        open("body"), open("p"), attr("begin", "1:02.5"), attr("end", "75"), attr("role", "x"),
        open("span"), attr("begin", "0.25"), attr("end", "1:00:00"), text("w"), close("span"),
        close("p"), close("div"), close("body"),
    ];
    let lyrics = extract(&es, "en").unwrap();
    let line = &lyrics.paragraphs[0][0];
    assert_eq!((line.start, line.end), (Some(62500), Some(75000)));
    assert_eq!((line.parts[0].start, line.parts[0].end), (Some(250), Some(3600000)));
}

#[test]
fn two_divs_give_two_paragraphs() {
    let lyrics = parse_ttml("<body><div><p>first</p></div><div><p>second</p></div></body>", "en").unwrap();
    assert_eq!(lyrics.paragraphs.len(), 2);
    assert_eq!(lyrics.paragraphs[0].len(), 1);
    assert_eq!(lyrics.paragraphs[1].len(), 1);
    assert_eq!(lyrics.paragraphs[0][0].text, "first");
    assert_eq!(lyrics.paragraphs[1][0].text, "second");
}

#[test]
fn empty_div_is_kept() {
    let lyrics = parse_ttml("<body><div></div></body>", "en").unwrap();
    assert_eq!(lyrics.paragraphs, vec![vec![]]);
}

#[test]
fn no_body_gives_no_paragraphs() {
    let lyrics = parse_ttml("<tt><div><p>x</p></div></tt>", "en").unwrap();
    assert!(lyrics.paragraphs.is_empty());
}

#[test]
fn same_input_same_document() {
    let ttml = "<body><div><p begin=\"1.5\">a</p><p><span>b</span></p></div></body>";
    assert_eq!(parse_ttml(ttml, "en"), parse_ttml(ttml, "en"));
}

#[test]
fn nothing_after_body_is_read() {
    let base = "<tt><body><div><p>line</p></div></body>";
    let expected = parse_ttml(&format!("{base}</tt>"), "en").unwrap();
    let trailing = parse_ttml(&format!("{base}<body><div><p>more</p></div><<<"), "en").unwrap();
    assert_eq!(trailing, expected);
    let es = vec![open("body"), open("div"), open("p"), text("x"), close("p"), close("div"), close("body"), close("div"), close("span")];
    assert_eq!(extract(&es, "en").unwrap().paragraphs.len(), 1);
}

#[test]
fn bad_timestamp_is_an_error() {
    let r = parse_ttml("<body><div><p begin=\"soon\">x</p></div></body>", "en");
    assert_eq!(r, Err(LyricsError::Timestamp("soon".to_string())));
}

#[test]
fn stray_close_is_an_error() {
    let es = vec![open("body"), close("span")];
    assert_eq!(extract(&es, "en"), Err(LyricsError::UnexpectedClose("span".to_string())));
    let es = vec![open("body"), close("p")];
    assert_eq!(extract(&es, "en"), Err(LyricsError::UnexpectedClose("p".to_string())));
    let es = vec![open("body"), open("p"), open("span"), close("p")];
    assert_eq!(extract(&es, "en"), Err(LyricsError::UnexpectedClose("p".to_string())));
}

#[test]
fn malformed_markup_is_an_error() {
    let r = parse_ttml("<body><div><p begin=>x</p>", "en");
    assert!(matches!(r, Err(LyricsError::Markup(_))));
}

#[test]
fn extractor_steps() {
    let mut ex = Extractor::new();
    for e in [open("body"), open("div"), open("p"), text("t"), close("p"), close("div")] {
        ex = ex.step(&e).unwrap();
    }
    assert!(!ex.is_done());
    ex = ex.step(&close("body")).unwrap();
    assert!(ex.is_done());
    let lyrics = ex.finish("fr");
    assert_eq!(lyrics.language, "fr");
    assert_eq!(lyrics.paragraphs[0][0].text, "t");
}

#[test]
fn join_with_spaces() {
    let parts = vec![
        LyricsLinePart { text: "a".to_string(), start: None, end: None },
        LyricsLinePart { text: "bc".to_string(), start: None, end: None },
    ];
    assert_eq!(apple_music::join_part_texts(&parts), "a bc");
    assert_eq!(apple_music::join_part_texts(&vec![]), "");
}

#[test]
fn timestamps() {
    assert_eq!(parse_timestamp("0:01.000"), Some(1000));
    assert_eq!(parse_timestamp("0:01.500"), Some(1500));
    assert_eq!(parse_timestamp("1:02:03.5"), Some(3723500));
    assert_eq!(parse_timestamp("75"), Some(75000));
    assert_eq!(parse_timestamp("1.25"), Some(1250));
    assert_eq!(parse_timestamp("12:34"), Some(754000));
}

#[test]
fn malformed_timestamps() {
    for s in ["", "1::2", ":1", "1:", "1.", ".5", "1.2345", "1.2.3", "a", "1:2a", "99999999999999999999"] {
        assert_eq!(parse_timestamp(s), None, "{s}");
    }
    assert_eq!(parse_timestamp("18446744073709551"), Some(18446744073709551000));
    assert_eq!(parse_timestamp("18446744073709552"), None);
}
