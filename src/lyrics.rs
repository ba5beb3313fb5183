use vstd::prelude::*;

verus! {

/// One timed fragment of a line, usually a single word. Times are in milliseconds.
#[derive(Debug, Clone, PartialEq, Eq)]
pub struct LyricsLinePart {
    pub text: String,
    pub start: Option<u64>,
    pub end: Option<u64>,
}

/// One displayed lyric line; `parts` is empty for lines without word timing.
#[derive(Debug, Clone, PartialEq, Eq)]
pub struct LyricsLine {
    pub text: String,
    pub start: Option<u64>,
    pub end: Option<u64>,
    pub parts: Vec<LyricsLinePart>,
}

/// A whole lyrics document: paragraphs of lines, in the order of the source.
#[derive(Debug, Clone, PartialEq, Eq)]
pub struct Lyrics {
    pub paragraphs: Vec<Vec<LyricsLine>>,
    pub language: String,
}

pub struct PartView {
    pub text: Seq<char>,
    pub start: Option<u64>,
    pub end: Option<u64>,
}

pub struct LineView {
    pub text: Seq<char>,
    pub start: Option<u64>,
    pub end: Option<u64>,
    pub parts: Seq<PartView>,
}

pub struct LyricsView {
    pub paragraphs: Seq<Seq<LineView>>,
    pub language: Seq<char>,
}

impl View for LyricsLinePart {
    type V = PartView;

    open spec fn view(&self) -> PartView {
        PartView { text: self.text@, start: self.start, end: self.end }
    }
}

pub open spec fn parts_view(v: Seq<LyricsLinePart>) -> Seq<PartView> {
    Seq::new(v.len(), |i: int| v[i]@)
}

impl View for LyricsLine {
    type V = LineView;

    open spec fn view(&self) -> LineView {
        LineView { text: self.text@, start: self.start, end: self.end, parts: parts_view(self.parts@) }
    }
}

pub open spec fn lines_view(v: Seq<LyricsLine>) -> Seq<LineView> {
    Seq::new(v.len(), |i: int| v[i]@)
}

pub open spec fn paragraphs_view(v: Seq<Vec<LyricsLine>>) -> Seq<Seq<LineView>> {
    Seq::new(v.len(), |i: int| lines_view(v[i]@))
}

impl View for Lyrics {
    type V = LyricsView;

    open spec fn view(&self) -> LyricsView {
        LyricsView { paragraphs: paragraphs_view(self.paragraphs@), language: self.language@ }
    }
}

/// The texts of `parts`, separated by single spaces.
pub open spec fn joined_texts(parts: Seq<PartView>) -> Seq<char>
    decreases parts.len(),
{
    if parts.len() == 0 {
        Seq::empty()
    } else if parts.len() == 1 {
        parts[0].text
    } else {
        joined_texts(parts.drop_last()) + seq![' '] + parts.last().text
    }
}

/// Joins the texts of `parts` with single spaces.
pub fn join_part_texts(parts: &Vec<LyricsLinePart>) -> (r: String)
    ensures
        r@ == joined_texts(parts_view(parts@)),
{
    let mut r = String::new();
    let mut i: usize = 0;
    while i < parts.len()
        invariant
            i <= parts.len(),
            r@ == joined_texts(parts_view(parts@).take(i as int)),
        decreases parts.len() - i,
    {
        let ghost pv = parts_view(parts@);
        assert(pv.take(i + 1).drop_last() =~= pv.take(i as int));
        if i > 0 {
            r.append(" ");
            proof {
                reveal_strlit(" ");
            }
        }
        r.append(parts[i].text.as_str());
        i = i + 1;
        proof {
            if i == 1 {
                assert(r@ =~= pv.take(1)[0].text);
            } else {
                assert(pv.take(i as int).drop_last() =~= pv.take(i - 1));
                assert(r@ =~= joined_texts(pv.take(i - 1)) + seq![' '] + pv.take(i as int).last().text);
            }
        }
    }
    assert(parts_view(parts@).take(parts.len() as int) =~= parts_view(parts@));
    r
}

} // verus!
