use vstd::prelude::*;

use xmlparser::{ElementEnd, Token, Tokenizer};

use crate::extract::{
    extraction_matches, initial_progress, run_tokens, token_extraction, token_view, Event, EventView,
    ErrorView, Extractor, LyricsError, Progress,
};
use crate::lyrics::Lyrics;

verus! {

#[verifier::external_type_specification]
#[verifier::external_body]
pub struct ExTokenizer<'a>(Tokenizer<'a>);

#[verifier::external_type_specification]
#[verifier::external_body]
pub struct ExToken<'a>(Token<'a>);

#[verifier::external_type_specification]
#[verifier::external_body]
pub struct ExXmlError(xmlparser::Error);

/// The tokens that xmlparser's tokenizer yields for `text`, in order, each
/// converted to an event or to the tokenizer's error message.
pub uninterp spec fn ttml_tokens(text: Seq<char>) -> Seq<Result<EventView, Seq<char>>>;

/// A tokenizer over a text, with the text and the number of tokens taken so far.
pub struct TtmlTokens<'a> {
    tokens: Tokenizer<'a>,
    pub text: Ghost<Seq<char>>,
    pub taken: Ghost<nat>,
}

/// Relies on xmlparser's `Tokenizer::from`: a tokenizer at the start of `text`.
#[verifier::external_body]
fn ttml_tokens_of<'a>(text: &'a str) -> (r: TtmlTokens<'a>)
    ensures
        r.text@ == text@,
        r.taken@ == 0,
{
    TtmlTokens { tokens: Tokenizer::from(text), text: Ghost(text@), taken: Ghost(0) }
}

/// Relies on xmlparser's `Tokenizer::next`: the next token of the text, as an
/// event (element start, attribute, closing tag, text run; `Other` for the
/// rest) or as the tokenizer's message where the text is malformed; `None`
/// once all are taken. The tokenizer ends after its first error.
#[verifier::external_body]
fn next_token(t: &mut TtmlTokens) -> (r: Option<Result<Event, String>>)
    ensures
        final(t).text@ == old(t).text@,
        (r is None) == (old(t).taken@ >= ttml_tokens(old(t).text@).len()),
        r is None ==> final(t).taken@ == old(t).taken@,
        r matches Some(x) ==> token_view(x) == ttml_tokens(old(t).text@)[old(t).taken@ as int],
        r matches Some(Ok(_)) ==> final(t).taken@ == old(t).taken@ + 1,
        r matches Some(Err(_)) ==> final(t).taken@ == ttml_tokens(old(t).text@).len(),
{
    Some(match t.tokens.next()? {
        Ok(Token::ElementStart { local, .. }) => Ok(Event::Open(local.as_str().to_owned())),
        Ok(Token::Attribute { local, value, .. }) => Ok(Event::Attribute(local.as_str().to_owned(), value.as_str().to_owned())),
        Ok(Token::ElementEnd { end: ElementEnd::Close(_, local), .. }) => Ok(Event::Close(local.as_str().to_owned())),
        Ok(Token::Text { text }) => Ok(Event::Text(text.as_str().to_owned())),
        Ok(_) => Ok(Event::Other),
        Err(e) => Err(e.to_string()),
    })
}

/// Extracts the lyrics of a TTML document, in `language`: the extraction of
/// the markup's tokens, which stops at the body's closing tag (later tokens
/// are not read), with a malformed token before it as a `Markup` error.
pub fn parse_ttml(ttml: &str, language: &str) -> (r: Result<Lyrics, LyricsError>)
    ensures
        extraction_matches(r, token_extraction(ttml_tokens(ttml@), language@)),
{
    let ghost ts = ttml_tokens(ttml@);
    let mut tokens = ttml_tokens_of(ttml);
    let mut ex = Extractor::new();
    assert(ts.skip(0) =~= ts);
    loop
        invariant
            ts == ttml_tokens(ttml@),
            tokens.text@ == ttml@,
            tokens.taken@ <= ts.len(),
            run_tokens(initial_progress(), ts) == run_tokens(ex@, ts.skip(tokens.taken@ as int)),
        ensures
            run_tokens(initial_progress(), ts) == Ok::<Progress, ErrorView>(ex@),
        decreases ts.len() - tokens.taken@,
    {
        let ghost k = tokens.taken@ as int;
        if ex.is_done() {
            break;
        }
        match next_token(&mut tokens) {
            None => {
                assert(ts.skip(k) =~= Seq::<Result<EventView, Seq<char>>>::empty());
                break;
            },
            Some(Err(m)) => {
                assert(ts.skip(k)[0] == ts[k]);
                return Err(LyricsError::Markup(m));
            },
            Some(Ok(e)) => {
                assert(ts.skip(k)[0] == ts[k]);
                assert(ts.skip(k).drop_first() =~= ts.skip(k + 1));
                match ex.step(&e) {
                    Ok(next) => ex = next,
                    Err(x) => return Err(x),
                }
            },
        }
    }
    Ok(ex.finish(language))
}

} // verus!
