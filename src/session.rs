use vstd::prelude::*;

use fancy_regex::Regex;

verus! {

/// The first capture group of the first match of `pattern` in `text`, as
/// fancy_regex finds it; `None` where there is none.
pub uninterp spec fn regex_group(pattern: Seq<char>, text: Seq<char>) -> Option<Seq<char>>;

pub open spec fn opt_view(o: Option<String>) -> Option<Seq<char>> {
    match o {
        Some(s) => Some(s@),
        None => None,
    }
}

/// Relies on fancy_regex's `Regex::new` and `Regex::captures`: the text of
/// group 1 of the first match; `None` for no match, or where matching fails.
#[verifier::external_body]
fn first_group(pattern: &str, text: &str) -> (r: Option<String>)
    ensures
        opt_view(r) == regex_group(pattern@, text@),
{
    let re = Regex::new(pattern).ok()?;
    match re.captures(text) {
        Ok(Some(c)) => match c.get(1) {
            Some(m) => Some(m.as_str().to_owned()),
            None => None,
        },
        _ => None,
    }
}

fn concat(a: &str, b: &str) -> (r: String)
    ensures
        r@ == a@ + b@,
{
    let mut r = a.to_owned();
    r.append(b);
    r
}

/// The name of the web player's index script, read from the search page:
/// the text between `index.` and `.js"`.
pub fn index_script_name(page: &str) -> (r: Option<String>)
    ensures
        opt_view(r) == regex_group("(?<=index\\.)(.*?)(?=\\.js\")"@, page@),
{
    first_group("(?<=index\\.)(.*?)(?=\\.js\")", page)
}

/// The address of the web player's index script of the given name.
pub fn index_script_url(name: &str) -> (r: String)
    ensures
        r@ == "https://music.apple.com/assets/index."@ + name@ + ".js"@,
{
    let a = concat("https://music.apple.com/assets/index.", name);
    concat(a.as_str(), ".js")
}

/// The web player's access token, read from its index script: the text from
/// `eyJh` up to the next `"`.
pub fn access_token(script: &str) -> (r: Option<String>)
    ensures
        opt_view(r) == regex_group("(?=eyJh)(.*?)(?=\")"@, script@),
{
    first_group("(?=eyJh)(.*?)(?=\")", script)
}

/// The address of a catalog resource: `path` under the storefront `catalog`.
pub fn catalog_url(catalog: &str, path: &str) -> (r: String)
    ensures
        r@ == "https://amp-api.music.apple.com/v1/catalog/"@ + catalog@ + "/"@ + path@,
{
    let a = concat("https://amp-api.music.apple.com/v1/catalog/", catalog);
    let b = concat(a.as_str(), "/");
    concat(b.as_str(), path)
}

/// The catalog path of a song's lyrics.
pub fn lyrics_path(song_id: &str) -> (r: String)
    ensures
        r@ == "songs/"@ + song_id@ + "/lyrics"@,
{
    let a = concat("songs/", song_id);
    concat(a.as_str(), "/lyrics")
}

} // verus!
