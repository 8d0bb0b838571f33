//! The picture search: the addresses to ask, and the reading of the answer.
//! Asking is not here: the caller fetches the address and hands the answer in.

use vstd::prelude::*;
use vstd::string::StringExecFns;
use crate::codec::{field_text, read_text};
use crate::json::{
    as_array, as_object, is_null, json_parse, object_fields, object_get, parse_value, value_tree,
    value_trees, JsonTree,
};

verus! {

/// One picture of an answer.
#[derive(Debug, PartialEq, Eq)]
pub struct TenorGif {
    pub id: String,
    pub url: String,
    pub tinygif_url: String,
}

/// What a [`TenorGif`] holds.
pub struct TenorGifView {
    pub id: Seq<char>,
    pub url: Seq<char>,
    pub tinygif_url: Seq<char>,
}

impl View for TenorGif {
    type V = TenorGifView;

    open spec fn view(&self) -> TenorGifView {
        TenorGifView { id: self.id@, url: self.url@, tinygif_url: self.tinygif_url@ }
    }
}

/// An answer of the search: its pictures in order, and where the next page starts.
#[derive(Debug, PartialEq, Eq)]
pub struct TenorResponse {
    pub results: Vec<TenorGif>,
    pub next: Option<String>,
}

/// What a [`TenorResponse`] holds.
pub struct TenorResponseView {
    pub results: Seq<TenorGifView>,
    pub next: Option<Seq<char>>,
}

/// The views of a vector of pictures.
pub open spec fn gif_views(gifs: Seq<TenorGif>) -> Seq<TenorGifView> {
    gifs.map_values(|g: TenorGif| g@)
}

impl View for TenorResponse {
    type V = TenorResponseView;

    open spec fn view(&self) -> TenorResponseView {
        TenorResponseView {
            results: gif_views(self.results@),
            next: match self.next {
                Some(s) => Some(s@),
                None => None,
            },
        }
    }
}

/// Why an answer was not taken.
#[derive(Debug, Clone, Copy, PartialEq, Eq, Structural)]
pub enum ResponseError {
    /// The answer is not a JSON text in UTF-8.
    Syntax,
    /// The JSON text does not have the form of an answer.
    Structure,
}

/// The members of the object in the member `key`, if there is such a member
/// and it is an object.
pub open spec fn field_object(fields: Map<Seq<char>, JsonTree>, key: Seq<char>) -> Option<
    Map<Seq<char>, JsonTree>,
> {
    if fields.contains_key(key) {
        match fields[key] {
            JsonTree::Object(inner) => Some(inner),
            _ => None,
        }
    } else {
        None
    }
}

/// The address in the member `url` of the object in the member `format` of
/// the media formats.
pub open spec fn format_url(formats: Map<Seq<char>, JsonTree>, format: Seq<char>) -> Option<
    Seq<char>,
> {
    match field_object(formats, format) {
        Some(inner) => field_text(inner, "url"@),
        None => None,
    }
}

/// The picture that a tree is: an object with a text `id` and, under
/// `media_formats`, the formats `gif` and `tinygif`, each with a text `url`.
pub open spec fn tree_gif(t: JsonTree) -> Option<TenorGifView> {
    match t {
        JsonTree::Object(fields) => match field_object(fields, "media_formats"@) {
            Some(formats) => if field_text(fields, "id"@) is Some && format_url(formats, "gif"@) is Some
                && format_url(formats, "tinygif"@) is Some {
                Some(
                    TenorGifView {
                        id: field_text(fields, "id"@).unwrap(),
                        url: format_url(formats, "gif"@).unwrap(),
                        tinygif_url: format_url(formats, "tinygif"@).unwrap(),
                    },
                )
            } else {
                None
            },
            None => None,
        },
        _ => None,
    }
}

/// Where the next page starts: a text, or nothing where the member is
/// missing or null. Anything else in its place spoils the answer.
pub open spec fn tree_next(fields: Map<Seq<char>, JsonTree>) -> Option<Option<Seq<char>>> {
    if fields.contains_key("next"@) {
        match fields["next"@] {
            JsonTree::Text(s) => Some(Some(s)),
            JsonTree::Null => Some(None),
            _ => None,
        }
    } else {
        Some(None)
    }
}

/// The answer that a tree is: an object with an array `results` of pictures.
pub open spec fn tree_response(t: JsonTree) -> Option<TenorResponseView> {
    match t {
        JsonTree::Object(fields) => if fields.contains_key("results"@) {
            match fields["results"@] {
                JsonTree::Array(items) => if (forall|i: int|
                    0 <= i < items.len() ==> tree_gif(#[trigger] items[i]) is Some) && tree_next(
                    fields,
                ) is Some {
                    Some(
                        TenorResponseView {
                            results: items.map_values(|item: JsonTree| tree_gif(item).unwrap()),
                            next: tree_next(fields).unwrap(),
                        },
                    )
                } else {
                    None
                },
                _ => None,
            }
        } else {
            None
        },
        _ => None,
    }
}

/// The answer that a text is, or the reason why it is none.
pub open spec fn response_spec(text: Seq<u8>) -> Result<TenorResponseView, ResponseError> {
    match json_parse(text) {
        Some(t) => match tree_response(t) {
            Some(r) => Ok(r),
            None => Err(ResponseError::Structure),
        },
        None => Err(ResponseError::Syntax),
    }
}

/// Reads the address of one format.
fn read_format_url(formats: &serde_json::Map<String, serde_json::Value>, format: &str) -> (r: Option<
    String,
>)
    ensures
        match r {
            Some(url) => format_url(object_fields(*formats), format@) == Some(url@),
            None => format_url(object_fields(*formats), format@) is None,
        },
{
    match object_get(formats, format) {
        Some(v) => match as_object(v) {
            Some(inner) => read_text(inner, "url"),
            None => None,
        },
        None => None,
    }
}

/// Reads a value as one picture.
fn read_gif(v: &serde_json::Value) -> (r: Option<TenorGif>)
    ensures
        match r {
            Some(gif) => tree_gif(value_tree(*v)) == Some(gif@),
            None => tree_gif(value_tree(*v)) is None,
        },
{
    let fields = match as_object(v) {
        Some(fields) => fields,
        None => {
            return None;
        },
    };
    let formats = match object_get(fields, "media_formats") {
        Some(inner) => match as_object(inner) {
            Some(formats) => formats,
            None => {
                return None;
            },
        },
        None => {
            return None;
        },
    };
    let id = match read_text(fields, "id") {
        Some(x) => x,
        None => {
            return None;
        },
    };
    let url = match read_format_url(formats, "gif") {
        Some(x) => x,
        None => {
            return None;
        },
    };
    let tinygif_url = match read_format_url(formats, "tinygif") {
        Some(x) => x,
        None => {
            return None;
        },
    };
    Some(TenorGif { id, url, tinygif_url })
}

/// Reads a JSON value as an answer of the search.
pub fn response_from_value(v: &serde_json::Value) -> (r: Option<TenorResponse>)
    ensures
        match r {
            Some(response) => tree_response(value_tree(*v)) == Some(response@),
            None => tree_response(value_tree(*v)) is None,
        },
{
    let fields = match as_object(v) {
        Some(fields) => fields,
        None => {
            return None;
        },
    };
    let items = match object_get(fields, "results") {
        Some(inner) => match as_array(inner) {
            Some(items) => items,
            None => {
                return None;
            },
        },
        None => {
            return None;
        },
    };
    let ghost trees = value_trees(items@);
    let mut results: Vec<TenorGif> = Vec::new();
    let mut i: usize = 0;
    while i < items.len()
        invariant
            i <= items@.len(),
            trees == value_trees(items@),
            value_tree(*v) == JsonTree::Object(object_fields(*fields)),
            object_fields(*fields).contains_key("results"@),
            object_fields(*fields)["results"@] == JsonTree::Array(trees),
            results@.len() == i,
            forall|k: int| 0 <= k < i ==> tree_gif(#[trigger] trees[k]) == Some(results@[k]@),
        decreases items@.len() - i,
    {
        assert(trees[i as int] == value_tree(items@[i as int]));
        match read_gif(&items[i]) {
            Some(gif) => {
                results.push(gif);
            },
            None => {
                return None;
            },
        }
        i += 1;
    }
    let next = match object_get(fields, "next") {
        Some(inner) => match read_text(fields, "next") {
            Some(s) => Some(s),
            None => {
                if !is_null(inner) {
                    return None;
                }
                None
            },
        },
        None => None,
    };
    assert(gif_views(results@) =~= trees.map_values(|item: JsonTree| tree_gif(item).unwrap()));
    Some(TenorResponse { results, next })
}

/// Reads the text of an answer.
pub fn parse_response(text: &[u8]) -> (r: Result<TenorResponse, ResponseError>)
    ensures
        match r {
            Ok(response) => response_spec(text@) == Ok::<TenorResponseView, ResponseError>(
                response@,
            ),
            Err(e) => response_spec(text@) == Err::<TenorResponseView, ResponseError>(e),
        },
{
    match parse_value(text) {
        Ok(v) => match response_from_value(&v) {
            Some(response) => Ok(response),
            None => Err(ResponseError::Structure),
        },
        Err(_) => Err(ResponseError::Syntax),
    }
}

/// One decimal digit as text.
pub open spec fn digit_text(d: nat) -> Seq<char> {
    if d == 0 {
        "0"@
    } else if d == 1 {
        "1"@
    } else if d == 2 {
        "2"@
    } else if d == 3 {
        "3"@
    } else if d == 4 {
        "4"@
    } else if d == 5 {
        "5"@
    } else if d == 6 {
        "6"@
    } else if d == 7 {
        "7"@
    } else if d == 8 {
        "8"@
    } else {
        "9"@
    }
}

/// A number in decimal, without leading zeros.
pub open spec fn decimal_text(n: nat) -> Seq<char>
    decreases n,
{
    if n < 10 {
        digit_text(n)
    } else {
        decimal_text(n / 10) + digit_text(n % 10)
    }
}

/// Writes one decimal digit.
fn write_digit(d: u32) -> (r: &'static str)
    requires
        d < 10,
    ensures
        r@ == digit_text(d as nat),
{
    if d == 0 {
        "0"
    } else if d == 1 {
        "1"
    } else if d == 2 {
        "2"
    } else if d == 3 {
        "3"
    } else if d == 4 {
        "4"
    } else if d == 5 {
        "5"
    } else if d == 6 {
        "6"
    } else if d == 7 {
        "7"
    } else if d == 8 {
        "8"
    } else {
        "9"
    }
}

/// Writes a number in decimal.
pub fn write_decimal(n: u32) -> (r: String)
    ensures
        r@ == decimal_text(n as nat),
    decreases n,
{
    if n < 10 {
        write_digit(n).to_owned()
    } else {
        write_decimal(n / 10).concat(write_digit(n % 10))
    }
}

/// The address that lists the featured pictures, `limit` of them at most.
pub open spec fn featured_url_spec(key: Seq<char>, client_key: Seq<char>, limit: u32) -> Seq<char> {
    "https://tenor.googleapis.com/v2/featured?key="@ + key + "&client_key="@ + client_key
        + "&limit="@ + decimal_text(limit as nat)
}

/// The address that searches for `search`, `limit` pictures at most. The
/// search text goes into the address as it is.
pub open spec fn search_url_spec(
    search: Seq<char>,
    key: Seq<char>,
    client_key: Seq<char>,
    limit: u32,
) -> Seq<char> {
    "https://tenor.googleapis.com/v2/search?q="@ + search + "&key="@ + key + "&client_key="@
        + client_key + "&limit="@ + decimal_text(limit as nat)
}

/// The address that lists the featured pictures.
pub fn featured_url(key: &str, client_key: &str, limit: u32) -> (r: String)
    ensures
        r@ == featured_url_spec(key@, client_key@, limit),
{
    let number = write_decimal(limit);
    "https://tenor.googleapis.com/v2/featured?key=".to_owned().concat(key).concat(
        "&client_key=",
    ).concat(client_key).concat("&limit=").concat(number.as_str())
}

/// The address that searches for `search`.
pub fn search_url(search: &str, key: &str, client_key: &str, limit: u32) -> (r: String)
    ensures
        r@ == search_url_spec(search@, key@, client_key@, limit),
{
    let number = write_decimal(limit);
    "https://tenor.googleapis.com/v2/search?q=".to_owned().concat(search).concat("&key=").concat(
        key,
    ).concat("&client_key=").concat(client_key).concat("&limit=").concat(number.as_str())
}

} // verus!
