use vstd::prelude::*;

use crate::json::{Json, JsonValue, json_str, lemma_member_of_object, member, object1, object2, object4};
use crate::text::{decimal, decimal_string, push_decimal};

verus! {

/// A single web search result from the Exa API.
#[derive(Debug, Clone, PartialEq)]
pub struct WebSearchResult {
    pub url: String,
    pub title: String,
    pub text: String,
    pub highlights: Vec<String>,
    pub published_date: Option<String>,
}

/// The model of a search result.
pub struct WebSearchResultView {
    pub url: Seq<char>,
    pub title: Seq<char>,
    pub text: Seq<char>,
    pub highlights: Seq<Seq<char>>,
    pub published_date: Option<Seq<char>>,
}

pub open spec fn option_string_view(o: Option<String>) -> Option<Seq<char>> {
    match o {
        Some(s) => Some(s@),
        None => None,
    }
}

pub open spec fn strings_view(v: Seq<String>) -> Seq<Seq<char>> {
    v.map_values(|s: String| s@)
}

impl View for WebSearchResult {
    type V = WebSearchResultView;

    open spec fn view(&self) -> WebSearchResultView {
        WebSearchResultView {
            url: self.url@,
            title: self.title@,
            text: self.text@,
            highlights: strings_view(self.highlights@),
            published_date: option_string_view(self.published_date),
        }
    }
}

pub open spec fn results_view(rs: Seq<WebSearchResult>) -> Seq<WebSearchResultView> {
    rs.map_values(|r: WebSearchResult| r@)
}

/// The response of the Exa search API.
#[derive(Debug, Clone, PartialEq)]
pub struct ExaSearchResponse {
    pub results: Vec<WebSearchResult>,
}

/// Client for the Exa search API: the key and the number of results asked of
/// each search.
pub struct ExaClient {
    api_key: String,
    max_results: usize,
}

impl ExaClient {
    pub closed spec fn spec_api_key(&self) -> Seq<char> {
        self.api_key@
    }

    pub closed spec fn spec_max_results(&self) -> usize {
        self.max_results
    }

    pub fn new(api_key: String, max_results: usize) -> (r: Self)
        ensures
            r.spec_api_key() == api_key@,
            r.spec_max_results() == max_results,
    {
        ExaClient { api_key, max_results }
    }

    /// The key sent in the `x-api-key` header.
    pub fn api_key(&self) -> (r: &String)
        ensures
            r@ == self.spec_api_key(),
    {
        &self.api_key
    }

    /// The number of results asked of each search.
    pub fn max_results(&self) -> (r: usize)
        ensures
            r == self.spec_max_results(),
    {
        self.max_results
    }

    /// The JSON body of a search request for `query`.
    pub fn search_request_body(&self, query: &str) -> (r: Json)
        ensures
            r@ == search_body(query@, self.spec_max_results() as nat),
    {
        let contents = object2(
            "text",
            object1("maxCharacters", Json::Number(decimal_string(3000))),
            "highlights",
            object1("numSentences", Json::Number(decimal_string(3))),
        );
        object4(
            "query",
            json_str(query),
            "type",
            json_str("auto"),
            "numResults",
            Json::Number(decimal_string(self.max_results)),
            "contents",
            contents,
        )
    }
}

/// The body of an Exa search request: the query, automatic search type, the
/// number of results, and the contents to return (up to 3000 characters of text
/// and three-sentence highlights).
pub open spec fn search_body(query: Seq<char>, max_results: nat) -> JsonValue {
    JsonValue::Object(
        seq![
            ("query"@, JsonValue::Str(query)),
            ("type"@, JsonValue::Str("auto"@)),
            ("numResults"@, JsonValue::Number(decimal(max_results))),
            (
                "contents"@,
                JsonValue::Object(
                    seq![
                        (
                            "text"@,
                            JsonValue::Object(seq![("maxCharacters"@, JsonValue::Number(decimal(3000)))]),
                        ),
                        (
                            "highlights"@,
                            JsonValue::Object(seq![("numSentences"@, JsonValue::Number(decimal(3)))]),
                        ),
                    ],
                ),
            ),
        ],
    )
}

/// A search request carries the query unchanged, the automatic search type, the
/// result limit in decimal, up to 3000 characters of text and three-sentence
/// highlights, whatever the query and the limit.
pub proof fn law_search_body(query: Seq<char>, max_results: nat)
    ensures
        member(search_body(query, max_results), "query"@) == JsonValue::Str(query),
        member(search_body(query, max_results), "type"@) == JsonValue::Str("auto"@),
        member(search_body(query, max_results), "numResults"@) == JsonValue::Number(decimal(max_results)),
        member(member(member(search_body(query, max_results), "contents"@), "text"@), "maxCharacters"@)
            == JsonValue::Number(decimal(3000)),
        member(member(member(search_body(query, max_results), "contents"@), "highlights"@), "numSentences"@)
            == JsonValue::Number(decimal(3)),
{
    reveal_strlit("query");
    reveal_strlit("type");
    reveal_strlit("numResults");
    reveal_strlit("contents");
    reveal_strlit("text");
    reveal_strlit("highlights");
    reveal_strlit("maxCharacters");
    reveal_strlit("numSentences");
    let b = search_body(query, max_results);
    let fields = match b {
        JsonValue::Object(f) => f,
        _ => Seq::empty(),
    };
    assert(fields[0].0.len() == 5 && fields[1].0.len() == 4 && fields[2].0.len() == 10);
    assert(fields[0].0 != "type"@ && fields[0].0 != "numResults"@ && fields[1].0 != "numResults"@);
    lemma_member_of_object(fields, "query"@, 0);
    lemma_member_of_object(fields, "type"@, 1);
    lemma_member_of_object(fields, "numResults"@, 2);
    lemma_member_of_object(fields, "contents"@, 3);
    let contents = fields[3].1;
    let cf = match contents {
        JsonValue::Object(f) => f,
        _ => Seq::empty(),
    };
    assert(cf[0].0.len() == 4 && cf[0].0 != "highlights"@);
    lemma_member_of_object(cf, "text"@, 0);
    lemma_member_of_object(cf, "highlights"@, 1);
    let tf = match cf[0].1 {
        JsonValue::Object(f) => f,
        _ => Seq::empty(),
    };
    let hf = match cf[1].1 {
        JsonValue::Object(f) => f,
        _ => Seq::empty(),
    };
    lemma_member_of_object(tf, "maxCharacters"@, 0);
    lemma_member_of_object(hf, "numSentences"@, 0);
}

/// The endpoint of Exa's search API.
pub fn exa_search_url() -> (r: &'static str)
    ensures
        r@ == "https://api.exa.ai/search"@,
{
    "https://api.exa.ai/search"
}

/// The error reported when Exa answers a search with an unsuccessful status:
/// the status and the text of the answer.
pub fn exa_error_message(status: &str, error_text: &str) -> (r: String)
    ensures
        r@ == "Exa API error "@ + status@ + ": "@ + error_text@,
{
    let mut message = String::new();
    message.append("Exa API error ");
    message.append(status);
    message.append(": ");
    message.append(error_text);
    proof {
        assert(message@ =~= "Exa API error "@ + status@ + ": "@ + error_text@);
    }
    message
}

/// The number of characters of the text excerpt.
pub open spec fn excerpt_chars() -> nat {
    500
}

/// The text shown where a result has no highlights: its first 500 characters.
pub open spec fn excerpt(text: Seq<char>) -> Seq<char> {
    if text.len() > excerpt_chars() {
        text.take(excerpt_chars() as int)
    } else {
        text
    }
}

/// The excerpt of `text` (`excerpt`).
fn text_excerpt(text: &str) -> (r: &str)
    ensures
        r@ == excerpt(text@),
{
    if text.unicode_len() > 500 {
        text.substring_char(0, 500)
    } else {
        text
    }
}

/// One indented line per highlight.
pub open spec fn highlight_lines(hs: Seq<Seq<char>>) -> Seq<char>
    decreases hs.len(),
{
    if hs.len() == 0 {
        Seq::empty()
    } else {
        highlight_lines(hs.drop_last()) + "   "@ + hs.last() + "\n"@
    }
}

/// The lines under a result's heading: its highlights, else an excerpt of its
/// text, else nothing.
pub open spec fn result_body(r: WebSearchResultView) -> Seq<char> {
    if r.highlights.len() > 0 {
        highlight_lines(r.highlights)
    } else if r.text.len() > 0 {
        "   "@ + excerpt(r.text) + "\n"@
    } else {
        Seq::empty()
    }
}

/// The entry of the `n`-th result (counting from 1).
pub open spec fn result_entry(n: nat, r: WebSearchResultView) -> Seq<char> {
    decimal(n) + ". "@ + r.title + " ("@ + r.url + ")\n"@ + result_body(r) + "\n"@
}

pub open spec fn result_entries(rs: Seq<WebSearchResultView>) -> Seq<char>
    decreases rs.len(),
{
    if rs.len() == 0 {
        Seq::empty()
    } else {
        result_entries(rs.drop_last()) + result_entry(rs.len(), rs.last())
    }
}

/// The text of a tool result: a heading that quotes the query, then one numbered
/// entry per result.
pub open spec fn results_text(query: Seq<char>, rs: Seq<WebSearchResultView>) -> Seq<char> {
    "Search results for \""@ + query + "\":\n\n"@ + result_entries(rs)
}

/// Appends the entry of the `n`-th result.
fn append_result_entry(text: &mut String, n: usize, result: &WebSearchResult)
    ensures
        final(text)@ == old(text)@ + result_entry(n as nat, result@),
{
    let ghost before = text@;
    push_decimal(text, n);
    text.append(". ");
    text.append(result.title.as_str());
    text.append(" (");
    text.append(result.url.as_str());
    text.append(")\n");
    let ghost after_heading = text@;
    assert(after_heading =~= before + decimal(n as nat) + ". "@ + result.title@ + " ("@ + result.url@
        + ")\n"@);
    if !result.highlights.is_empty() {
        let mut j: usize = 0;
        while j < result.highlights.len()
            invariant
                j <= result.highlights@.len(),
                text@ == after_heading + highlight_lines(
                    strings_view(result.highlights@).take(j as int),
                ),
            decreases result.highlights@.len() - j,
        {
            text.append("   ");
            text.append(result.highlights[j].as_str());
            text.append("\n");
            proof {
                let hs = strings_view(result.highlights@);
                assert(hs.take(j + 1).drop_last() =~= hs.take(j as int));
                assert(text@ =~= after_heading + highlight_lines(hs.take(j + 1)));
            }
            j = j + 1;
        }
        proof {
            let hs = strings_view(result.highlights@);
            assert(hs.take(j as int) =~= hs);
            assert(text@ == after_heading + result_body(result@));
        }
    } else if !result.text.as_str().is_empty() {
        text.append("   ");
        text.append(text_excerpt(result.text.as_str()));
        text.append("\n");
        proof {
            assert(text@ =~= after_heading + result_body(result@));
        }
    } else {
        proof {
            assert(text@ =~= after_heading + result_body(result@));
        }
    }
    text.append("\n");
    proof {
        assert(text@ =~= before + result_entry(n as nat, result@));
    }
}

impl ExaClient {
    /// Format search results as text for inclusion in a tool result.
    pub fn format_results_as_text(query: &str, results: &[WebSearchResult]) -> (r: String)
        ensures
            r@ == results_text(query@, results_view(results@)),
    {
        let mut text = String::new();
        text.append("Search results for \"");
        text.append(query);
        text.append("\":\n\n");
        let ghost heading = "Search results for \""@ + query@ + "\":\n\n"@;
        assert(text@ =~= heading);
        let mut i: usize = 0;
        while i < results.len()
            invariant
                i <= results@.len(),
                text@ == heading + result_entries(results_view(results@).take(i as int)),
            decreases results@.len() - i,
        {
            let ghost before = text@;
            append_result_entry(&mut text, i + 1, &results[i]);
            proof {
                let rv = results_view(results@);
                assert(rv.take(i + 1).drop_last() =~= rv.take(i as int));
                assert(rv.take(i + 1).last() == results@[i as int]@);
            }
            i = i + 1;
        }
        proof {
            assert(results_view(results@).take(i as int) =~= results_view(results@));
        }
        text
    }
}

} // verus!
