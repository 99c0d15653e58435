//! `search wiki|roblox <query>`: a Roblox developer-wiki search.

use vstd::prelude::*;
use vstd::utf8::decode_utf8;
use crate::embed::{block_field, fields_view, Embed, EmbedField};
use crate::text::{byte_range, char_boundary, remove_char, slice_allowed, utf8, without_char};
use serde_json::Value;

verus! {

/// What `str::to_lowercase` gives for a string: its Unicode lowercase form.
pub uninterp spec fn lowercase(s: Seq<char>) -> Seq<char>;

/// `str::to_lowercase`: the Unicode lowercase form of the string.
#[verifier::external_body]
fn to_lowercase(s: &str) -> (res: String)
    ensures
        res@ == lowercase(s@),
{
    s.to_lowercase()
}

/// Whether the search location names the Roblox wiki (case-insensitive).
pub fn search_location_supported(loc: &str) -> (res: bool)
    ensures
        res == (lowercase(loc@) == "wiki"@ || lowercase(loc@) == "roblox"@),
{
    let l = to_lowercase(loc);
    String::eq(&l, &String::from_str("wiki")) || String::eq(&l, &String::from_str("roblox"))
}

/// The start of the wiki search request, up to the query.
pub open spec fn api_begin() -> Seq<char> {
    "https://api.swiftype.com/api/v1/public/engines/search.json?callback=jQuery33107513732778347277_1562848671664&q="@
}

/// The end of the wiki search request, after the query.
pub open spec fn api_end() -> Seq<char> {
    "&engine_key=PcoWSkbVqDnWTu_dm2ix&page=1&per_page=5&fetch_fields%5Bpage%5D%5B%5D=title&fetch_fields%5Bpage%5D%5B%5D=body&fetch_fields%5Bpage%5D%5B%5D=category&fetch_fields%5Bpage%5D%5B%5D=url&fetch_fields%5Bpage%5D%5B%5D=segment&fetch_fields%5Bpage%5D%5B%5D=summary&spelling=strict&highlight_fields%5Bpage%5D%5Bbody%5D%5Bfallback%5D=false&_=1562848671665"@
}

/// The URL of the wiki search for `query`.
pub fn wiki_search_url(query: &str) -> (res: String)
    ensures
        res@ == api_begin() + query@ + api_end(),
{
    let mut u = String::from_str("https://api.swiftype.com/api/v1/public/engines/search.json?callback=jQuery33107513732778347277_1562848671664&q=");
    u.append(query);
    u.append("&engine_key=PcoWSkbVqDnWTu_dm2ix&page=1&per_page=5&fetch_fields%5Bpage%5D%5B%5D=title&fetch_fields%5Bpage%5D%5B%5D=body&fetch_fields%5Bpage%5D%5B%5D=category&fetch_fields%5Bpage%5D%5B%5D=url&fetch_fields%5Bpage%5D%5B%5D=segment&fetch_fields%5Bpage%5D%5B%5D=summary&spelling=strict&highlight_fields%5Bpage%5D%5Bbody%5D%5Bfallback%5D=false&_=1562848671665");
    u
}

/// Whether the JSONP reply can be unwrapped: it is at least 46 bytes long and
/// bytes 45 and `len - 1` start characters.
pub open spec fn jsonp_unwrappable(body: Seq<char>) -> bool {
    &&& utf8(body).len() >= 46
    &&& char_boundary(body, 45)
    &&& char_boundary(body, utf8(body).len() - 1)
}

/// The JSON inside the JSONP reply: bytes `45..len - 1`, past the callback
/// name and before the closing parenthesis.
pub fn jsonp_payload(body: &str) -> (res: String)
    requires
        jsonp_unwrappable(body@),
    ensures
        res@ == decode_utf8(utf8(body@).subrange(45, utf8(body@).len() - 1)),
{
    byte_range(body, 45, body.as_bytes().len() - 1)
}

/// One page of the search results: the JSON text of its url, title and body.
#[derive(Debug)]
pub struct WikiPage {
    pub url: String,
    pub title: String,
    pub body: String,
}

/// How many results are shown: at most five.
pub open spec fn shown_results(record_count: u64) -> int {
    if record_count < 5 {
        record_count as int
    } else {
        5
    }
}

/// The body of a result as shown: bytes `1..100` of a body longer than 100
/// bytes, else the whole body.
pub open spec fn shown_body(body: Seq<char>) -> Seq<char> {
    if utf8(body).len() > 100 {
        decode_utf8(utf8(body).subrange(1, 100))
    } else {
        body
    }
}

/// Whether a long body can be cut at bytes 1 and 100.
pub open spec fn body_cuttable(body: Seq<char>) -> bool {
    utf8(body).len() > 100 ==> char_boundary(body, 1) && char_boundary(body, 100)
}

/// A page as `(url, title, body)` text.
pub open spec fn page_view(p: WikiPage) -> (Seq<char>, Seq<char>, Seq<char>) {
    (p.url@, p.title@, p.body@)
}

/// The embed field of one result, from its `(url, title, body)`: the title
/// without quotes, the body and a link to the page.
pub open spec fn page_field(p: (Seq<char>, Seq<char>, Seq<char>)) -> (Seq<char>, Seq<char>, bool) {
    (
        "["@ + without_char(p.1, '"') + "]"@,
        shown_body(p.2) + "... \n[Visit page]("@ + without_char(p.0, '"') + ")\n"@,
        false,
    )
}

/// The embed field of one result.
pub open spec fn result_field(p: WikiPage) -> (Seq<char>, Seq<char>, bool) {
    page_field(page_view(p))
}

/// The result fields of a search that found `record_count` records, from the
/// pages returned: one per page, at most five.
pub fn wiki_results(record_count: u64, pages: &Vec<WikiPage>) -> (res: Vec<EmbedField>)
    requires
        pages.len() >= shown_results(record_count),
        forall|i: int| 0 <= i < shown_results(record_count) ==> body_cuttable(#[trigger] pages@[i].body@),
    ensures
        fields_view(res@) == Seq::new(shown_results(record_count) as nat, |i: int| result_field(pages@[i])),
        res.len() <= 5,
{
    let records: usize = if record_count < 5 { record_count as usize } else { 5 };
    let mut res: Vec<EmbedField> = Vec::new();
    let mut i: usize = 0;
    while i < records
        invariant
            records == shown_results(record_count),
            records <= pages.len(),
            forall|j: int| 0 <= j < records ==> body_cuttable(#[trigger] pages@[j].body@),
            i <= records,
            res@.len() == i,
            fields_view(res@) == Seq::new(i as nat, |j: int| result_field(pages@[j])),
        decreases records - i,
    {
        let page = &pages[i];
        assert(body_cuttable(pages@[i as int].body@));
        let desc = if page.body.as_str().as_bytes().len() > 100 {
            byte_range(page.body.as_str(), 1, 100)
        } else {
            page.body.clone()
        };
        let mut name = String::from_str("[");
        let title = remove_char(page.title.as_str(), '"');
        name.append(title.as_str());
        name.append("]");
        let mut value = desc;
        value.append("... \n[Visit page](");
        let url = remove_char(page.url.as_str(), '"');
        value.append(url.as_str());
        value.append(")\n");
        let ghost v = value@;
        let ghost nm = name@;
        assert(nm == result_field(pages@[i as int]).0);
        assert(v == result_field(pages@[i as int]).1);
        let f = block_field(name, value);
        let ghost old_res = res@;
        res.push(f);
        assert(fields_view(res@)[i as int] == result_field(pages@[i as int]));
        assert forall|j: int| 0 <= j < i implies fields_view(res@)[j] == result_field(pages@[j]) by {
            assert(res@[j] == old_res[j]);
            assert(fields_view(old_res)[j] == result_field(pages@[j]));
        }
        assert(fields_view(res@) =~= Seq::new((i + 1) as nat, |j: int| result_field(pages@[j])));
        i = i + 1;
    }
    res
}

/// The embed answering a wiki search.
pub fn wiki_embed(query: &str, nick: &str, results: Vec<EmbedField>) -> (e: Embed)
    ensures
        e.title@ == "Roblox result for "@ + query@,
        e.description matches Some(d) && d@ == "Searched by "@ + nick@,
        e.fields@ == results@,
{
    let mut title = String::from_str("Roblox result for ");
    title.append(query);
    let mut d = String::from_str("Searched by ");
    d.append(nick);
    Embed { title, description: Some(d), fields: results }
}


/// What the search service's JSON reply says, as the library reads it: the
/// record count, and for each item of `records.page` the JSON text of its
/// `url`, `title` and `body`, or `None` for an item lacking one of them.
/// `None` for a reply that is not such JSON (no `record_count` as an
/// unsigned integer, no `info`, `errors` or `records.page`).
pub uninterp spec fn wiki_reply(json: Seq<char>) -> Option<(u64, Seq<Option<(Seq<char>, Seq<char>, Seq<char>)>>)>;

/// The decoded pages as `(url, title, body)` text.
pub open spec fn items_view(items: Seq<Option<WikiPage>>) -> Seq<Option<(Seq<char>, Seq<char>, Seq<char>)>> {
    items.map_values(|o: Option<WikiPage>| match o {
        Some(p) => Some(page_view(p)),
        None => None,
    })
}

/// `serde_json::from_str` into a `serde_json::Value`, then the lookups
/// `Value::get`, `Value::as_u64`, `Value::as_array` and `Value::to_string`
/// that read the reply: the record count and, for each item of
/// `records.page` (none when it is not an array), the JSON text of its url,
/// title and body. The reply is read as a generic JSON value: a key given
/// twice keeps its last value, and a top-level array is not read as the
/// four fields in order.
#[verifier::external_body]
pub fn decode_wiki_reply(json: &str) -> (res: Option<(u64, Vec<Option<WikiPage>>)>)
    ensures
        match res {
            Some((n, items)) => wiki_reply(json@) == Some((n, items_view(items@))),
            None => wiki_reply(json@) is None,
        },
{
    let v: Value = serde_json::from_str(json).ok()?;
    let _ = (v.get("info")?, v.get("errors")?);
    let count = v.get("record_count")?.as_u64()?;
    let page = v.get("records")?.get("page")?;
    let text = |p: &Value, k: &str| p.get(k).map(|x| x.to_string());
    let items = page.as_array().map_or(Vec::new(), |a| {
        a.iter().map(|p| Some(WikiPage { url: text(p, "url")?, title: text(p, "title")?, body: text(p, "body")? })).collect()
    });
    Some((count, items))
}

/// The body of a page given as `(url, title, body)`.
pub open spec fn body_of(p: (Seq<char>, Seq<char>, Seq<char>)) -> Seq<char> {
    p.2
}

/// The JSON inside a JSONP reply, as `jsonp_payload` cuts it.
pub open spec fn payload_text(body: Seq<char>) -> Seq<char> {
    decode_utf8(utf8(body).subrange(45, utf8(body).len() - 1))
}

/// Whether the decoded reply has every page that is shown, each with a body
/// that can be cut.
pub open spec fn reply_pages_ok(n: u64, items: Seq<Option<(Seq<char>, Seq<char>, Seq<char>)>>) -> bool {
    &&& items.len() >= shown_results(n)
    &&& forall|i: int| 0 <= i < shown_results(n) ==> #[trigger] items[i] is Some && body_cuttable(body_of(items[i]->0))
}

/// The result fields of a raw search reply, or `None` where the reply cannot
/// be shown: it cannot be unwrapped, it does not decode, a shown page is
/// missing, or a shown body cannot be cut.
pub open spec fn wiki_reply_fields_spec(body: Seq<char>) -> Option<Seq<(Seq<char>, Seq<char>, bool)>> {
    if !jsonp_unwrappable(body) {
        None
    } else {
        match wiki_reply(payload_text(body)) {
            None => None,
            Some((n, items)) => if reply_pages_ok(n, items) {
                Some(Seq::new(shown_results(n) as nat, |i: int| page_field(items[i]->0)))
            } else {
                None
            },
        }
    }
}

/// Reads the raw reply of the search service into the result fields to show.
pub fn wiki_reply_fields(body: &str) -> (res: Option<Vec<EmbedField>>)
    ensures
        match res {
            Some(f) => wiki_reply_fields_spec(body@) == Some(fields_view(f@)),
            None => wiki_reply_fields_spec(body@) is None,
        },
{
    let len = body.as_bytes().len();
    if len < 46 || !slice_allowed(body, 45, len - 1) {
        return None;
    }
    let json = jsonp_payload(body);
    assert(json@ == payload_text(body@));
    let (count, items) = match decode_wiki_reply(json.as_str()) {
        None => return None,
        Some(d) => d,
    };
    let ghost iv = items_view(items@);
    let shown: usize = if count < 5 { count as usize } else { 5 };
    if items.len() < shown {
        return None;
    }
    let mut pages: Vec<WikiPage> = Vec::new();
    let mut i: usize = 0;
    while i < shown
        invariant
            shown == shown_results(count),
            shown <= items.len(),
            iv == items_view(items@),
            jsonp_unwrappable(body@),
            wiki_reply(payload_text(body@)) == Some((count, iv)),
            i <= shown,
            pages@.len() == i,
            forall|j: int| 0 <= j < i ==> #[trigger] iv[j] is Some && body_cuttable(body_of(iv[j]->0)),
            forall|j: int| 0 <= j < i ==> iv[j] == Some(page_view(#[trigger] pages@[j])),
        decreases shown - i,
    {
        match &items[i] {
            None => {
                assert(iv[i as int] is None);
                return None;
            },
            Some(p) => {
                if p.body.as_str().as_bytes().len() > 100 && !slice_allowed(p.body.as_str(), 1, 100) {
                    assert(!body_cuttable(body_of(iv[i as int]->0)));
                    return None;
                }
                pages.push(WikiPage { url: p.url.clone(), title: p.title.clone(), body: p.body.clone() });
                assert(iv[i as int] == Some(page_view(pages@[i as int])));
            },
        }
        i = i + 1;
    }
    assert(reply_pages_ok(count, iv));
    let fields = wiki_results(count, &pages);
    assert(fields_view(fields@) =~= Seq::new(shown_results(count) as nat, |k: int| page_field(iv[k]->0)));
    Some(fields)
}

} // verus!
