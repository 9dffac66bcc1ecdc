//! Off-chain enrichment: whether a metadata URI warrants a fetch, the
//! flattening of a fetched JSON body into key/value pairs, the extraction
//! and trimming of a website host, and the synthetic DNS-count entry.
//!
//! The fetch itself and the DNS lookup are network work done by the caller;
//! every decision around them is made and proved here.

use vstd::prelude::*;
use vstd::string::StrSliceExecFns;
use vstd::string::StringExecFns;

use crate::digits::{dec_str, u64_to_string};
use crate::error::Error;

verus! {

/// A URI that does not point anywhere: empty, or nothing but null
/// characters.
pub open spec fn blank_uri(s: Seq<char>) -> bool {
    s.len() == 0 || (forall|i: int| 0 <= i < s.len() ==> s[i] == '\0')
}

/// Whether an enrichment fetch should be issued at all: only for a URI
/// that is not blank. A blank URI is the expected "no off-chain data"
/// case, not an error.
pub fn uri_requests_fetch(uri: &str) -> (r: bool)
    ensures
        r == !blank_uri(uri@),
{
    let len = uri.unicode_len();
    let mut i: usize = 0;
    while i < len
        invariant
            0 <= i <= len,
            len == uri@.len(),
            forall|j: int| 0 <= j < i ==> uri@[j] == '\0',
        decreases len - i,
    {
        let c = uri.get_char(i);
        if c != '\0' {
            return true;
        }
        i = i + 1;
    }
    false
}

/// Whether a body is valid JSON: a function of the text alone.
pub uninterp spec fn json_parses(body: Seq<char>) -> bool;

/// Whether a valid JSON body is an object at its top level.
pub uninterp spec fn json_is_object(body: Seq<char>) -> bool;

/// The top-level key/value pairs of a JSON object body, each value
/// rendered back as JSON text, in the order the parser yields them.
pub uninterp spec fn json_object_entries(body: Seq<char>) -> Seq<(Seq<char>, Seq<char>)>;

/// The character sequences of a list of key/value pairs.
pub open spec fn entries_view(es: Seq<(String, String)>) -> Seq<(Seq<char>, Seq<char>)> {
    es.map_values(|e: (String, String)| (e.0@, e.1@))
}

/// What a fetched body turned out to be.
enum JsonBody {
    NotJson,
    NotObject,
    Object(Vec<(String, String)>),
}

/// Relies on serde_json::from_str::<Value>: whether the body parses, and
/// whether its top level is an object, are functions of the text alone.
/// Relies on serde_json::Value::to_string to render each top-level value
/// back as JSON text when the body is an object. The object's map holds
/// each key once, so the entries carry pairwise-distinct keys.
#[verifier::external_body]
fn parse_json_body(body: &str) -> (r: JsonBody)
    ensures
        (r is NotJson) == !json_parses(body@),
        json_parses(body@) ==> ((r is Object) == json_is_object(body@)),
        r matches JsonBody::Object(es) ==> entries_view(es@) == json_object_entries(body@) && (
        forall|i: int, j: int| 0 <= i < j < es@.len() ==> es@[i].0@ != es@[j].0@),
{
    match serde_json::from_str::<serde_json::Value>(body) {
        Err(_) => JsonBody::NotJson,
        Ok(serde_json::Value::Object(map)) => JsonBody::Object(
            map.iter().map(|(k, v)| (k.clone(), v.to_string())).collect(),
        ),
        Ok(_) => JsonBody::NotObject,
    }
}

/// Flattens a fetched body. A body that is not JSON is an enrichment
/// failure; valid JSON that is not an object yields no entries, which is
/// not an error; an object yields its top-level pairs, keys unique.
pub fn entries_from_body(body: &str) -> (r: Result<Vec<(String, String)>, Error>)
    ensures
        !json_parses(body@) ==> r == Err::<Vec<(String, String)>, Error>(Error::EnrichmentFailed),
        json_parses(body@) && !json_is_object(body@) ==> (r matches Ok(es) && es@.len() == 0),
        json_parses(body@) && json_is_object(body@) ==> (r matches Ok(es) && entries_view(es@)
            == json_object_entries(body@)),
        r matches Ok(es) ==> (forall|i: int, j: int|
            0 <= i < j < es@.len() ==> es@[i].0@ != es@[j].0@),
{
    match parse_json_body(body) {
        JsonBody::NotJson => Err(Error::EnrichmentFailed),
        JsonBody::NotObject => Ok(Vec::new()),
        JsonBody::Object(es) => Ok(es),
    }
}

/// The value of the first entry with the given key.
pub open spec fn find_key(es: Seq<(String, String)>, key: Seq<char>) -> Option<Seq<char>>
    decreases es.len(),
{
    if es.len() == 0 {
        None
    } else if es[0].0@ == key {
        Some(es[0].1@)
    } else {
        find_key(es.skip(1), key)
    }
}

proof fn lemma_find_key_prefix_miss(es: Seq<(String, String)>, key: Seq<char>, i: int)
    requires
        0 <= i <= es.len(),
        forall|j: int| 0 <= j < i ==> es[j].0@ != key,
    ensures
        find_key(es, key) == find_key(es.skip(i), key),
    decreases i,
{
    if i == 0 {
        assert(es.skip(0) =~= es);
    } else {
        lemma_find_key_prefix_miss(es, key, i - 1);
        let t = es.skip(i - 1);
        assert(t[0] == es[i - 1]);
        assert(t[0].0@ != key);
        assert(t.len() > 0);
        assert(find_key(t, key) == find_key(t.skip(1), key));
        assert(t.skip(1) =~= es.skip(i));
    }
}

/// A padding character around a website value: a quote or a space.
pub open spec fn is_pad_char(c: char) -> bool {
    c == '"' || c == ' '
}

/// The sequence with padding characters dropped from the front.
pub open spec fn trim_front(s: Seq<char>) -> Seq<char>
    decreases s.len(),
{
    if s.len() > 0 && is_pad_char(s[0]) {
        trim_front(s.skip(1))
    } else {
        s
    }
}

/// The sequence with padding characters dropped from the back.
pub open spec fn trim_back(s: Seq<char>) -> Seq<char>
    decreases s.len(),
{
    if s.len() > 0 && is_pad_char(s.last()) {
        trim_back(s.drop_last())
    } else {
        s
    }
}

/// The sequence starts with the secure scheme prefix.
pub open spec fn has_https_prefix(s: Seq<char>) -> bool {
    s.len() >= 8 && s[0] == 'h' && s[1] == 't' && s[2] == 't' && s[3] == 'p' && s[4] == 's'
        && s[5] == ':' && s[6] == '/' && s[7] == '/'
}

/// The host to resolve for a website value: the value without surrounding
/// quotes and spaces, and without one leading secure scheme prefix.
pub open spec fn website_host_spec(v: Seq<char>) -> Seq<char> {
    let t = trim_back(trim_front(v));
    if has_https_prefix(t) {
        t.skip(8)
    } else {
        t
    }
}

proof fn lemma_trim_front_at(s: Seq<char>, lo: int)
    requires
        0 <= lo <= s.len(),
        forall|j: int| 0 <= j < lo ==> is_pad_char(#[trigger] s[j]),
        lo < s.len() ==> !is_pad_char(s[lo]),
    ensures
        trim_front(s) == s.skip(lo),
    decreases lo,
{
    if lo == 0 {
        assert(s.skip(0) =~= s);
    } else {
        assert(is_pad_char(s[0]));
        let t = s.skip(1);
        assert(forall|j: int| 0 <= j < lo - 1 ==> t[j] == s[j + 1]);
        lemma_trim_front_at(t, lo - 1);
        assert(t.skip(lo - 1) =~= s.skip(lo));
    }
}

proof fn lemma_trim_back_at(s: Seq<char>, hi: int)
    requires
        0 <= hi <= s.len(),
        forall|j: int| hi <= j < s.len() ==> is_pad_char(#[trigger] s[j]),
        hi > 0 ==> !is_pad_char(s[hi - 1]),
    ensures
        trim_back(s) == s.take(hi),
    decreases s.len(),
{
    if s.len() == hi {
        assert(s.take(hi) =~= s);
    } else {
        assert(is_pad_char(s.last()));
        lemma_trim_back_at(s.drop_last(), hi);
        assert(s.drop_last().take(hi) =~= s.take(hi));
    }
}

/// Is the character padding?
fn is_pad(c: char) -> (r: bool)
    ensures
        r == is_pad_char(c),
{
    c == '"' || c == ' '
}

/// Prepares a website value for a DNS lookup: strips surrounding quotes
/// and spaces, then one leading secure scheme prefix.
pub fn website_host(value: &str) -> (r: String)
    ensures
        r@ == website_host_spec(value@),
{
    let len = value.unicode_len();
    let mut lo: usize = 0;
    while lo < len && is_pad(value.get_char(lo))
        invariant
            0 <= lo <= len,
            len == value@.len(),
            forall|j: int| 0 <= j < lo ==> is_pad_char(#[trigger] value@[j]),
        decreases len - lo,
    {
        lo = lo + 1;
    }
    let mut hi: usize = len;
    while hi > lo && is_pad(value.get_char(hi - 1))
        invariant
            lo <= hi <= len,
            len == value@.len(),
            forall|j: int| 0 <= j < lo ==> is_pad_char(#[trigger] value@[j]),
            lo < len ==> !is_pad_char(value@[lo as int]),
            forall|j: int| hi <= j < len ==> is_pad_char(#[trigger] value@[j]),
        decreases hi,
    {
        hi = hi - 1;
    }
    proof {
        lemma_trim_front_at(value@, lo as int);
        let t = value@.skip(lo as int);
        assert(forall|j: int| hi - lo <= j < t.len() ==> t[j] == value@[j + lo]);
        assert(hi > lo ==> t[hi - lo - 1] == value@[hi - 1]);
        lemma_trim_back_at(t, hi - lo);
        assert(t.take(hi - lo) =~= value@.subrange(lo as int, hi as int));
    }
    let trimmed = value.substring_char(lo, hi);
    let tlen = hi - lo;
    let has_scheme = tlen >= 8 && trimmed.get_char(0) == 'h' && trimmed.get_char(1) == 't'
        && trimmed.get_char(2) == 't' && trimmed.get_char(3) == 'p' && trimmed.get_char(4) == 's'
        && trimmed.get_char(5) == ':' && trimmed.get_char(6) == '/' && trimmed.get_char(7) == '/';
    if has_scheme {
        let host = trimmed.substring_char(8, tlen);
        proof {
            assert(host@ =~= website_host_spec(value@));
        }
        String::from_str(host)
    } else {
        String::from_str(trimmed)
    }
}

/// Looks for a "website" entry; when one is there, hands back the host to
/// resolve.
pub fn website_query(entries: &Vec<(String, String)>) -> (r: Option<String>)
    ensures
        find_key(entries@, "website"@) matches Some(v) ==> (r matches Some(h) && h@
            == website_host_spec(v)),
        find_key(entries@, "website"@) is None ==> r is None,
{
    let needle = String::from_str("website");
    let mut i: usize = 0;
    while i < entries.len()
        invariant
            0 <= i <= entries@.len(),
            needle@ == "website"@,
            forall|j: int| 0 <= j < i ==> entries@[j].0@ != "website"@,
        decreases entries@.len() - i,
    {
        if entries[i].0 == needle {
            proof {
                lemma_find_key_prefix_miss(entries@, "website"@, i as int);
                assert(entries@.skip(i as int)[0] == entries@[i as int]);
            }
            return Some(website_host(entries[i].1.as_str()));
        }
        i = i + 1;
    }
    proof {
        lemma_find_key_prefix_miss(entries@, "website"@, entries@.len() as int);
        assert(entries@.skip(entries@.len() as int).len() == 0);
    }
    None
}

/// The key under which the DNS reply count is recorded.
pub open spec fn dns_count_key() -> Seq<char> {
    "number of website dns records"@
}

/// Appends the synthetic DNS-count entry when a lookup produced a count;
/// a failed lookup leaves the entries as they are.
pub fn attach_dns_count(entries: Vec<(String, String)>, count: Option<u64>) -> (r: Vec<
    (String, String),
>)
    ensures
        count matches Some(c) ==> r@.len() == entries@.len() + 1 && (forall|i: int|
            0 <= i < entries@.len() ==> r@[i] == entries@[i]) && r@.last().0@ == dns_count_key()
            && r@.last().1@ == dec_str(c as nat),
        count is None ==> r == entries,
{
    match count {
        Some(c) => {
            let mut out = entries;
            let key = String::from_str("number of website dns records");
            out.push((key, u64_to_string(c)));
            out
        },
        None => entries,
    }
}

} // verus!
