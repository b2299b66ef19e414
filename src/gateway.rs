//! The client side of the remote bookmark service: where each request goes,
//! with which parameters and credentials, how tag lists are ordered, and which
//! response statuses count as success.
use vstd::prelude::*;
use vstd::string::StringExecFns;
use crate::text::{bool_text, bool_word, decimal, decimal_text, join_parts, joined, views};

verus! {

/// url::ParseError, the error of url::Url::parse and url::Url::join, carried
/// opaque from `join_url` to the point where it becomes a `ClientError`.
#[verifier::external_type_specification]
#[verifier::external_body]
pub struct ExParseError(url::ParseError);

/// The serialisation of the URL that `input` names when read against the
/// absolute URL serialised as `base`; `None` where either cannot be parsed.
pub uninterp spec fn joined_url(base: Seq<char>, input: Seq<char>) -> Option<Seq<char>>;

/// The standard, padded base64 encoding of the UTF-8 bytes of `s`.
pub uninterp spec fn base64_text(s: Seq<char>) -> Seq<char>;

/// Relies on url::Url::join (with url::Url::parse reading the base): the
/// result is the serialised URL that `input` names relative to `base`, and
/// an error exactly where the base or the joined reference does not parse.
#[verifier::external_body]
fn join_url(base: &str, input: &str) -> (r: Result<String, url::ParseError>)
    ensures
        r is Ok <==> joined_url(base@, input@) is Some,
        r matches Ok(s) ==> joined_url(base@, input@) == Some(s@),
{
    match url::Url::parse(base) {
        Ok(b) => b.join(input).map(|u| u.to_string()),
        Err(e) => Err(e),
    }
}

/// Relies on base64::encode: the standard alphabet with padding, over the
/// bytes of the text.
#[verifier::external_body]
fn encode_base64(s: &str) -> (r: String)
    ensures
        r@ == base64_text(s@),
{
    base64::encode(s)
}

/// Whether `a` comes no later than `b` in the order of strings: lexicographic
/// by code point, a prefix before its extensions.
pub open spec fn text_le(a: Seq<char>, b: Seq<char>) -> bool
    decreases a.len(),
{
    if a.len() == 0 {
        true
    } else if b.len() == 0 {
        false
    } else if a[0] != b[0] {
        (a[0] as u32) < (b[0] as u32)
    } else {
        text_le(a.drop_first(), b.drop_first())
    }
}

/// The strings are in ascending order.
pub open spec fn is_sorted_text(v: Seq<String>) -> bool {
    forall|i: int, j: int| 0 <= i < j < v.len() ==> text_le(#[trigger] v[i]@, #[trigger] v[j]@)
}

/// Every text comes no later than itself.
pub proof fn lemma_text_le_reflexive(a: Seq<char>)
    ensures
        text_le(a, a),
    decreases a.len(),
{
    if a.len() > 0 {
        lemma_text_le_reflexive(a.drop_first());
    }
}

/// Two texts that each come no later than the other are equal.
pub proof fn lemma_text_le_antisymmetric(a: Seq<char>, b: Seq<char>)
    requires
        text_le(a, b),
        text_le(b, a),
    ensures
        a == b,
    decreases a.len(),
{
    if a.len() == 0 {
        assert(a =~= b);
    } else {
        assert(a[0] == b[0]);
        lemma_text_le_antisymmetric(a.drop_first(), b.drop_first());
        assert(a =~= seq![a[0]] + a.drop_first());
        assert(b =~= seq![b[0]] + b.drop_first());
    }
}

/// Two ascending lists of the same strings read alike: sorting the tags that
/// the service returned gives one result whatever order they came in.
pub proof fn lemma_sorted_texts_agree(x: Seq<String>, y: Seq<String>)
    requires
        x.to_multiset() == y.to_multiset(),
        is_sorted_text(x),
        is_sorted_text(y),
    ensures
        views(x) == views(y),
    decreases x.len(),
{
    broadcast use vstd::seq_lib::group_to_multiset_ensures;

    assert(x.to_multiset().len() == x.len() && y.to_multiset().len() == y.len());
    if x.len() == 0 {
        assert(views(x) =~= views(y));
    } else {
        assert(x.contains(x[0]) && y.contains(y[0]));
        assert(x.to_multiset().count(x[0]) > 0 && y.to_multiset().count(y[0]) > 0);
        assert(y.to_multiset().count(x[0]) > 0 && x.to_multiset().count(y[0]) > 0);
        assert(y.contains(x[0]));
        let k = choose|k: int| 0 <= k < y.len() && y[k] == x[0];
        assert(x.contains(y[0]));
        let m = choose|m: int| 0 <= m < x.len() && x[m] == y[0];
        lemma_text_le_reflexive(x[0]@);
        assert(text_le(x[0]@, x[m]@));
        assert(text_le(y[0]@, y[k]@));
        lemma_text_le_antisymmetric(x[0]@, y[0]@);
        assert forall|j: int| 0 <= j <= k implies #[trigger] y[j]@ == y[0]@ by {
            lemma_text_le_reflexive(y[j]@);
            assert(text_le(y[0]@, y[j]@));
            assert(text_le(y[j]@, y[k]@));
            lemma_text_le_antisymmetric(y[0]@, y[j]@);
        }
        let xr = x.drop_first();
        let yr = y.remove(k);
        assert(x.remove(0) =~= xr);
        assert(xr.to_multiset() == yr.to_multiset());
        assert forall|i: int, j: int| 0 <= i < j < yr.len() implies text_le(
            #[trigger] yr[i]@,
            #[trigger] yr[j]@,
        ) by {
            let i2 = if i < k { i } else { i + 1 };
            let j2 = if j < k { j } else { j + 1 };
            assert(yr[i] == y[i2] && yr[j] == y[j2]);
        }
        assert forall|i: int, j: int| 0 <= i < j < xr.len() implies text_le(
            #[trigger] xr[i]@,
            #[trigger] xr[j]@,
        ) by {
            assert(xr[i] == x[i + 1] && xr[j] == x[j + 1]);
        }
        lemma_sorted_texts_agree(xr, yr);
        assert forall|i: int| 0 <= i < y.len() implies #[trigger] views(y)[i] == views(x)[i] by {
            if i == 0 {
            } else if i <= k {
                assert(views(xr)[i - 1] == views(yr)[i - 1]);
                assert(y[i - 1]@ == y[0]@);
            } else {
                assert(views(xr)[i - 1] == views(yr)[i - 1]);
            }
        }
        assert(views(x) =~= views(y));
    }
}

/// Relies on slice::sort over `String`, whose order is lexicographic by
/// bytes, that is by code point: the same strings come back in ascending order.
#[verifier::external_body]
fn sort_texts(v: &mut Vec<String>)
    ensures
        final(v)@.to_multiset() == old(v)@.to_multiset(),
        is_sorted_text(final(v)@),
{
    v.sort();
}

/// Why a client could not be made.
#[derive(Debug, PartialEq, Eq, Structural, Clone, Copy)]
pub enum ClientError {
    /// The root URL, or a service address joined to it, does not parse.
    InvalidUrl,
}

/// Path of the service's interface under the root URL.
pub const API_PATH: &'static str = "/index.php/apps/bookmarks/public/rest/v2";

/// Path of the bookmark collection, joined to the interface's address.
pub const BOOKMARK_PATH: &'static str = "/bookmark";

/// Path of the tag list, joined to the interface's address.
pub const TAG_PATH: &'static str = "/tag";

/// The address of the service's interface under the root URL `root`.
pub open spec fn api_url(root: Seq<char>) -> Option<Seq<char>> {
    joined_url(root, API_PATH@)
}

/// The address `path` names under the service's interface for the root `root`.
pub open spec fn resource_url(root: Seq<char>, path: Seq<char>) -> Option<Seq<char>> {
    match api_url(root) {
        Some(base) => joined_url(base, path),
        None => None,
    }
}

/// The parameter that asks for one tag.
pub open spec fn tag_param(t: Seq<char>) -> Seq<char> {
    "tags[]="@ + t
}

/// The parameter that asks for one search term.
pub open spec fn search_param(t: Seq<char>) -> Seq<char> {
    "search[]="@ + t
}

/// The parameters of a bookmark list request, in order: one per tag, one per
/// search term, every page, any criterion matching, and whether bookmarks
/// marked unavailable are included.
pub open spec fn query_parts(tags: Seq<Seq<char>>, filters: Seq<Seq<char>>, unavailable: bool) -> Seq<
    Seq<char>,
> {
    tags.map_values(|t: Seq<char>| tag_param(t)) + filters.map_values(
        |f: Seq<char>| search_param(f),
    ) + seq!["page=-1"@, "conjunction=or"@, "unavailable="@ + bool_text(unavailable)]
}

/// The query string of a bookmark list request.
pub open spec fn query_text(tags: Seq<Seq<char>>, filters: Seq<Seq<char>>, unavailable: bool) -> Seq<
    char,
> {
    joined(query_parts(tags, filters, unavailable))
}

/// The value of the authorisation header for these credentials.
pub open spec fn basic_auth(id: Seq<char>, secret: Seq<char>) -> Seq<char> {
    "Basic "@ + base64_text(id + ":"@ + secret)
}

/// Whether an HTTP status code lies in the success class (2xx).
pub open spec fn is_success_status(code: u16) -> bool {
    200 <= code && code < 300
}

/// The query string of a bookmark list request: `tags[]=<tag>` for each tag,
/// `search[]=<term>` for each search term, then `page=-1`, `conjunction=or`
/// and `unavailable=<flag>`, joined by `&`.
pub fn query_parameters(tags: &Vec<String>, filters: &Vec<String>, unavailable: bool) -> (r: String)
    ensures
        r@ == query_text(views(tags@), views(filters@), unavailable),
{
    let ghost want = query_parts(views(tags@), views(filters@), unavailable);
    let mut parts: Vec<String> = Vec::new();
    let mut i: usize = 0;
    while i < tags.len()
        invariant
            i <= tags@.len(),
            parts@.len() == i,
            forall|j: int| 0 <= j < i ==> #[trigger] parts@[j]@ == tag_param(tags@[j]@),
        decreases tags@.len() - i,
    {
        parts.push(String::from_str("tags[]=").concat(tags[i].as_str()));
        i = i + 1;
    }
    let mut k: usize = 0;
    while k < filters.len()
        invariant
            i == tags@.len(),
            k <= filters@.len(),
            parts@.len() == i + k,
            forall|j: int| 0 <= j < i ==> #[trigger] parts@[j]@ == tag_param(tags@[j]@),
            forall|j: int|
                0 <= j < k ==> #[trigger] parts@[i + j]@ == search_param(filters@[j]@),
        decreases filters@.len() - k,
    {
        parts.push(String::from_str("search[]=").concat(filters[k].as_str()));
        proof {
            assert(parts@[i + k as int]@ == search_param(filters@[k as int]@));
        }
        k = k + 1;
    }
    parts.push(String::from_str("page=-1"));
    parts.push(String::from_str("conjunction=or"));
    parts.push(String::from_str("unavailable=").concat(bool_word(unavailable).as_str()));
    proof {
        let got = views(parts@);
        assert forall|j: int| 0 <= j < got.len() implies got[j] == want[j] by {
            if j >= i + k {
            } else if j >= i {
                assert(parts@[i + (j - i)]@ == search_param(filters@[j - i]@));
            }
        }
        assert(got =~= want);
    }
    join_parts(&parts)
}

/// Sorts the tag names read from the service into ascending order.
pub fn sorted_tags(tags: Vec<String>) -> (r: Vec<String>)
    ensures
        r@.to_multiset() == tags@.to_multiset(),
        is_sorted_text(r@),
{
    let mut r = tags;
    sort_texts(&mut r);
    r
}

/// Reports whether a response status code belongs to the success class.
pub fn status_is_success(code: u16) -> (r: bool)
    ensures
        r == is_success_status(code),
{
    200 <= code && code < 300
}

/// With neither tags nor search terms the query string is the fixed part
/// alone, with no stray separator before it.
pub proof fn lemma_query_without_criteria(unavailable: bool)
    ensures
        query_text(Seq::empty(), Seq::empty(), unavailable) == "page=-1&conjunction=or&unavailable="@
            + bool_text(unavailable),
{
    reveal_strlit("page=-1");
    reveal_strlit("conjunction=or");
    reveal_strlit("unavailable=");
    reveal_strlit("&");
    reveal_strlit("page=-1&conjunction=or&unavailable=");
    let parts = query_parts(Seq::empty(), Seq::empty(), unavailable);
    assert(parts =~= seq!["page=-1"@, "conjunction=or"@, "unavailable="@ + bool_text(unavailable)]);
    assert(parts.drop_last().drop_last() =~= seq!["page=-1"@]);
    assert(parts.drop_last() =~= seq!["page=-1"@, "conjunction=or"@]);
    assert(joined(parts.drop_last().drop_last()) == "page=-1"@);
    assert(joined(parts.drop_last()) == "page=-1"@ + "&"@ + "conjunction=or"@);
    assert(joined(parts) == joined(parts.drop_last()) + "&"@ + parts.last());
    assert(joined(parts) =~= "page=-1&conjunction=or&unavailable="@ + bool_text(unavailable));
}

/// The addresses and credentials of one bookmark service account. URLs are
/// held in their serialised form.
#[derive(Debug)]
pub struct BookmarkAPIClient {
    auth_id: String,
    auth_secret: String,
    root_url: String,
    bookmarks_url: String,
    tags_url: String,
}

impl BookmarkAPIClient {
    pub closed spec fn spec_auth_id(&self) -> Seq<char> {
        self.auth_id@
    }

    pub closed spec fn spec_auth_secret(&self) -> Seq<char> {
        self.auth_secret@
    }

    pub closed spec fn spec_root_url(&self) -> Seq<char> {
        self.root_url@
    }

    pub closed spec fn spec_bookmarks_url(&self) -> Seq<char> {
        self.bookmarks_url@
    }

    pub closed spec fn spec_tags_url(&self) -> Seq<char> {
        self.tags_url@
    }

    /// A client for the service under `root_url`. Its bookmark and tag
    /// addresses are `/bookmark` and `/tag` joined to the address of the
    /// service's interface under the root; an unparsable URL is an error.
    pub fn new(auth_id: String, auth_secret: String, root_url: String) -> (r: Result<
        BookmarkAPIClient,
        ClientError,
    >)
        ensures
            r is Ok <==> (resource_url(root_url@, BOOKMARK_PATH@) is Some && resource_url(
                root_url@,
                TAG_PATH@,
            ) is Some),
            r matches Err(e) ==> e == ClientError::InvalidUrl,
            r matches Ok(c) ==> {
                &&& c.spec_auth_id() == auth_id@
                &&& c.spec_auth_secret() == auth_secret@
                &&& c.spec_root_url() == root_url@
                &&& resource_url(root_url@, BOOKMARK_PATH@) == Some(c.spec_bookmarks_url())
                &&& resource_url(root_url@, TAG_PATH@) == Some(c.spec_tags_url())
            },
    {
        let base = match join_url(root_url.as_str(), API_PATH) {
            Ok(u) => u,
            Err(_) => {
                return Err(ClientError::InvalidUrl);
            },
        };
        let bookmarks_url = match join_url(base.as_str(), BOOKMARK_PATH) {
            Ok(u) => u,
            Err(_) => {
                return Err(ClientError::InvalidUrl);
            },
        };
        let tags_url = match join_url(base.as_str(), TAG_PATH) {
            Ok(u) => u,
            Err(_) => {
                return Err(ClientError::InvalidUrl);
            },
        };
        Ok(BookmarkAPIClient { auth_id, auth_secret, root_url, bookmarks_url, tags_url })
    }

    /// The root URL the client was made with.
    pub fn root_url(&self) -> (r: &String)
        ensures
            r@ == self.spec_root_url(),
    {
        &self.root_url
    }

    /// The address of the bookmark collection.
    pub fn bookmarks_url(&self) -> (r: &String)
        ensures
            r@ == self.spec_bookmarks_url(),
    {
        &self.bookmarks_url
    }

    /// The address of the tag list.
    pub fn tags_url(&self) -> (r: &String)
        ensures
            r@ == self.spec_tags_url(),
    {
        &self.tags_url
    }

    /// The value of the authorisation header that every request carries:
    /// `Basic ` and the base64 encoding of `<id>:<secret>`.
    pub fn auth_header(&self) -> (r: String)
        ensures
            r@ == basic_auth(self.spec_auth_id(), self.spec_auth_secret()),
    {
        let credentials = self.auth_id.clone().concat(":").concat(self.auth_secret.as_str());
        String::from_str("Basic ").concat(encode_base64(credentials.as_str()).as_str())
    }

    /// The address that lists the tags.
    pub fn tags_request_url(&self) -> (r: String)
        ensures
            r@ == self.spec_tags_url(),
    {
        self.tags_url.clone()
    }

    /// The address that lists the bookmarks carrying any of `tags` or matching
    /// any of `filters`: the collection's address, `?`, and the query string.
    pub fn bookmarks_request_url(&self, tags: &Vec<String>, filters: &Vec<String>, unavailable: bool) -> (r:
        String)
        ensures
            r@ == self.spec_bookmarks_url() + "?"@ + query_text(
                views(tags@),
                views(filters@),
                unavailable,
            ),
    {
        self.bookmarks_url.clone().concat("?").concat(
            query_parameters(tags, filters, unavailable).as_str(),
        )
    }

    /// The address that deletes the bookmark with this id: the collection's
    /// address, `/`, and the id in decimal.
    pub fn delete_request_url(&self, id: u64) -> (r: String)
        ensures
            r@ == self.spec_bookmarks_url() + "/"@ + decimal_text(id as nat),
    {
        self.bookmarks_url.clone().concat("/").concat(decimal(id).as_str())
    }
}

} // verus!
