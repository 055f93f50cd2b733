//! The Danbooru client: request URLs with their query strings, and the post
//! record that the API answers with.

use vstd::prelude::*;

use crate::text::{join, join_texts};

verus! {

/// Where the Danbooru API lives.
pub const DANBOORU_ORIGIN: &'static str = "https://danbooru.donmai.us";

/// The endpoint that lists posts matching a tag search.
pub const POSTS_PATH: &'static str = "posts.json";

/// The endpoint that answers with one random post matching a tag search.
pub const RANDOM_POST_PATH: &'static str = "posts/random.json";

/// A query entry: a key and its value.
pub type QueryEntry = (Seq<char>, Seq<char>);

/// No key occurs twice among `es`.
pub open spec fn distinct_keys(es: Seq<QueryEntry>) -> bool {
    forall|i: int, j: int| 0 <= i < es.len() && 0 <= j < es.len() && i != j ==> es[i].0 != es[j].0
}

/// `key` is one of the keys of `es`.
pub open spec fn has_key(es: Seq<QueryEntry>, key: Seq<char>) -> bool {
    exists|i: int| 0 <= i < es.len() && es[i].0 == key
}

/// The position of `key` among the keys of `es` (meaningful where `has_key`).
pub open spec fn key_index(es: Seq<QueryEntry>, key: Seq<char>) -> int {
    choose|i: int| 0 <= i < es.len() && es[i].0 == key
}

/// `es` with `key` set to `value`: the entry of `key` takes the new value where
/// it exists, else the pair is appended (a map insert that keeps positions).
pub open spec fn insert_entry(es: Seq<QueryEntry>, key: Seq<char>, value: Seq<char>) -> Seq<
    QueryEntry,
> {
    if has_key(es, key) {
        es.update(key_index(es, key), (key, value))
    } else {
        es.push((key, value))
    }
}

/// The map that the entries stand for.
pub open spec fn entries_map(es: Seq<QueryEntry>) -> Map<Seq<char>, Seq<char>> {
    Map::new(|k: Seq<char>| has_key(es, k), |k: Seq<char>| es[key_index(es, k)].1)
}

/// `key=value`.
pub open spec fn entry_text(e: QueryEntry) -> Seq<char> {
    e.0 + seq!['='] + e.1
}

/// The query string: the entries as `key=value`, joined by `&`.
pub open spec fn query_text(es: Seq<QueryEntry>) -> Seq<char> {
    join(es.map_values(|e: QueryEntry| entry_text(e)), seq!['&'])
}

/// Query parameters of a request, in the order they were first set; setting
/// a key again replaces its value.
#[derive(Debug)]
pub struct QueryParams {
    entries: Vec<(String, String)>,
}

impl View for QueryParams {
    type V = Seq<QueryEntry>;

    closed spec fn view(&self) -> Seq<QueryEntry> {
        self.entries@.map_values(|e: (String, String)| (e.0@, e.1@))
    }
}

impl QueryParams {
    #[verifier::type_invariant]
    spec fn keys_are_distinct(self) -> bool {
        distinct_keys(self@)
    }

    /// No parameters.
    pub fn new() -> (r: Self)
        ensures
            r@ == Seq::<QueryEntry>::empty(),
            distinct_keys(r@),
    {
        let r = QueryParams { entries: Vec::new() };
        assert(r@ =~= Seq::<QueryEntry>::empty());
        r
    }

    /// Sets `key` to `value`.
    pub fn insert(&mut self, key: String, value: String)
        ensures
            final(self)@ == insert_entry(old(self)@, key@, value@),
            distinct_keys(final(self)@),
    {
        proof {
            use_type_invariant(&*self);
        }
        let ghost es = self@;
        let mut entries: Vec<(String, String)> = Vec::new();
        std::mem::swap(&mut entries, &mut self.entries);
        assert(es =~= entries@.map_values(|e: (String, String)| (e.0@, e.1@)));
        let n = entries.len();
        let mut i: usize = 0;
        let mut found: bool = false;
        while i < n
            invariant_except_break
                n == entries@.len(),
                i <= n,
                forall|j: int| 0 <= j < i ==> es[j].0 != key@,
                !found,
            invariant
                es =~= entries@.map_values(|e: (String, String)| (e.0@, e.1@)),
                n == entries@.len(),
            ensures
                found ==> i < n && es[i as int].0 == key@,
                !found ==> forall|j: int| 0 <= j < n ==> es[j].0 != key@,
            decreases n - i,
        {
            if entries[i].0 == key {
                found = true;
                break;
            }
            i = i + 1;
        }
        if found {
            assert(has_key(es, key@));
            assert(key_index(es, key@) == i as int) by {
                let k = key_index(es, key@);
                if k != i as int {
                    assert(es[k].0 == es[i as int].0);
                }
            }
            let _ = entries.remove(i);
            entries.insert(i, (key, value));
        } else {
            assert(!has_key(es, key@));
            entries.push((key, value));
        }
        let ghost new_es = entries@.map_values(|e: (String, String)| (e.0@, e.1@));
        assert(new_es =~= insert_entry(es, key@, value@));
        assert(distinct_keys(new_es));
        self.entries = entries;
    }

    /// Whether no parameter is set.
    pub fn is_empty(&self) -> (r: bool)
        ensures
            r == (self@.len() == 0),
    {
        self.entries.is_empty()
    }

    /// The query string, `key=value` pairs joined by `&`.
    pub fn to_query_string(&self) -> (r: String)
        ensures
            r@ == query_text(self@),
    {
        let mut parts: Vec<String> = Vec::new();
        let n = self.entries.len();
        for i in 0..n
            invariant
                n == self.entries@.len(),
                parts@.len() == i,
                forall|j: int|
                    0 <= j < i ==> #[trigger] parts@[j]@ == entry_text(self@[j]),
        {
            let mut part = self.entries[i].0.clone();
            part.append("=");
            part.append(self.entries[i].1.as_str());
            proof {
                reveal_strlit("=");
                assert("="@ =~= seq!['=']);
            }
            assert(part@ =~= entry_text(self@[i as int]));
            parts.push(part);
        }
        let r = join_texts(&parts, "&");
        proof {
            reveal_strlit("&");
            assert("&"@ =~= seq!['&']);
            assert(crate::text::texts(parts@) =~= self@.map_values(|e: QueryEntry| entry_text(e)));
        }
        r
    }
}

/// Setting a key in distinct entries keeps them distinct, and the map they
/// stand for gains exactly that key and value.
pub proof fn lemma_insert_entry_is_map_insert(es: Seq<QueryEntry>, key: Seq<char>, value: Seq<char>)
    requires
        distinct_keys(es),
    ensures
        distinct_keys(insert_entry(es, key, value)),
        entries_map(insert_entry(es, key, value)) == entries_map(es).insert(key, value),
{
    let r = insert_entry(es, key, value);
    if has_key(es, key) {
        let k = key_index(es, key);
        assert forall|x: Seq<char>| has_key(r, x) == (has_key(es, x) || x == key) by {
            if has_key(es, x) {
                let j = key_index(es, x);
                assert(r[j].0 == x);
            }
            if has_key(r, x) {
                let j = key_index(r, x);
                if j != k {
                    assert(es[j].0 == x);
                }
            }
        }
        assert forall|x: Seq<char>| #[trigger] has_key(r, x) implies r[key_index(r, x)].1 == (if x
            == key {
            value
        } else {
            es[key_index(es, x)].1
        }) by {
            let j = key_index(r, x);
            if x == key {
                assert(r[k].0 == key);
            } else {
                let j2 = key_index(es, x);
                assert(r[j2].0 == x);
                assert(j == j2);
            }
        }
    } else {
        assert forall|x: Seq<char>| has_key(r, x) == (has_key(es, x) || x == key) by {
            if has_key(es, x) {
                let j = key_index(es, x);
                assert(r[j].0 == x);
            }
            if x == key {
                assert(r[es.len() as int].0 == x);
            }
        }
        assert forall|x: Seq<char>| #[trigger] has_key(r, x) implies r[key_index(r, x)].1 == (if x
            == key {
            value
        } else {
            es[key_index(es, x)].1
        }) by {
            let j = key_index(r, x);
            if x == key {
                assert(r[es.len() as int].0 == key);
            } else {
                let j2 = key_index(es, x);
                assert(r[j2].0 == x);
            }
        }
    }
    assert(entries_map(r) =~= entries_map(es).insert(key, value));
}

/// The query entries of a request: those given, then `login` and `api_key`
/// set to the client's credentials.
pub open spec fn credential_entries(es: Seq<QueryEntry>, username: Seq<char>, api_key: Seq<char>) -> Seq<
    QueryEntry,
> {
    insert_entry(insert_entry(es, "login"@, username), "api_key"@, api_key)
}

/// The query of a tag search for the first matching post.
pub open spec fn first_post_query(tag: Seq<char>) -> Seq<QueryEntry> {
    seq![("limit"@, "1"@), ("tags"@, tag)]
}

/// The query of a tag search.
pub open spec fn tag_query(tag: Seq<char>) -> Seq<QueryEntry> {
    seq![("tags"@, tag)]
}

/// The query entries that a request carries.
pub open spec fn given_entries(query: Option<QueryParams>) -> Seq<QueryEntry> {
    match query {
        Some(q) => q@,
        None => Seq::empty(),
    }
}

/// A client of the Danbooru API, authenticated by a user name and an API key.
#[derive(Debug, Clone)]
pub struct BooruClient {
    pub endpoint: String,
    pub username: String,
    pub api_key: String,
}

impl BooruClient {
    /// The URL of a request for `path` with query entries `query`.
    pub open spec fn request_url(&self, path: Seq<char>, query: Seq<QueryEntry>) -> Seq<char> {
        self.endpoint@ + seq!['/'] + path + seq!['?'] + query_text(
            credential_entries(query, self.username@, self.api_key@),
        )
    }

    /// A client of the public Danbooru site with the given credentials.
    pub fn new(username: String, api_key: String) -> (r: Self)
        ensures
            r.endpoint@ == DANBOORU_ORIGIN@,
            r.username == username,
            r.api_key == api_key,
    {
        BooruClient { endpoint: DANBOORU_ORIGIN.to_owned(), username, api_key }
    }

    /// The URL that a GET of `path` with `query` goes to: the endpoint, `/`,
    /// the path, and the query string, which always holds the credentials.
    pub fn get_url(&self, path: &str, query: Option<QueryParams>) -> (r: String)
        ensures
            r@ == self.request_url(path@, given_entries(query)),
    {
        let mut query = match query {
            Some(query) => query,
            None => QueryParams::new(),
        };
        query.insert("login".to_owned(), self.username.clone());
        query.insert("api_key".to_owned(), self.api_key.clone());
        let mut url = self.endpoint.clone();
        url.append("/");
        url.append(path);
        proof {
            reveal_strlit("/");
            reveal_strlit("?");
            assert("/"@ =~= seq!['/']);
            assert("?"@ =~= seq!['?']);
        }
        if !query.is_empty() {
            url.append("?");
            let q = query.to_query_string();
            url.append(q.as_str());
        }
        url
    }

    /// The URL of a search for the newest post with `tag`.
    pub fn first_post_url(&self, tag: &str) -> (r: String)
        ensures
            r@ == self.request_url(POSTS_PATH@, first_post_query(tag@)),
    {
        let mut query = QueryParams::new();
        query.insert("limit".to_owned(), "1".to_owned());
        query.insert("tags".to_owned(), tag.to_owned());
        assert(query@ =~= first_post_query(tag@)) by {
            reveal_strlit("limit");
            reveal_strlit("tags");
            assert(!has_key(seq![("limit"@, "1"@)], "tags"@)) by {
                if has_key(seq![("limit"@, "1"@)], "tags"@) {
                    assert("limit"@[0] != "tags"@[0]);
                }
            }
        }
        self.get_url(POSTS_PATH, Some(query))
    }

    /// The URL of a request for one random post with `tag`.
    pub fn random_post_url(&self, tag: &str) -> (r: String)
        ensures
            r@ == self.request_url(RANDOM_POST_PATH@, tag_query(tag@)),
    {
        let mut query = QueryParams::new();
        query.insert("tags".to_owned(), tag.to_owned());
        assert(query@ =~= tag_query(tag@));
        self.get_url(RANDOM_POST_PATH, Some(query))
    }
}

/// The RFC 3339 text that chrono writes for the UTC instant `secs` seconds and
/// `nanos` nanoseconds after the Unix epoch.
pub uninterp spec fn rfc3339_text(secs: i64, nanos: u32) -> Seq<char>;

/// An instant in UTC: seconds since the Unix epoch and the nanoseconds of the
/// current second (at or above one billion only inside a leap second).
#[derive(Debug, Clone, Copy, PartialEq, Eq)]
pub struct Timestamp {
    pub secs: i64,
    pub nanos: u32,
}

/// The instants that chrono's `DateTime::<Utc>::from_timestamp` accepts: the
/// seconds lie between the first second of year -262143 and the last second of
/// year 262142, and the nanoseconds are below one second, or below two seconds
/// in the last second of a minute (a leap second).
pub open spec fn timestamp_in_range(t: Timestamp) -> bool {
    &&& -8_334_601_228_800 <= t.secs <= 8_210_266_876_799
    &&& (t.nanos < 1_000_000_000 || (t.nanos < 2_000_000_000 && t.secs % 60 == 59))
}

impl Timestamp {
    /// chrono's `DateTime::<Utc>::from_timestamp` followed by `to_rfc3339`.
    /// Claimed: chrono accepts the instant exactly where it is
    /// `timestamp_in_range` (else `None`), and the text is then `rfc3339_text`
    /// of the two numbers.
    #[verifier::external_body]
    pub(crate) fn to_rfc3339(&self) -> (r: Option<String>)
        ensures
            r matches Some(text) ==> text@ == rfc3339_text(self.secs, self.nanos),
            r is Some <==> timestamp_in_range(*self),
    {
        match chrono::DateTime::<chrono::Utc>::from_timestamp(self.secs, self.nanos) {
            Some(t) => Some(t.to_rfc3339()),
            None => None,
        }
    }
}

/// A post as the Danbooru API describes it.
#[derive(Debug, Clone)]
pub struct Post {
    pub id: i64,
    pub created_at: Timestamp,
    pub uploader_id: i64,
    pub score: i32,
    pub source: Option<String>,
    pub md5: String,
    pub last_comment_bumped_at: Option<Timestamp>,
    pub rating: String,
    pub image_width: i64,
    pub image_height: i64,
    pub tag_string: String,
    pub fav_count: i64,
    pub file_ext: String,
    pub last_noted_at: Option<Timestamp>,
    pub parent_id: Option<i64>,
    pub has_children: bool,
    pub approver_id: Option<i64>,
    pub tag_count_general: i64,
    pub tag_count_artist: i64,
    pub tag_count_character: i64,
    pub tag_count_copyright: i64,
    pub file_size: u64,
    pub up_score: i64,
    pub down_score: i64,
    pub is_pending: bool,
    pub is_flagged: bool,
    pub is_deleted: bool,
    pub tag_count: i64,
    pub updated_at: Option<Timestamp>,
    pub is_banned: bool,
    pub pixiv_id: Option<u64>,
    pub last_commented_at: Option<Timestamp>,
    pub has_active_children: bool,
    pub bit_flags: i64,
    pub tag_count_meta: i64,
    pub has_large: bool,
    pub has_visible_children: bool,
    pub tag_string_general: String,
    pub tag_string_character: String,
    pub tag_string_copyright: String,
    pub tag_string_artist: String,
    pub tag_string_meta: String,
    pub file_url: String,
    pub large_file_url: Option<String>,
    pub preview_file_url: Option<String>,
}

/// The first post of a search answer, which must hold one.
pub fn first_post(posts: Vec<Post>) -> (r: Post)
    requires
        posts.len() > 0,
    ensures
        r == posts[0],
{
    let mut posts = posts;
    posts.swap_remove(0)
}

/// Every request carries the credentials: its query holds `login` set to the
/// user name and `api_key` set to the API key, keeps every other parameter it
/// was given with its value, and names no key twice.
pub proof fn lemma_request_query_carries_credentials(
    es: Seq<QueryEntry>,
    username: Seq<char>,
    api_key: Seq<char>,
)
    requires
        distinct_keys(es),
    ensures
        distinct_keys(credential_entries(es, username, api_key)),
        entries_map(credential_entries(es, username, api_key)) == entries_map(es).insert(
            "login"@,
            username,
        ).insert("api_key"@, api_key),
        entries_map(credential_entries(es, username, api_key))["login"@] == username,
        entries_map(credential_entries(es, username, api_key))["api_key"@] == api_key,
{
    let once = insert_entry(es, "login"@, username);
    lemma_insert_entry_is_map_insert(es, "login"@, username);
    lemma_insert_entry_is_map_insert(once, "api_key"@, api_key);
    reveal_strlit("login");
    reveal_strlit("api_key");
    assert("login"@ != "api_key"@) by {
        assert("login"@.len() != "api_key"@.len());
    }
}

proof fn lemma_not_a_key(es: Seq<QueryEntry>, key: Seq<char>)
    requires
        forall|i: int| 0 <= i < es.len() ==> es[i].0 != key,
    ensures
        !has_key(es, key),
{
}

/// The query entries of a search for `tag` with credentials `username` and
/// `api_key`: the search's entries, then `login` and `api_key`, in this order.
proof fn lemma_search_entries(
    search: Seq<QueryEntry>,
    username: Seq<char>,
    api_key: Seq<char>,
)
    requires
        forall|i: int| 0 <= i < search.len() ==> search[i].0 != "login"@ && search[i].0 != "api_key"@,
    ensures
        credential_entries(search, username, api_key) == search + seq![
            ("login"@, username),
            ("api_key"@, api_key),
        ],
{
    reveal_strlit("login");
    reveal_strlit("api_key");
    lemma_not_a_key(search, "login"@);
    let once = search.push(("login"@, username));
    assert forall|i: int| 0 <= i < once.len() implies once[i].0 != "api_key"@ by {
        if i == search.len() {
            assert("login"@.len() != "api_key"@.len());
        }
    }
    lemma_not_a_key(once, "api_key"@);
    assert(credential_entries(search, username, api_key) =~= search + seq![
        ("login"@, username),
        ("api_key"@, api_key),
    ]);
}

/// A random-post request for `tag` searches exactly `tag`, unchanged, and
/// carries the credentials: its URL is the endpoint, then
/// "/posts/random.json?tags=", the tag, "&login=", the user name, "&api_key="
/// and the API key; in the query, `tags` is the tag.
pub proof fn lemma_random_post_url_searches_the_tag(client: BooruClient, tag: Seq<char>)
    ensures
        client.request_url(RANDOM_POST_PATH@, tag_query(tag)) == client.endpoint@
            + "/posts/random.json?tags="@ + tag + "&login="@ + client.username@ + "&api_key="@
            + client.api_key@,
        entries_map(credential_entries(tag_query(tag), client.username@, client.api_key@))["tags"@]
            == tag,
{
    reveal_strlit("tags");
    reveal_strlit("login");
    reveal_strlit("api_key");
    reveal_strlit("posts/random.json");
    reveal_strlit("/posts/random.json?tags=");
    reveal_strlit("&login=");
    reveal_strlit("&api_key=");
    let u = client.username@;
    let k = client.api_key@;
    let search = seq![("tags"@, tag)];
    assert(tag_query(tag) == search);
    assert("tags"@ != "login"@ && "tags"@ != "api_key"@) by {
        assert("tags"@[0] != "login"@[0]);
        assert("tags"@[0] != "api_key"@[0]);
    }
    lemma_search_entries(search, u, k);
    let es = search + seq![("login"@, u), ("api_key"@, k)];
    let texts = es.map_values(|e: QueryEntry| entry_text(e));
    assert(texts.drop_last().drop_last() =~= seq![entry_text(es[0])]);
    assert(texts.drop_last() =~= seq![entry_text(es[0]), entry_text(es[1])]);
    assert(join(texts, seq!['&']) == entry_text(es[0]) + seq!['&'] + entry_text(es[1]) + seq!['&']
        + entry_text(es[2])) by {
        reveal_with_fuel(join, 3);
    }
    assert(client.request_url(RANDOM_POST_PATH@, tag_query(tag)) =~= client.endpoint@
        + "/posts/random.json?tags="@ + tag + "&login="@ + u + "&api_key="@ + k);
    assert(has_key(es, "tags"@) && es[0].0 == "tags"@);
    assert(key_index(es, "tags"@) == 0) by {
        let j = key_index(es, "tags"@);
        if j == 1 {
            assert(es[1].0 == "login"@);
        }
        if j == 2 {
            assert(es[2].0 == "api_key"@);
        }
    }
}

/// A request for the newest post with `tag` asks for one post and searches
/// exactly `tag`, unchanged, with the credentials: its URL is the endpoint,
/// then "/posts.json?limit=1&tags=", the tag, "&login=", the user name,
/// "&api_key=" and the API key.
pub proof fn lemma_first_post_url_searches_the_tag(client: BooruClient, tag: Seq<char>)
    ensures
        client.request_url(POSTS_PATH@, first_post_query(tag)) == client.endpoint@
            + "/posts.json?limit=1&tags="@ + tag + "&login="@ + client.username@ + "&api_key="@
            + client.api_key@,
{
    reveal_strlit("limit");
    reveal_strlit("1");
    reveal_strlit("tags");
    reveal_strlit("login");
    reveal_strlit("api_key");
    reveal_strlit("posts.json");
    reveal_strlit("/posts.json?limit=1&tags=");
    reveal_strlit("&login=");
    reveal_strlit("&api_key=");
    let u = client.username@;
    let k = client.api_key@;
    let search = seq![("limit"@, "1"@), ("tags"@, tag)];
    assert(first_post_query(tag) == search);
    assert("tags"@ != "login"@ && "tags"@ != "api_key"@ && "limit"@ != "login"@ && "limit"@
        != "api_key"@) by {
        assert("tags"@[0] != "login"@[0]);
        assert("tags"@[0] != "api_key"@[0]);
        assert("limit"@[1] != "login"@[1]);
        assert("limit"@[0] != "api_key"@[0]);
    }
    lemma_search_entries(search, u, k);
    let es = search + seq![("login"@, u), ("api_key"@, k)];
    let texts = es.map_values(|e: QueryEntry| entry_text(e));
    assert(texts.drop_last().drop_last().drop_last() =~= seq![entry_text(es[0])]);
    assert(texts.drop_last().drop_last() =~= seq![entry_text(es[0]), entry_text(es[1])]);
    assert(texts.drop_last() =~= seq![entry_text(es[0]), entry_text(es[1]), entry_text(es[2])]);
    assert(join(texts, seq!['&']) == entry_text(es[0]) + seq!['&'] + entry_text(es[1]) + seq!['&']
        + entry_text(es[2]) + seq!['&'] + entry_text(es[3])) by {
        reveal_with_fuel(join, 4);
    }
    assert(client.request_url(POSTS_PATH@, first_post_query(tag)) =~= client.endpoint@
        + "/posts.json?limit=1&tags="@ + tag + "&login="@ + u + "&api_key="@ + k);
}

} // verus!
