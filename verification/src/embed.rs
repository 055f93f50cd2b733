//! The Discord embeds that show a post: its tags as search links, its general
//! tags as a code block, its image, and a button to its page.

use convert_case::{Case, Casing};
use vstd::prelude::*;

use crate::client::{rfc3339_text, timestamp_in_range, Post};
use crate::text::{
    join, join_texts, replace_char, replace_chars, lemma_signed_decimal_injective, lemma_join_contains_every_part, lemma_signed_decimal_reads_back, occurs_at, stands_in, is_integer_text, integer_value, signed_decimal, signed_decimal_text,
    split_words, texts, words,
};

verus! {

/// What a tag link points to, before the tag itself.
pub const TAG_SEARCH_PREFIX: &'static str = "https://danbooru.donmai.us/posts?tags=";

/// A post's page, before the post's id.
pub const POST_PAGE_PREFIX: &'static str = "https://danbooru.donmai.us/posts/";

/// What a field shows when the post has no tags of its kind.
pub const UNKNOWN_TAGS: &'static str = "Unknown";

/// The title of every embed.
pub const EMBED_TITLE: &'static str = "щ（゜ロ゜щ）";

/// The colour of every embed (Discord's dark purple).
pub const EMBED_COLOR: u32 = 0x71368A;

/// The label of the button under an embed.
pub const BUTTON_LABEL: &'static str = "View on Danbooru";

/// What stands between two tags in a list.
pub const TAG_SEPARATOR: &'static str = ", ";

/// The text that convert_case gives for `s` in title case.
pub uninterp spec fn title_case(s: Seq<char>) -> Seq<char>;

/// convert_case's `Casing::to_case` with `Case::Title`.
/// Claimed: the result is `title_case` of the argument; nothing more is said
/// of how convert_case splits and capitalises words.
#[verifier::external_body]
fn to_title_case(s: &str) -> (r: String)
    ensures
        r@ == title_case(s@),
{
    s.to_case(Case::Title)
}

/// A Markdown link to the search for `tag`, labelled with the tag in title
/// case, underscores read as spaces.
pub open spec fn tag_link(tag: Seq<char>) -> Seq<char> {
    labelled_tag_link(title_case(replace_char(tag, '_', ' ')), tag)
}

/// The tags of `s` (separated by whitespace) as links, joined by `, `;
/// `Unknown` for an empty `s`.
pub open spec fn separated_tags(s: Seq<char>) -> Seq<char> {
    if s.len() == 0 {
        UNKNOWN_TAGS@
    } else {
        join(words(s).map_values(|w: Seq<char>| tag_link(w)), TAG_SEPARATOR@)
    }
}

/// The page of the post with `id`.
pub open spec fn post_page_url(id: i64) -> Seq<char> {
    POST_PAGE_PREFIX@ + signed_decimal(id as int)
}

/// The general tags, joined by `, ` inside a code block.
pub open spec fn general_tags_block(general: Seq<char>) -> Seq<char> {
    "```\n"@ + join(words(general), TAG_SEPARATOR@) + "\n```"@
}

/// A Markdown link labelled `label` to the search for `tag`.
pub open spec fn labelled_tag_link(label: Seq<char>, tag: Seq<char>) -> Seq<char> {
    "["@ + label + "]("@ + TAG_SEARCH_PREFIX@ + tag + ")"@
}

/// The Markdown link labelled `label` to the search for `tag`.
pub fn format_tag_link(label: &str, tag: &str) -> (r: String)
    ensures
        r@ == labelled_tag_link(label@, tag@),
{
    let mut r = String::new();
    r.append("[");
    r.append(label);
    r.append("](");
    r.append(TAG_SEARCH_PREFIX);
    r.append(tag);
    r.append(")");
    assert(r@ =~= labelled_tag_link(label@, tag@));
    r
}

/// The link for one tag.
pub fn tag_link_text(tag: &str) -> (r: String)
    ensures
        r@ == tag_link(tag@),
{
    let spaced = replace_chars(tag, '_', ' ');
    let label = to_title_case(spaced.as_str());
    format_tag_link(label.as_str(), tag)
}

/// The tags of `s` as links joined by `, `, or `Unknown` where `s` is empty.
pub fn to_separate(s: String) -> (r: String)
    ensures
        r@ == separated_tags(s@),
{
    if s.as_str().is_empty() {
        return UNKNOWN_TAGS.to_owned();
    }
    let tags = split_words(s.as_str());
    let ghost ws = words(s@);
    let mut links: Vec<String> = Vec::new();
    let n = tags.len();
    for i in 0..n
        invariant
            n == tags@.len(),
            texts(tags@) == ws,
            texts(links@) == ws.take(i as int).map_values(|w: Seq<char>| tag_link(w)),
    {
        let link = tag_link_text(tags[i].as_str());
        let ghost before = links@;
        let ghost link_view = link@;
        links.push(link);
        assert(ws[i as int] == tags@[i as int]@);
        assert(texts(links@) =~= texts(before).push(link_view));
        assert(ws.take(i + 1) =~= ws.take(i as int).push(ws[i as int]));
        assert(texts(links@) =~= ws.take(i + 1).map_values(|w: Seq<char>| tag_link(w)));
    }
    assert(ws.take(n as int) =~= ws);
    join_texts(&links, TAG_SEPARATOR)
}

/// The page of the post with `id`.
pub fn post_page_link(id: i64) -> (r: String)
    ensures
        r@ == post_page_url(id),
{
    let digits = signed_decimal_text(id);
    let mut r = POST_PAGE_PREFIX.to_owned();
    r.append(digits.as_str());
    r
}

/// The general tags as a code block.
pub fn general_tags_text(general: &str) -> (r: String)
    ensures
        r@ == general_tags_block(general@),
{
    let tags = split_words(general);
    let joined = join_texts(&tags, TAG_SEPARATOR);
    let mut r = "```\n".to_owned();
    r.append(joined.as_str());
    r.append("\n```");
    r
}

/// A named field of an embed.
#[derive(Debug, Clone)]
pub struct Field {
    pub name: String,
    pub value: String,
    pub inline: bool,
}

/// `f` is the field with this name, value and placement.
pub open spec fn field_is(f: Field, name: Seq<char>, value: Seq<char>, inline: bool) -> bool {
    f.name@ == name && f.value@ == value && f.inline == inline
}

/// An embed that shows a post, with a link button under it.
#[derive(Debug)]
pub struct PostEmbed {
    pub title: String,
    pub description: Option<String>,
    pub color: u32,
    pub image_url: String,
    pub fields: Vec<Field>,
    pub timestamp: Option<String>,
    pub button_label: String,
    pub button_url: String,
}

/// The artist, copyright and character fields of `post`.
pub fn tag_fields(post: &Post) -> (r: Vec<Field>)
    ensures
        r@.len() == 3,
        field_is(r@[0], "Artist"@, separated_tags(post.tag_string_artist@), true),
        field_is(r@[1], "Copyright"@, separated_tags(post.tag_string_copyright@), true),
        field_is(r@[2], "Character"@, separated_tags(post.tag_string_character@), false),
{
    let mut r: Vec<Field> = Vec::new();
    r.push(
        Field {
            name: "Artist".to_owned(),
            value: to_separate(post.tag_string_artist.clone()),
            inline: true,
        },
    );
    r.push(
        Field {
            name: "Copyright".to_owned(),
            value: to_separate(post.tag_string_copyright.clone()),
            inline: true,
        },
    );
    r.push(
        Field {
            name: "Character".to_owned(),
            value: to_separate(post.tag_string_character.clone()),
            inline: false,
        },
    );
    r
}

/// The embed that a registered channel receives for `post`: title, general
/// tags, colour, image, the three tag fields, the creation time, and a button
/// to the post's page.
pub fn hook_embed(post: &Post) -> (r: PostEmbed)
    ensures
        r.title@ == EMBED_TITLE@,
        r.description matches Some(d) && d@ == general_tags_block(post.tag_string_general@),
        r.color == EMBED_COLOR,
        r.image_url@ == post.file_url@,
        r.fields@.len() == 3,
        field_is(r.fields@[0], "Artist"@, separated_tags(post.tag_string_artist@), true),
        field_is(r.fields@[1], "Copyright"@, separated_tags(post.tag_string_copyright@), true),
        field_is(r.fields@[2], "Character"@, separated_tags(post.tag_string_character@), false),
        r.timestamp matches Some(t) ==> t@ == rfc3339_text(post.created_at.secs, post.created_at.nanos),
        r.timestamp is Some <==> timestamp_in_range(post.created_at),
        r.button_label@ == BUTTON_LABEL@,
        r.button_url@ == post_page_url(post.id),
{
    PostEmbed {
        title: EMBED_TITLE.to_owned(),
        description: Some(general_tags_text(post.tag_string_general.as_str())),
        color: EMBED_COLOR,
        image_url: post.file_url.clone(),
        fields: tag_fields(post),
        timestamp: post.created_at.to_rfc3339(),
        button_label: BUTTON_LABEL.to_owned(),
        button_url: post_page_link(post.id),
    }
}

/// The embed that answers the image command: title, colour, image, and a
/// button to the post's page.
pub fn image_embed(post: &Post) -> (r: PostEmbed)
    ensures
        r.title@ == EMBED_TITLE@,
        r.description is None,
        r.color == EMBED_COLOR,
        r.image_url@ == post.file_url@,
        r.fields@.len() == 0,
        r.timestamp is None,
        r.button_label@ == BUTTON_LABEL@,
        r.button_url@ == post_page_url(post.id),
{
    PostEmbed {
        title: EMBED_TITLE.to_owned(),
        description: None,
        color: EMBED_COLOR,
        image_url: post.file_url.clone(),
        fields: Vec::new(),
        timestamp: None,
        button_label: BUTTON_LABEL.to_owned(),
        button_url: post_page_link(post.id),
    }
}

/// Distinct posts have distinct page URLs.
pub proof fn lemma_post_page_urls_differ(a: i64, b: i64)
    requires
        a != b,
    ensures
        post_page_url(a) != post_page_url(b),
{
    lemma_signed_decimal_injective(a as int, b as int);
    let n = POST_PAGE_PREFIX@.len() as int;
    if post_page_url(a) == post_page_url(b) {
        assert(post_page_url(a).skip(n) =~= signed_decimal(a as int));
        assert(post_page_url(b).skip(n) =~= signed_decimal(b as int));
    }
}

/// The link of a tag, written out: labelled with the tag in title case,
/// underscores read as spaces, and pointing to the search for the tag.
pub open spec fn written_tag_link(w: Seq<char>) -> Seq<char> {
    "["@ + title_case(replace_char(w, '_', ' ')) + "](https://danbooru.donmai.us/posts?tags="@ + w
        + ")"@
}

/// The tag field of a post links every tag of its tag string, in order: for
/// a non-empty `s` it is the link of each word of `s` joined by ", ", so
/// every tag's link stands in it; an empty `s` gives "Unknown".
pub proof fn lemma_separated_tags_link_every_tag(s: Seq<char>)
    ensures
        s.len() == 0 ==> separated_tags(s) == "Unknown"@,
        s.len() > 0 ==> separated_tags(s) == join(
            words(s).map_values(|w: Seq<char>| written_tag_link(w)),
            ", "@,
        ),
        s.len() > 0 ==> forall|i: int|
            0 <= i < words(s).len() ==> stands_in(
                written_tag_link(#[trigger] words(s)[i]),
                separated_tags(s),
            ),
{
    reveal_strlit("](");
    reveal_strlit("](https://danbooru.donmai.us/posts?tags=");
    reveal_strlit("https://danbooru.donmai.us/posts?tags=");
    let links = words(s).map_values(|w: Seq<char>| written_tag_link(w));
    assert forall|w: Seq<char>| tag_link(w) == written_tag_link(w) by {
        assert("]("@ + TAG_SEARCH_PREFIX@ =~= "](https://danbooru.donmai.us/posts?tags="@);
        assert(tag_link(w) =~= written_tag_link(w));
    }
    assert(words(s).map_values(|w: Seq<char>| tag_link(w)) =~= links);
    if s.len() > 0 {
        assert forall|i: int| 0 <= i < words(s).len() implies stands_in(
            written_tag_link(#[trigger] words(s)[i]),
            separated_tags(s),
        ) by {
            lemma_join_contains_every_part(links, ", "@, i);
        }
    }
}

/// The description of a hook's embed lists every general tag: it is the words
/// of `general`, in order, joined by ", " between "```\n" and "\n```", so
/// every general tag stands in it.
pub proof fn lemma_general_tags_block_lists_every_tag(general: Seq<char>)
    ensures
        general_tags_block(general) == "```\n"@ + join(words(general), ", "@) + "\n```"@,
        forall|i: int|
            0 <= i < words(general).len() ==> stands_in(
                #[trigger] words(general)[i],
                general_tags_block(general),
            ),
{
    reveal_strlit("```\n");
    let body = join(words(general), ", "@);
    let block = general_tags_block(general);
    assert forall|i: int| 0 <= i < words(general).len() implies stands_in(
        #[trigger] words(general)[i],
        general_tags_block(general),
    ) by {
        lemma_join_contains_every_part(words(general), ", "@, i);
        let k = choose|k: int| occurs_at(words(general)[i], body, k);
        let w = words(general)[i];
        assert(block.subrange(k + 4, k + 4 + w.len()) =~= body.subrange(k, k + w.len()));
        assert(occurs_at(w, block, k + 4));
    }
}

/// A post's page URL is "https://danbooru.donmai.us/posts/" followed by the
/// post's id in decimal and nothing else: the rest of the URL is an integer
/// text that reads back as the id.
pub proof fn lemma_post_page_url_ends_with_id(id: i64)
    ensures
        ({
            let n = "https://danbooru.donmai.us/posts/"@.len() as int;
            let url = post_page_url(id);
            &&& url.len() > n
            &&& url.take(n) == "https://danbooru.donmai.us/posts/"@
            &&& is_integer_text(url.skip(n))
            &&& integer_value(url.skip(n)) == id
        }),
{
    let n = "https://danbooru.donmai.us/posts/"@.len() as int;
    let url = post_page_url(id);
    lemma_signed_decimal_reads_back(id as int);
    assert(url.take(n) =~= "https://danbooru.donmai.us/posts/"@);
    assert(url.skip(n) =~= signed_decimal(id as int));
}

} // verus!
