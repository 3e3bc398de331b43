//! Answering when the bot is mentioned: which messages get an answer, the
//! question asked, the cooldown, the images passed along and the prompt.
use vstd::prelude::*;
use crate::handlers::holds_id;
use crate::text::{
    chars_of, decimal, drop_char_back, has_prefix, join_chars, joined, matches_at, push_all,
    push_str, push_u64, seq_eq, skip_char, skip_pat, slice_chars, split_words, string_of,
    trim_chars, trim_end_char, trim_spec, trim_start_char, trim_start_pat, views, words,
};

verus! {

/// Seconds between two questions of a user.
pub const COOLDOWN_SECS: u64 = 300;

/// Seconds between two questions of a throttled user.
pub const SLOW_COOLDOWN_SECS: u64 = 7_200;

/// The only channel where mentions are answered.
pub const ASK_TUGBOT_CHANNEL_ID: u64 = 1515343076401479790;

// ---------------------------------------------------------------------------
// URLs
// ---------------------------------------------------------------------------

/// The URL uses the http or https scheme.
pub open spec fn is_safe_url_spec(url: Seq<char>) -> bool {
    has_prefix(url, "http://"@) || has_prefix(url, "https://"@)
}

/// Whether a URL uses the http or https scheme.
pub fn is_safe_url(url: &str) -> (b: bool)
    ensures
        b == is_safe_url_spec(url@),
{
    let u = chars_of(url);
    let a = chars_of("http://");
    let b = chars_of("https://");
    let ra = matches_at(&u, &a, 0);
    let rb = matches_at(&u, &b, 0);
    proof {
        if a@.len() <= u@.len() {
            assert(u@.subrange(0, a@.len() as int) =~= u@.take(a@.len() as int));
        }
        if b@.len() <= u@.len() {
            assert(u@.subrange(0, b@.len() as int) =~= u@.take(b@.len() as int));
        }
    }
    ra || rb
}

/// Where the query string or fragment starts: the first `?` or `#`, else the end.
pub open spec fn query_start(s: Seq<char>) -> int
    decreases s.len(),
{
    if s.len() == 0 {
        0
    } else if s[0] == '?' || s[0] == '#' {
        0
    } else {
        1 + query_start(s.drop_first())
    }
}

/// Where the last path segment starts: just after the last `/`, else 0.
pub open spec fn segment_start(p: Seq<char>) -> int
    decreases p.len(),
{
    if p.len() == 0 {
        0
    } else if p.last() == '/' {
        p.len() as int
    } else {
        segment_start(p.drop_last())
    }
}

/// The last segment starts within the path, before its end unless the path ends in `/`.
pub proof fn lemma_segment_start_bounds(p: Seq<char>)
    ensures
        0 <= segment_start(p) <= p.len(),
        p.len() > 0 && p.last() != '/' ==> segment_start(p) < p.len(),
    decreases p.len(),
{
    if p.len() > 0 {
        lemma_segment_start_bounds(p.drop_last());
    }
}

/// The file name of a path (`Path::file_name`): its last component, ignoring
/// trailing slashes and `.` components; none when that component is `..` or
/// there is none.
pub open spec fn file_name_spec(p: Seq<char>) -> Option<Seq<char>>
    decreases p.len(),
{
    if p.len() == 0 {
        None
    } else if p.last() == '/' {
        file_name_spec(p.drop_last())
    } else {
        let k = segment_start(p);
        let seg = p.skip(k);
        if seg == "."@ {
            proof {
                lemma_segment_start_bounds(p);
            }
            file_name_spec(p.take(k))
        } else if seg == ".."@ {
            None
        } else {
            Some(seg)
        }
    }
}

/// The index of the last `.` of `name`, or -1.
pub open spec fn last_dot(name: Seq<char>) -> int
    decreases name.len(),
{
    if name.len() == 0 {
        -1
    } else if name.last() == '.' {
        name.len() - 1
    } else {
        last_dot(name.drop_last())
    }
}

/// The extension of a file name (`Path::extension`): what follows its last `.`,
/// when that `.` is not the first character.
pub open spec fn extension_spec(name: Seq<char>) -> Option<Seq<char>> {
    let k = last_dot(name);
    if k <= 0 {
        None
    } else {
        Some(name.skip(k + 1))
    }
}

/// The image type named by a URL's extension, ignoring its query string and
/// fragment; `image/jpeg` when the extension says nothing.
pub open spec fn mime_spec(url: Seq<char>) -> Seq<char> {
    let path = url.take(query_start(url));
    match file_name_spec(path) {
        Some(name) => match extension_spec(name) {
            Some(ext) => if ext == "png"@ {
                "image/png"@
            } else if ext == "gif"@ {
                "image/gif"@
            } else if ext == "webp"@ {
                "image/webp"@
            } else {
                "image/jpeg"@
            },
            None => "image/jpeg"@,
        },
        None => "image/jpeg"@,
    }
}

/// Where the query string or fragment of `v` starts.
fn find_query_start(v: &Vec<char>) -> (k: usize)
    ensures
        k == query_start(v@),
        k <= v.len(),
{
    let mut i: usize = 0;
    assert(v@.skip(0) =~= v@);
    while i < v.len() && v[i] != '?' && v[i] != '#'
        invariant
            i <= v.len(),
            query_start(v@) == i + query_start(v@.skip(i as int)),
        decreases v.len() - i,
    {
        assert(v@.skip(i as int).drop_first() =~= v@.skip(i + 1));
        i += 1;
    }
    i
}

/// Where the last segment of `v[..end]` starts.
fn find_segment_start(v: &Vec<char>, end: usize) -> (k: usize)
    requires
        end <= v.len(),
    ensures
        k == segment_start(v@.take(end as int)),
        k <= end,
{
    let mut j: usize = end;
    while j > 0 && v[j - 1] != '/'
        invariant
            j <= end <= v.len(),
            segment_start(v@.take(end as int)) == segment_start(v@.take(j as int)),
        decreases j,
    {
        assert(v@.take(j as int).drop_last() =~= v@.take(j - 1));
        j -= 1;
    }
    j
}

/// The file name of the path `v`, as the bounds of its slice.
fn find_file_name(v: &Vec<char>) -> (r: Option<(usize, usize)>)
    ensures
        match r {
            Some((a, b)) => a <= b <= v.len() && file_name_spec(v@) == Some(v@.subrange(
                a as int,
                b as int,
            )),
            None => file_name_spec(v@) is None,
        },
{
    let mut end: usize = v.len();
    assert(v@.take(end as int) =~= v@);
    loop
        invariant
            end <= v.len(),
            file_name_spec(v@) == file_name_spec(v@.take(end as int)),
        decreases end,
    {
        if end == 0 {
            return None;
        }
        if v[end - 1] == '/' {
            assert(v@.take(end as int).drop_last() =~= v@.take(end - 1));
            end -= 1;
        } else {
            let k = find_segment_start(v, end);
            let ghost p = v@.take(end as int);
            assert(p.skip(k as int) =~= v@.subrange(k as int, end as int));
            let len = end - k;
            if len == 1 && v[k] == '.' {
                proof {
                    reveal_strlit(".");
                    assert(p.skip(k as int) =~= "."@);
                    assert(p.take(k as int) =~= v@.take(k as int));
                }
                end = k;
            } else if len == 2 && v[k] == '.' && v[k + 1] == '.' {
                proof {
                    reveal_strlit("..");
                    reveal_strlit(".");
                    assert(p.skip(k as int) =~= ".."@);
                }
                return None;
            } else {
                proof {
                    reveal_strlit("..");
                    reveal_strlit(".");
                    if p.skip(k as int) == "."@ {
                        assert(p.skip(k as int)[0] == v@[k as int]);
                    }
                    if p.skip(k as int) == ".."@ {
                        assert(p.skip(k as int)[0] == v@[k as int]);
                        assert(p.skip(k as int)[1] == v@[k + 1]);
                    }
                }
                return Some((k, end));
            }
        }
    }
}

/// The index of the last `.` of `v`, if any.
fn find_last_dot(v: &Vec<char>) -> (r: Option<usize>)
    ensures
        match r {
            Some(k) => k < v.len() && k == last_dot(v@),
            None => last_dot(v@) == -1,
        },
{
    let mut j: usize = v.len();
    assert(v@.take(j as int) =~= v@);
    while j > 0
        invariant
            j <= v.len(),
            last_dot(v@) == last_dot(v@.take(j as int)),
        decreases j,
    {
        if v[j - 1] == '.' {
            return Some(j - 1);
        }
        assert(v@.take(j as int).drop_last() =~= v@.take(j - 1));
        j -= 1;
    }
    None
}

/// Whether `v` spells the literal `lit`.
fn spells(v: &Vec<char>, lit: &str) -> (b: bool)
    ensures
        b == (v@ == lit@),
{
    let l = chars_of(lit);
    seq_eq(v, &l)
}

/// The image type of a URL by its extension, ignoring the query string and
/// fragment; `image/jpeg` by default.
pub fn mime_for_url(url: &str) -> (m: &'static str)
    ensures
        m@ == mime_spec(url@),
{
    let u = chars_of(url);
    let q = find_query_start(&u);
    let path = slice_chars(&u, 0, q);
    assert(path@ =~= u@.take(query_start(u@)));
    match find_file_name(&path) {
        None => "image/jpeg",
        Some((a, b)) => {
            let name = slice_chars(&path, a, b);
            match find_last_dot(&name) {
                None => "image/jpeg",
                Some(k) => {
                    if k == 0 {
                        return "image/jpeg";
                    }
                    let ext = slice_chars(&name, k + 1, name.len());
                    assert(ext@ =~= name@.skip(k + 1));
                    if spells(&ext, "png") {
                        "image/png"
                    } else if spells(&ext, "gif") {
                        "image/gif"
                    } else if spells(&ext, "webp") {
                        "image/webp"
                    } else {
                        "image/jpeg"
                    }
                },
            }
        },
    }
}

// ---------------------------------------------------------------------------
// Cooldown text
// ---------------------------------------------------------------------------

/// A remaining wait in the largest units that fit: `Xh Ym` (or `Xh` on the hour),
/// `Xm`, or `Xs` under a minute.
pub open spec fn remaining_text(secs: nat) -> Seq<char> {
    if secs >= 3600 {
        let mins = (secs % 3600) / 60;
        if mins > 0 {
            decimal(secs / 3600) + "h "@ + decimal(mins) + "m"@
        } else {
            decimal(secs / 3600) + "h"@
        }
    } else if secs >= 60 {
        decimal(secs / 60) + "m"@
    } else {
        decimal(secs) + "s"@
    }
}

/// A remaining cooldown in human-readable units.
pub fn format_remaining(seconds: u64) -> (s: String)
    ensures
        s@ == remaining_text(seconds as nat),
{
    let mut out: Vec<char> = Vec::new();
    if seconds >= 3600 {
        let hours = seconds / 3600;
        let mins = (seconds % 3600) / 60;
        push_u64(&mut out, hours);
        if mins > 0 {
            push_str(&mut out, "h ");
            push_u64(&mut out, mins);
            push_str(&mut out, "m");
        } else {
            push_str(&mut out, "h");
        }
    } else if seconds >= 60 {
        push_u64(&mut out, seconds / 60);
        push_str(&mut out, "m");
    } else {
        push_u64(&mut out, seconds);
        push_str(&mut out, "s");
    }
    assert(out@ =~= remaining_text(seconds as nat));
    string_of(&out)
}

// ---------------------------------------------------------------------------
// Which messages are answered, and the question
// ---------------------------------------------------------------------------

pub struct Mention;

/// A message is answered when the feature is on, it mentions the bot, and it was
/// sent in a guild, in the ask channel.
pub open spec fn should_answer_spec(
    enabled: bool,
    mentioned: Seq<u64>,
    bot_id: u64,
    guild_id: Option<u64>,
    channel_id: u64,
) -> bool {
    enabled && mentioned.contains(bot_id) && guild_id is Some && channel_id == ASK_TUGBOT_CHANNEL_ID
}

/// A token once stripped of leading `<@`s and `!`s and of trailing `>`s.
pub open spec fn stripped_token(tok: Seq<char>) -> Seq<char> {
    trim_end_char(trim_start_char(trim_start_pat(tok, "<@"@), '!'), '>')
}

/// The tokens kept in the question: all but mentions of the bot.
pub open spec fn keeps_token(bot: Seq<char>) -> spec_fn(Seq<char>) -> bool {
    |t: Seq<char>| stripped_token(t) != bot
}

/// The question: the words of the message but mentions of the bot, joined by
/// single spaces and trimmed.
pub open spec fn question_text(content: Seq<char>, bot_id: u64) -> Seq<char> {
    trim_spec(joined(words(content).filter(keeps_token(decimal(bot_id as nat))), " "@))
}

/// A token stripped of leading `<@`s and `!`s and of trailing `>`s.
fn strip_token(tok: &Vec<char>) -> (r: Vec<char>)
    ensures
        r@ == stripped_token(tok@),
{
    let at = chars_of("<@");
    proof {
        reveal_strlit("<@");
    }
    assert(tok@.skip(0) =~= tok@);
    let i0 = skip_pat(tok, 0, &at);
    let i1 = skip_char(tok, i0, '!');
    let j = drop_char_back(tok, i1, tok.len(), '>');
    assert(tok@.skip(i1 as int) =~= tok@.subrange(i1 as int, tok@.len() as int));
    slice_chars(tok, i1, j)
}

impl Mention {
    /// Whether a message gets an answer.
    pub fn should_answer(
        feature_enabled: bool,
        mentioned_ids: &Vec<u64>,
        bot_id: u64,
        guild_id: Option<u64>,
        channel_id: u64,
    ) -> (b: bool)
        ensures
            b == should_answer_spec(feature_enabled, mentioned_ids@, bot_id, guild_id, channel_id),
    {
        feature_enabled && holds_id(mentioned_ids, bot_id) && guild_id.is_some() && channel_id
            == ASK_TUGBOT_CHANNEL_ID
    }

    /// The question asked: the message without the mentions of the bot, however
    /// they are written (`<@id>`, `<@!id>`).
    pub fn extract_question(content: &str, bot_id: u64) -> (q: String)
        ensures
            q@ == question_text(content@, bot_id),
    {
        let v = chars_of(content);
        let ws = split_words(&v);
        let mut bot: Vec<char> = Vec::new();
        push_u64(&mut bot, bot_id);
        assert(bot@ =~= decimal(bot_id as nat));
        let ghost pred = keeps_token(decimal(bot_id as nat));
        let ghost all = views(ws@);
        let mut kept: Vec<Vec<char>> = Vec::new();
        let mut i: usize = 0;
        assert(all.take(0) =~= Seq::<Seq<char>>::empty());
        assert(views(kept@) =~= Seq::<Seq<char>>::empty());
        while i < ws.len()
            invariant
                i <= ws.len(),
                all == views(ws@),
                pred == keeps_token(decimal(bot_id as nat)),
                bot@ == decimal(bot_id as nat),
                views(kept@) == all.take(i as int).filter(pred),
            decreases ws.len() - i,
        {
            assert(all.take(i + 1).drop_last() =~= all.take(i as int));
            assert(all.take(i + 1).last() == ws@[i as int]@);
            let stripped = strip_token(&ws[i]);
            let same = seq_eq(&stripped, &bot);
            proof {
                reveal(Seq::filter);
                let x = ws@[i as int]@;
                assert(pred(x) == (stripped_token(x) != decimal(bot_id as nat)));
                assert(pred(x) == !same);
                assert(all.take(i + 1).filter(pred) == (if pred(x) {
                    all.take(i as int).filter(pred).push(x)
                } else {
                    all.take(i as int).filter(pred)
                }));
            }
            if !same {
                let ghost k0 = views(kept@);
                let w = slice_chars(&ws[i], 0, ws[i].len());
                assert(w@ =~= ws@[i as int]@);
                kept.push(w);
                assert(views(kept@) =~= k0.push(ws@[i as int]@));
            }
            i += 1;
        }
        assert(all.take(i as int) =~= all);
        let sep = chars_of(" ");
        let joined_words = join_chars(&kept, &sep);
        let t = trim_chars(&joined_words);
        string_of(&t)
    }
}

// ---------------------------------------------------------------------------
// Cooldown
// ---------------------------------------------------------------------------

/// The wait between two questions: longer for throttled users.
pub open spec fn cooldown_limit_spec(user_id: u64, slow: Seq<u64>) -> u64 {
    if slow.contains(user_id) { SLOW_COOLDOWN_SECS } else { COOLDOWN_SECS }
}

/// How long a user still has to wait, given the seconds since their last answered
/// question (`None` when they never had one); exempt users never wait.
pub open spec fn remaining_spec(
    user_id: u64,
    slow: Seq<u64>,
    exempt: Seq<u64>,
    elapsed: Option<u64>,
) -> Option<u64> {
    if exempt.contains(user_id) {
        None
    } else {
        match elapsed {
            Some(e) => if e < cooldown_limit_spec(user_id, slow) {
                Some((cooldown_limit_spec(user_id, slow) - e) as u64)
            } else {
                None
            },
            None => None,
        }
    }
}

/// The reply to a user still cooling down.
pub open spec fn cooldown_text(user_id: u64, slow: Seq<u64>, remaining: u64) -> Seq<char> {
    if slow.contains(user_id) {
        "Easy there, <@"@ + decimal(user_id as nat) + "> \u{2014} give it a rest for "@
            + remaining_text(remaining as nat)
    } else {
        "I'm still waking up \u{2014} try again in "@ + remaining_text(remaining as nat)
    }
}

impl Mention {
    /// The wait between two questions of `user_id`.
    pub fn cooldown_limit(user_id: u64, slow_user_ids: &Vec<u64>) -> (r: u64)
        ensures
            r == cooldown_limit_spec(user_id, slow_user_ids@),
    {
        if holds_id(slow_user_ids, user_id) {
            SLOW_COOLDOWN_SECS
        } else {
            COOLDOWN_SECS
        }
    }

    /// How long `user_id` still has to wait before asking again, if at all.
    pub fn cooldown_remaining(
        user_id: u64,
        slow_user_ids: &Vec<u64>,
        exempt_user_ids: &Vec<u64>,
        elapsed: Option<u64>,
    ) -> (r: Option<u64>)
        ensures
            r == remaining_spec(user_id, slow_user_ids@, exempt_user_ids@, elapsed),
    {
        if holds_id(exempt_user_ids, user_id) {
            return None;
        }
        let limit = Mention::cooldown_limit(user_id, slow_user_ids);
        match elapsed {
            Some(e) => if e < limit {
                Some(limit - e)
            } else {
                None
            },
            None => None,
        }
    }

    /// The reply to a user who asked again too soon.
    pub fn cooldown_message(user_id: u64, slow_user_ids: &Vec<u64>, remaining: u64) -> (s: String)
        ensures
            s@ == cooldown_text(user_id, slow_user_ids@, remaining),
    {
        let time = format_remaining(remaining);
        let mut out: Vec<char> = Vec::new();
        if holds_id(slow_user_ids, user_id) {
            push_str(&mut out, "Easy there, <@");
            push_u64(&mut out, user_id);
            push_str(&mut out, "> \u{2014} give it a rest for ");
        } else {
            push_str(&mut out, "I'm still waking up \u{2014} try again in ");
        }
        push_str(&mut out, time.as_str());
        assert(out@ =~= cooldown_text(user_id, slow_user_ids@, remaining));
        string_of(&out)
    }

    /// Whether the answer starts a new cooldown: only once it was posted, and
    /// never for exempt users.
    pub fn should_record_usage(posted: bool, user_id: u64, exempt_user_ids: &Vec<u64>) -> (b: bool)
        ensures
            b == (posted && !exempt_user_ids@.contains(user_id)),
    {
        posted && !holds_id(exempt_user_ids, user_id)
    }
}

// ---------------------------------------------------------------------------
// Images of the message replied to
// ---------------------------------------------------------------------------

/// A file attached to a message.
#[derive(Debug, Clone)]
pub struct Attachment {
    pub url: String,
    pub content_type: Option<String>,
}

/// The image URLs of an embed.
#[derive(Debug, Clone)]
pub struct EmbedImages {
    pub image_url: Option<String>,
    pub thumbnail_url: Option<String>,
}

/// An image to download, with the type it is passed on as.
#[derive(Debug, Clone)]
pub struct ImageSource {
    pub content_type: String,
    pub url: String,
}

/// The type an attachment declares, `application/octet-stream` when it declares none.
pub open spec fn attachment_type(a: Attachment) -> Seq<char> {
    match a.content_type {
        Some(t) => t@,
        None => "application/octet-stream"@,
    }
}

/// An attachment is fetched when it is an image at an http(s) URL.
pub open spec fn attachment_source(a: Attachment) -> Option<(Seq<char>, Seq<char>)> {
    if has_prefix(attachment_type(a), "image/"@) && is_safe_url_spec(a.url@) {
        Some((attachment_type(a), a.url@))
    } else {
        None
    }
}

/// The image of an embed, else its thumbnail.
pub open spec fn embed_url(e: EmbedImages) -> Option<Seq<char>> {
    match e.image_url {
        Some(u) => Some(u@),
        None => match e.thumbnail_url {
            Some(u) => Some(u@),
            None => None,
        },
    }
}

/// One of the attachments is at `url`.
pub open spec fn attached_at(atts: Seq<Attachment>, url: Seq<char>) -> bool {
    exists|k: int| 0 <= k < atts.len() && (#[trigger] atts[k]).url@ == url
}

/// An embed's image is fetched when it is not also an attachment and its URL is
/// http(s); its type is read from the URL.
pub open spec fn embed_source(e: EmbedImages, atts: Seq<Attachment>) -> Option<(Seq<char>, Seq<char>)> {
    match embed_url(e) {
        Some(u) => if !attached_at(atts, u) && is_safe_url_spec(u) {
            Some((mime_spec(u), u))
        } else {
            None
        },
        None => None,
    }
}

/// The images to fetch, attachments first, then embeds, each in order.
pub open spec fn image_sources_spec(atts: Seq<Attachment>, embeds: Seq<EmbedImages>) -> Seq<(Seq<char>, Seq<char>)> {
    atts.filter_map(|a: Attachment| attachment_source(a)) + embeds.filter_map(
        |e: EmbedImages| embed_source(e, atts),
    )
}

/// The type and URL of each image source.
pub open spec fn source_views(v: Seq<ImageSource>) -> Seq<(Seq<char>, Seq<char>)> {
    v.map_values(|s: ImageSource| (s.content_type@, s.url@))
}

/// Whether one of the attachments is at `url`.
fn attached_at_exec(atts: &Vec<Attachment>, url: &Vec<char>) -> (b: bool)
    ensures
        b == attached_at(atts@, url@),
{
    let mut k: usize = 0;
    while k < atts.len()
        invariant
            k <= atts.len(),
            forall|j: int| 0 <= j < k ==> (#[trigger] atts@[j]).url@ != url@,
        decreases atts.len() - k,
    {
        let a = chars_of(atts[k].url.as_str());
        if seq_eq(&a, url) {
            return true;
        }
        k += 1;
    }
    false
}

/// An embed that has an image is fetched from that image, never from its
/// thumbnail; an embed's thumbnail is used only when it has no image.
pub proof fn lemma_embed_image_before_thumbnail(e: EmbedImages, atts: Seq<Attachment>)
    ensures
        e.image_url matches Some(u) ==> (embed_source(e, atts) matches Some(s) ==> s.1 == u@),
        e.image_url matches Some(u) ==> (!attached_at(atts, u@) && is_safe_url_spec(u@) ==> embed_source(e, atts)
            == Some((mime_spec(u@), u@))),
        e.image_url is None ==> (embed_source(e, atts) matches Some(s) ==> (e.thumbnail_url matches Some(t)
            && s.1 == t@)),
{
}

/// With no attachments, the sources of a single embed that has a fetchable image
/// are exactly that image, typed by its URL, whatever its thumbnail.
pub proof fn lemma_single_embed_sources(e: EmbedImages)
    requires
        e.image_url is Some,
        is_safe_url_spec(e.image_url->0@),
    ensures
        image_sources_spec(Seq::empty(), seq![e]) == seq![(mime_spec(e.image_url->0@), e.image_url->0@)],
{
    let atts = Seq::<Attachment>::empty();
    let u = e.image_url->0@;
    assert(!attached_at(atts, u));
    assert(atts.filter_map(|a: Attachment| attachment_source(a)) =~= Seq::<(Seq<char>, Seq<char>)>::empty());
    Seq::<EmbedImages>::lemma_filter_map_singleton(e, |x: EmbedImages| embed_source(x, atts));
    assert(image_sources_spec(atts, seq![e]) =~= seq![(mime_spec(u), u)]);
}

impl Mention {
    /// The images of the message replied to that are passed along.
    pub fn image_sources(attachments: &Vec<Attachment>, embeds: &Vec<EmbedImages>) -> (r: Vec<ImageSource>)
        ensures
            source_views(r@) == image_sources_spec(attachments@, embeds@),
    {
        let ghost fa = |a: Attachment| attachment_source(a);
        let ghost fe = |e: EmbedImages| embed_source(e, attachments@);
        let mut r: Vec<ImageSource> = Vec::new();
        let mut i: usize = 0;
        assert(attachments@.take(0) =~= Seq::<Attachment>::empty());
        assert(source_views(r@) =~= attachments@.take(0).filter_map(fa));
        while i < attachments.len()
            invariant
                i <= attachments.len(),
                fa == (|a: Attachment| attachment_source(a)),
                source_views(r@) == attachments@.take(i as int).filter_map(fa),
            decreases attachments.len() - i,
        {
            let a = &attachments[i];
            assert(attachments@.take(i + 1).drop_last() =~= attachments@.take(i as int));
            assert(attachments@.take(i + 1).last() == attachments@[i as int]);
            let t = match &a.content_type {
                Some(t) => t.clone(),
                None => String::from_str("application/octet-stream"),
            };
            assert(t@ == attachment_type(*a));
            let tv = chars_of(t.as_str());
            let image = chars_of("image/");
            let is_image = matches_at(&tv, &image, 0);
            proof {
                if image@.len() <= tv@.len() {
                    assert(tv@.subrange(0, image@.len() as int) =~= tv@.take(image@.len() as int));
                }
            }
            if is_image && is_safe_url(a.url.as_str()) {
                let ghost r0 = source_views(r@);
                r.push(ImageSource { content_type: t, url: a.url.clone() });
                assert(source_views(r@) =~= r0 + seq![(attachment_type(*a), a.url@)]);
            }
            i += 1;
        }
        assert(attachments@.take(i as int) =~= attachments@);
        let ghost head = source_views(r@);
        let mut j: usize = 0;
        assert(embeds@.take(0) =~= Seq::<EmbedImages>::empty());
        assert(source_views(r@) =~= head + embeds@.take(0).filter_map(fe));
        while j < embeds.len()
            invariant
                j <= embeds.len(),
                fe == (|e: EmbedImages| embed_source(e, attachments@)),
                head == attachments@.filter_map(|a: Attachment| attachment_source(a)),
                source_views(r@) == head + embeds@.take(j as int).filter_map(fe),
            decreases embeds.len() - j,
        {
            let e = &embeds[j];
            assert(embeds@.take(j + 1).drop_last() =~= embeds@.take(j as int));
            assert(embeds@.take(j + 1).last() == embeds@[j as int]);
            let url: Option<&String> = match &e.image_url {
                Some(u) => Some(u),
                None => match &e.thumbnail_url {
                    Some(u) => Some(u),
                    None => None,
                },
            };
            if let Some(u) = url {
                assert(embed_url(*e) == Some(u@));
                let uv = chars_of(u.as_str());
                if !attached_at_exec(attachments, &uv) && is_safe_url(u.as_str()) {
                    let mime = mime_for_url(u.as_str());
                    let ghost r0 = source_views(r@);
                    r.push(ImageSource { content_type: String::from_str(mime), url: u.clone() });
                    assert(source_views(r@) =~= r0 + seq![(mime_spec(u@), u@)]);
                }
            }
            j += 1;
        }
        assert(embeds@.take(j as int) =~= embeds@);
        r
    }
}

/// The standard base64 encoding, with padding, of some bytes.
pub uninterp spec fn base64_standard(bytes: Seq<u8>) -> Seq<char>;

/// `base64::Engine::encode` with the standard engine
/// (`base64::prelude::BASE64_STANDARD`): the result is the named encoding of the
/// bytes, four characters for each started group of three bytes. The crate
/// panics when that length overflows `usize`, which `requires` excludes.
#[verifier::external_body]
fn encode_base64(bytes: &Vec<u8>) -> (s: String)
    requires
        4 * ((bytes@.len() + 2) / 3) <= usize::MAX,
    ensures
        s@ == base64_standard(bytes@),
        s@.len() == 4 * ((bytes@.len() + 2) / 3),
{
    base64::Engine::encode(&base64::prelude::BASE64_STANDARD, bytes.as_slice())
}

/// The images as passed on: each type with its bytes in base64.
pub open spec fn encoded_images(downloads: Seq<(String, Vec<u8>)>, r: Seq<(String, String)>) -> bool {
    &&& r.len() == downloads.len()
    &&& forall|i: int| 0 <= i < r.len() ==> (#[trigger] r[i]).0@ == downloads[i].0@ && r[i].1@
        == base64_standard(downloads[i].1@)
}

impl Mention {
    /// The downloaded images, each as its type and its bytes in base64.
    pub fn encode_images(downloads: &Vec<(String, Vec<u8>)>) -> (r: Vec<(String, String)>)
        requires
            forall|i: int| 0 <= i < downloads@.len() ==> 4 * (((#[trigger] downloads@[i]).1@.len() + 2) / 3)
                <= usize::MAX,
        ensures
            encoded_images(downloads@, r@),
    {
        let mut r: Vec<(String, String)> = Vec::new();
        let mut i: usize = 0;
        while i < downloads.len()
            invariant
                i <= downloads.len(),
                forall|i: int| 0 <= i < downloads@.len() ==> 4 * (((#[trigger] downloads@[i]).1@.len() + 2) / 3)
                    <= usize::MAX,
                encoded_images(downloads@.take(i as int), r@),
            decreases downloads.len() - i,
        {
            let (t, b) = &downloads[i];
            let enc = encode_base64(b);
            r.push((t.clone(), enc));
            i += 1;
        }
        assert(downloads@.take(i as int) =~= downloads@);
        r
    }
}

// ---------------------------------------------------------------------------
// Prompt and answer
// ---------------------------------------------------------------------------

/// What the asker replied to, as told to the model.
pub open spec fn reply_context(referenced: Seq<char>, images: nat) -> Seq<char> {
    if referenced.len() > 0 && images > 0 {
        referenced + " [also shared an image]"@
    } else if images > 0 {
        "[shared an image ("@ + decimal(images) + ")]"@
    } else if referenced.len() > 0 {
        referenced
    } else {
        "[replied to an image]"@
    }
}

/// The prompt: who asked what, and what they replied to, if anything.
pub open spec fn prompt_text(author: Seq<char>, question: Seq<char>, referenced: Option<Seq<char>>, images: nat) -> Seq<char> {
    match referenced {
        Some(r) => author + " replied to: \""@ + reply_context(r, images) + "\" and asked: \""@
            + question + "\""@,
        None => author + " asked: \""@ + question + "\""@,
    }
}

impl Mention {
    /// The prompt for a question, with the text of the message replied to, if any,
    /// and the number of images passed along.
    pub fn build_prompt(author: &str, question: &str, referenced: Option<&str>, image_count: usize) -> (s: String)
        ensures
            s@ == prompt_text(
                author@,
                question@,
                match referenced {
                    Some(r) => Some(r@),
                    None => None,
                },
                image_count as nat,
            ),
    {
        let mut out: Vec<char> = Vec::new();
        push_str(&mut out, author);
        match referenced {
            Some(r) => {
                push_str(&mut out, " replied to: \"");
                let rv = chars_of(r);
                let ghost before = out@;
                if rv.len() > 0 && image_count > 0 {
                    push_all(&mut out, &rv);
                    push_str(&mut out, " [also shared an image]");
                } else if image_count > 0 {
                    push_str(&mut out, "[shared an image (");
                    push_u64(&mut out, image_count as u64);
                    push_str(&mut out, ")]");
                } else if rv.len() > 0 {
                    push_all(&mut out, &rv);
                } else {
                    push_str(&mut out, "[replied to an image]");
                }
                assert(out@ =~= before + reply_context(r@, image_count as nat));
                push_str(&mut out, "\" and asked: \"");
            },
            None => {
                push_str(&mut out, " asked: \"");
            },
        }
        push_str(&mut out, question);
        push_str(&mut out, "\"");
        assert(out@ =~= prompt_text(
            author@,
            question@,
            match referenced {
                Some(r) => Some(r@),
                None => None,
            },
            image_count as nat,
        ));
        string_of(&out)
    }

    /// What is posted of the model's answer: the answer trimmed, or nothing when
    /// that leaves it empty.
    pub fn answer_to_post(answer: &str) -> (r: Option<String>)
        ensures
            match r {
                Some(s) => s@ == trim_spec(answer@) && s@.len() > 0,
                None => trim_spec(answer@).len() == 0,
            },
    {
        let v = chars_of(answer);
        let t = trim_chars(&v);
        if t.len() == 0 {
            None
        } else {
            Some(string_of(&t))
        }
    }

    /// The reply to a mention that asks nothing.
    pub fn empty_question_reply() -> (s: String)
        ensures
            s@ == "You mentioned me but didn't ask anything \u{2014} what's up?"@,
    {
        String::from_str("You mentioned me but didn't ask anything \u{2014} what's up?")
    }

    /// The reply when the model could not be asked.
    pub fn trouble_reply() -> (s: String)
        ensures
            s@ == "I'm having trouble thinking right now, try again later"@,
    {
        String::from_str("I'm having trouble thinking right now, try again later")
    }
}

// ---------------------------------------------------------------------------
// Laws
// ---------------------------------------------------------------------------

/// A positive number is written without a leading zero.
pub proof fn lemma_decimal_leading(n: nat)
    ensures
        decimal(n).len() > 0,
        n > 0 ==> decimal(n)[0] != '0',
    decreases n,
{
    if n >= 10 {
        lemma_decimal_leading(n / 10);
        assert((decimal(n / 10) + seq![crate::text::digit_char(n % 10)])[0] == decimal(n / 10)[0]);
    }
}

/// A wait of at least a second never reads as zero: its text starts with a nonzero
/// digit, whichever unit it is given in.
pub proof fn lemma_remaining_never_zero(secs: nat)
    requires
        secs > 0,
    ensures
        remaining_text(secs)[0] != '0',
{
    if secs >= 3600 {
        lemma_decimal_leading(secs / 3600);
        let mins = (secs % 3600) / 60;
        if mins > 0 {
            assert((decimal(secs / 3600) + "h "@ + decimal(mins) + "m"@)[0] == decimal(secs / 3600)[0]);
        } else {
            assert((decimal(secs / 3600) + "h"@)[0] == decimal(secs / 3600)[0]);
        }
    } else if secs >= 60 {
        lemma_decimal_leading(secs / 60);
        assert((decimal(secs / 60) + "m"@)[0] == decimal(secs / 60)[0]);
    } else {
        lemma_decimal_leading(secs);
        assert((decimal(secs) + "s"@)[0] == decimal(secs)[0]);
    }
}

/// The query string and fragment do not change the image type: a URL with `?...`
/// or `#...` after its path has the type of its path alone.
pub proof fn lemma_mime_ignores_query(path: Seq<char>, sep: char, rest: Seq<char>)
    requires
        sep == '?' || sep == '#',
        forall|i: int| 0 <= i < path.len() ==> path[i] != '?' && path[i] != '#',
    ensures
        mime_spec(path + seq![sep] + rest) == mime_spec(path),
    decreases path.len(),
{
    lemma_query_start_prefix(path, seq![sep] + rest);
    lemma_query_start_prefix(path, Seq::empty());
    assert((path + seq![sep] + rest) =~= path + (seq![sep] + rest));
    assert((path + seq![sep] + rest).take(path.len() as int) =~= path);
    assert((path + Seq::<char>::empty()) =~= path);
    assert(path.take(path.len() as int) =~= path);
}

/// The query string starts at the first `?` or `#`: after a path free of both, where
/// the rest begins with one (or ends).
proof fn lemma_query_start_prefix(path: Seq<char>, rest: Seq<char>)
    requires
        forall|i: int| 0 <= i < path.len() ==> path[i] != '?' && path[i] != '#',
        rest.len() == 0 || rest[0] == '?' || rest[0] == '#',
    ensures
        query_start(path + rest) == path.len(),
    decreases path.len(),
{
    if path.len() > 0 {
        assert((path + rest)[0] == path[0]);
        assert((path + rest).drop_first() =~= path.drop_first() + rest);
        lemma_query_start_prefix(path.drop_first(), rest);
    } else {
        assert(path + rest =~= rest);
    }
}

/// A user on cooldown waits at least a second and at most the whole cooldown.
pub proof fn lemma_remaining_within_limit(user_id: u64, slow: Seq<u64>, exempt: Seq<u64>, elapsed: Option<u64>)
    ensures
        remaining_spec(user_id, slow, exempt, elapsed) matches Some(r) ==> 0 < r <= cooldown_limit_spec(
            user_id,
            slow,
        ),
{
}

} // verus!
