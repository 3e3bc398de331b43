//! "Is this real?": a reply that asks the bot about the message replied to.
use vstd::prelude::*;
use crate::handlers::gulag::GulagParams;
use crate::handlers::holds_id;
use crate::handlers::mention::{attachment_type, Attachment, ImageSource};
use crate::text::{
    chars_of, decimal, has_prefix, lowercase, matches_at, push_str, push_u64, replace_chars,
    replaced, string_of, to_lowercase, trim_chars, trim_spec,
};

verus! {

pub struct IsThisReal;

/// The user whom any mention of the bot sends to the gulag.
pub const SPECIAL_USER_ID: u64 = 163055057254875136;

/// The user who is never kept waiting.
pub const ADMIN_USER_ID: u64 = 212879017257205760;

/// Hours between two questions of a user.
pub const COOLDOWN_HOURS: u64 = 8;

/// The special user's sentence, in seconds.
pub const GULAG_DURATION_SECS: u32 = 300;

/// Whether a character is a letter or a digit, as Unicode defines it
/// (`char::is_alphanumeric`); it depends on the character alone.
pub uninterp spec fn alphanumeric(c: char) -> bool;

/// `char::is_alphanumeric`: the result is the named property of `c`.
#[verifier::external_body]
fn is_alphanumeric(c: char) -> (b: bool)
    ensures
        b == alphanumeric(c),
{
    c.is_alphanumeric()
}

/// The question: the message with the bot's mentions (`<@id>`, then `<@!id>`) taken
/// out, trimmed.
pub open spec fn question_spec(content: Seq<char>, bot_id: u64) -> Seq<char> {
    trim_spec(
        replaced(
            replaced(content, "<@"@ + decimal(bot_id as nat) + ">"@, Seq::empty()),
            "<@!"@ + decimal(bot_id as nat) + ">"@,
            Seq::empty(),
        ),
    )
}

/// The characters kept when comparing questions: letters, digits and spaces.
pub open spec fn kept(c: char) -> bool {
    alphanumeric(c) || c == ' '
}

/// A question as compared with the triggers: lowercased, only letters, digits and
/// spaces kept, trimmed.
pub open spec fn cleaned_spec(q: Seq<char>) -> Seq<char> {
    trim_spec(lowercase(q).filter(|c: char| kept(c)))
}

/// What was said, as told to the model: the text, or a note of the images when
/// there is no text.
pub open spec fn claim_spec(content: Seq<char>, images: nat) -> Seq<char> {
    if content.len() == 0 && images > 0 {
        "[shared an image ("@ + decimal(images) + ")]"@
    } else {
        content
    }
}

impl IsThisReal {
    /// Whether a message is looked at: the feature is on, it mentions the bot, and it
    /// was sent in a guild.
    pub fn should_consider(enabled: bool, mentioned_ids: &Vec<u64>, bot_id: u64, guild_id: Option<u64>) -> (b: bool)
        ensures
            b == (enabled && mentioned_ids@.contains(bot_id) && guild_id is Some),
    {
        enabled && holds_id(mentioned_ids, bot_id) && guild_id.is_some()
    }

    /// Whether the author is the user whom any mention sends to the gulag.
    pub fn is_special_user(author_id: u64) -> (b: bool)
        ensures
            b == (author_id == SPECIAL_USER_ID),
    {
        author_id == SPECIAL_USER_ID
    }

    /// The question asked, without the bot's mentions.
    pub fn extract_question(content: &str, bot_id: u64) -> (q: String)
        ensures
            q@ == question_spec(content@, bot_id),
    {
        let c = chars_of(content);
        let mut plain: Vec<char> = Vec::new();
        push_str(&mut plain, "<@");
        push_u64(&mut plain, bot_id);
        push_str(&mut plain, ">");
        let mut bang: Vec<char> = Vec::new();
        push_str(&mut bang, "<@!");
        push_u64(&mut bang, bot_id);
        push_str(&mut bang, ">");
        let empty: Vec<char> = Vec::new();
        let once = replace_chars(&c, &plain, &empty);
        let twice = replace_chars(&once, &bang, &empty);
        assert(empty@ =~= Seq::<char>::empty());
        let t = trim_chars(&twice);
        string_of(&t)
    }

    /// A question as compared with the triggers.
    pub fn clean(question: &str) -> (s: String)
        ensures
            s@ == cleaned_spec(question@),
    {
        let lower = to_lowercase(question);
        let v = chars_of(lower.as_str());
        let ghost pred = |c: char| kept(c);
        let mut out: Vec<char> = Vec::new();
        let mut i: usize = 0;
        assert(v@.take(0) =~= Seq::<char>::empty());
        proof {
            reveal(Seq::filter);
        }
        while i < v.len()
            invariant
                i <= v.len(),
                pred == (|c: char| kept(c)),
                out@ == v@.take(i as int).filter(pred),
            decreases v.len() - i,
        {
            proof {
                reveal(Seq::filter);
                assert(v@.take(i + 1).drop_last() =~= v@.take(i as int));
                assert(v@.take(i + 1).last() == v@[i as int]);
            }
            let c = v[i];
            if is_alphanumeric(c) || c == ' ' {
                out.push(c);
            }
            i += 1;
        }
        assert(v@.take(i as int) =~= v@);
        let t = trim_chars(&out);
        string_of(&t)
    }

    /// The phrasings a question is compared with.
    pub fn triggers() -> (r: Vec<String>)
        ensures
            r@.len() == 6,
            r@[0]@ == "is this real"@,
            r@[1]@ == "is that real"@,
            r@[2]@ == "is this true"@,
            r@[3]@ == "is that true"@,
            r@[4]@ == "is this legit"@,
            r@[5]@ == "is that legit"@,
    {
        let mut r: Vec<String> = Vec::new();
        r.push(String::from_str("is this real"));
        r.push(String::from_str("is that real"));
        r.push(String::from_str("is this true"));
        r.push(String::from_str("is that true"));
        r.push(String::from_str("is this legit"));
        r.push(String::from_str("is that legit"));
        r
    }

    /// Whether a user must still wait: everyone but the admin, for eight hours after
    /// their last answered question (`elapsed` seconds ago, `None` when never).
    pub fn on_cooldown(user_id: u64, elapsed: Option<u64>) -> (b: bool)
        ensures
            b == (user_id != ADMIN_USER_ID && (elapsed matches Some(e) && e < COOLDOWN_HOURS * 3600)),
    {
        if user_id == ADMIN_USER_ID {
            return false;
        }
        match elapsed {
            Some(e) => e < COOLDOWN_HOURS * 3600,
            None => false,
        }
    }

    /// Whether an answer starts a new cooldown: for everyone but the admin.
    pub fn should_record_usage(user_id: u64) -> (b: bool)
        ensures
            b == (user_id != ADMIN_USER_ID),
    {
        user_id != ADMIN_USER_ID
    }

    /// The images of the message replied to that are passed along: its attachments
    /// of an image type, in order.
    pub fn image_sources(attachments: &Vec<Attachment>) -> (r: Vec<ImageSource>)
        ensures
            r@.map_values(|s: ImageSource| (s.content_type@, s.url@)) == attachments@.filter_map(
                |a: Attachment| if has_prefix(attachment_type(a), "image/"@) {
                    Some((attachment_type(a), a.url@))
                } else {
                    None
                },
            ),
    {
        let ghost f = |a: Attachment| if has_prefix(attachment_type(a), "image/"@) {
            Some((attachment_type(a), a.url@))
        } else {
            None
        };
        let image = chars_of("image/");
        let mut r: Vec<ImageSource> = Vec::new();
        let mut i: usize = 0;
        assert(attachments@.take(0) =~= Seq::<Attachment>::empty());
        assert(r@.map_values(|s: ImageSource| (s.content_type@, s.url@)) =~= attachments@.take(0).filter_map(f));
        while i < attachments.len()
            invariant
                i <= attachments.len(),
                image@ == "image/"@,
                f == (|a: Attachment| if has_prefix(attachment_type(a), "image/"@) {
                    Some((attachment_type(a), a.url@))
                } else {
                    None
                }),
                r@.map_values(|s: ImageSource| (s.content_type@, s.url@)) == attachments@.take(i as int).filter_map(f),
            decreases attachments.len() - i,
        {
            assert(attachments@.take(i + 1).drop_last() =~= attachments@.take(i as int));
            assert(attachments@.take(i + 1).last() == attachments@[i as int]);
            let a = &attachments[i];
            let t = match &a.content_type {
                Some(t) => t.clone(),
                None => String::from_str("application/octet-stream"),
            };
            let tv = chars_of(t.as_str());
            let is_image = matches_at(&tv, &image, 0);
            proof {
                if image@.len() <= tv@.len() {
                    assert(tv@.subrange(0, image@.len() as int) =~= tv@.take(image@.len() as int));
                }
            }
            if is_image {
                let ghost r0 = r@.map_values(|s: ImageSource| (s.content_type@, s.url@));
                r.push(ImageSource { content_type: t, url: a.url.clone() });
                assert(r@.map_values(|s: ImageSource| (s.content_type@, s.url@)) =~= r0 + seq![(attachment_type(*a), a.url@)]);
            }
            i += 1;
        }
        assert(attachments@.take(i as int) =~= attachments@);
        r
    }

    /// The prompt: the claim and the question.
    pub fn build_prompt(referenced_content: &str, image_count: usize, question: &str) -> (s: String)
        ensures
            s@ == "/skill:is-this-real Someone said: \""@ + claim_spec(referenced_content@, image_count as nat)
                + "\" \u{2014} The question is: \""@ + question@ + "\""@,
    {
        let rc = chars_of(referenced_content);
        let mut out: Vec<char> = Vec::new();
        push_str(&mut out, "/skill:is-this-real Someone said: \"");
        if rc.len() == 0 && image_count > 0 {
            push_str(&mut out, "[shared an image (");
            push_u64(&mut out, image_count as u64);
            push_str(&mut out, ")]");
        } else {
            push_str(&mut out, referenced_content);
        }
        push_str(&mut out, "\" \u{2014} The question is: \"");
        push_str(&mut out, question);
        push_str(&mut out, "\"");
        assert(out@ =~= "/skill:is-this-real Someone said: \""@ + claim_spec(referenced_content@, image_count as nat)
            + "\" \u{2014} The question is: \""@ + question@ + "\""@);
        string_of(&out)
    }

    /// The sentence for the special user: five minutes, in the guild's gulag role,
    /// announced in the gulag channel, for this message.
    pub fn special_user_params(guild_id: u64, author_id: u64, gulag_role_id: i64, channel_id: u64, message_id: u64) -> (p: GulagParams)
        ensures
            p.guildid == guild_id,
            p.userid == author_id,
            p.gulag_roleid == gulag_role_id as u64,
            p.gulaglength == GULAG_DURATION_SECS,
            p.channelid == channel_id,
            p.messageid == message_id,
    {
        GulagParams {
            guildid: guild_id,
            userid: author_id,
            gulag_roleid: gulag_role_id as u64,
            gulaglength: GULAG_DURATION_SECS,
            channelid: channel_id,
            messageid: message_id,
        }
    }

    /// The announcement of the special user's sentence.
    pub fn irony_message(author_id: u64) -> (s: String)
        ensures
            s@ == "<@"@ + decimal(author_id as nat) + "> wanted to know if something was real... now they're in the gulag for 5m. Irony."@,
    {
        let mut out: Vec<char> = Vec::new();
        push_str(&mut out, "<@");
        push_u64(&mut out, author_id);
        push_str(&mut out, "> wanted to know if something was real... now they're in the gulag for 5m. Irony.");
        assert(out@ =~= "<@"@ + decimal(author_id as nat) + "> wanted to know if something was real... now they're in the gulag for 5m. Irony."@);
        string_of(&out)
    }

    /// The reply to a mention that asks nothing.
    pub fn empty_question_reply() -> (s: String)
        ensures
            s@ == "Ask me a question about the message you replied to!"@,
    {
        String::from_str("Ask me a question about the message you replied to!")
    }

    /// The reply to a user still cooling down.
    pub fn cooldown_reply() -> (s: String)
        ensures
            s@ == "Come back tomorrow, I need my sleep"@,
    {
        String::from_str("Come back tomorrow, I need my sleep")
    }
}

} // verus!
